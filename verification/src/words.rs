use vstd::prelude::*;
use crate::code::Op;
use crate::dictionary::{WordContext, WordRuntime, WordType, WordVisibility};
use crate::error::ScriptResult;
use crate::interpreter::{CLONE_DEPTH, EQ_DEPTH, Handler, STEP_LIMIT, SorthInterpreter};
use crate::location::SourceLocation;
use crate::store::{DataObjectDefinition, clone_values};
use crate::text::{chars_to_string, i64_to_string, push_str_chars, str_to_chars};
use crate::tokenizing::Token;
use crate::value::Value;

verus! {

/// The words built into the runtime.  Each variant names one native word; the
/// interpreter dispatches on it when the word executes.
#[derive(Clone, Copy, PartialEq, Eq)]
pub enum NativeWord {
    // Interpreter state words.
    Reset,
    Throw,
    SorthVersion,
    ThreadShow,
    ThreadNew,
    ThreadPushTo,
    ThreadPopFrom,
    ThreadPush,
    ThreadPop,
    IfIm,
    // Stack manipulation words.
    Dup,
    Drop,
    Swap,
    Over,
    Rot,
    Depth,
    ClearStack,
    Pick,
    Roll,
    StackDepth,
    StackMaxDepth,
    PushTo,
    // Constant words.
    PushNone,
    PushTrue,
    PushFalse,
    PushTrueFlag,
    StringNpos,
    // Arithmetic words.
    MulDiv,
    MulDivMod,
    AddOne,
    SubOne,
    TimesTwo,
    DivideByTwo,
    Mod,
    DivMod,
    Abs,
    Negate,
    Add,
    Subtract,
    Multiply,
    Divide,
    Modulo,
    // Logic and bit words.
    ZeroEqual,
    NotEqual,
    LogicAnd,
    LogicOr,
    LogicNot,
    BitAnd,
    BitOr,
    BitXor,
    BitNot,
    ShiftLeft,
    ShiftRight,
    Equal,
    GreaterEqual,
    LessEqual,
    Greater,
    Less,
    // Bytecode emission words.
    OpDefVariable,
    OpDefConstant,
    OpReadVariable,
    OpWriteVariable,
    OpExecute,
    OpPushConstantValue,
    OpMarkLoopExit,
    OpUnmarkLoopExit,
    OpMarkCatch,
    OpUnmarkCatch,
    OpJump,
    OpJumpIfZero,
    OpJumpIfNotZero,
    OpJumpLoopStart,
    OpJumpLoopExit,
    OpJumpTarget,
    CodeNewBlock,
    CodeMergeStackBlock,
    CodePopStackBlock,
    CodePushStackBlock,
    CodeStackBlockSize,
    CodeResolveJumps,
    CodeCompileUntilWords,
    CodeInsertAtFront,
    CodeExecuteSource,
    // Word handling words.
    Word,
    GetWordTable,
    WordIndexIm,
    Execute,
    IsDefined,
    IsDefinedIm,
    IsUndefinedIm,
    // Word creation words.
    StartWord,
    EndWord,
    Immediate,
    Hidden,
    Contextless,
    Description,
    Signature,
    // Value type words.
    IsNone,
    IsNumber,
    IsBoolean,
    IsString,
    IsStructure,
    IsArray,
    IsBuffer,
    IsHashTable,
    IsToken,
    IsCode,
    // String words.
    StringLength,
    StringInsert,
    StringRemove,
    StringFind,
    StringIndexRead,
    StringToNumber,
    ToString,
    Hex,
    UniqueStr,
    // Structure words.
    DataDefinition,
    ReadField,
    WriteField,
    StructureIterate,
    StructureFieldExists,
    StructureCompare,
    // Array words.
    ArrayNew,
    ArraySize,
    ArrayWriteIndex,
    ArrayReadIndex,
    ArrayResize,
    ArrayInsert,
    ArrayDelete,
    ArrayPlus,
    ArrayCompare,
    ArrayPushFront,
    ArrayPushBack,
    ArrayPopFront,
    ArrayPopBack,
    // Byte buffer words.
    BufferNew,
    BufferSize,
    BufferResize,
    BufferWriteInt,
    BufferReadInt,
    BufferWriteString,
    BufferReadString,
    BufferSetPosition,
    BufferGetPosition,
    // Hash table words.
    HashNew,
    HashInsert,
    HashFind,
    HashExists,
    HashPlus,
    HashCompare,
    HashSize,
    HashIterate,
    // Variable and constant surface words.
    VariableIm,
    ConstantIm,
    VariableRead,
    VariableWrite,
    // Control flow surface words.
    IfWord,
    ElseWord,
    ThenWord,
    BeginWord,
    UntilWord,
    WhileWord,
    RepeatWord,
    DoWord,
    LoopWord,
    BreakWord,
    ContinueWord,
    LoopIndexI,
    LoopIndexJ,
    TryWord,
    CatchWord,
    EndTryWord,
    DoSetup,
    DoNext,
    DoEnd,
}

/// The truncating quotient, as machine division computes it: the magnitudes
/// divide and the signs multiply.
pub open spec fn spec_div_trunc(a: int, b: int) -> int {
    let abs_a = if a >= 0 {
        a
    } else {
        -a
    };
    let abs_b = if b >= 0 {
        b
    } else {
        -b
    };
    if (a >= 0) == (b >= 0) {
        abs_a / abs_b
    } else {
        -(abs_a / abs_b)
    }
}

/// The truncating remainder: the remainder of the magnitudes, carrying the
/// sign of the dividend, as machine remainder computes it.
pub open spec fn spec_mod_trunc(a: int, b: int) -> int {
    let abs_a = if a >= 0 {
        a
    } else {
        -a
    };
    let abs_b = if b >= 0 {
        b
    } else {
        -b
    };
    if a >= 0 {
        abs_a % abs_b
    } else {
        -(abs_a % abs_b)
    }
}

/// The stack effect of a word that pops one number and pushes one: it
/// succeeds exactly on a stack with a numeric top, and replaces that top with
/// the function of its value.
pub open spec fn spec_unary_int_effect(
    pre: SorthInterpreter,
    post: SorthInterpreter,
    ok: bool,
    f: spec_fn(i64) -> i64,
) -> bool {
    &&& ok <==> pre.stack@.len() > 0 && crate::value::spec_is_numeric(pre.stack@.last())
    &&& ok ==> post.stack@ == pre.stack@.drop_last().push(
        Value::Int(f(crate::value::spec_int_val(pre.stack@.last()))),
    )
}

/// The stack effect of a word that pops two numbers and pushes one: it
/// succeeds exactly on a stack with two numeric values on top for which the
/// operation is defined, and replaces them with the function of the second
/// and the top.
pub open spec fn spec_binary_int_effect(
    pre: SorthInterpreter,
    post: SorthInterpreter,
    ok: bool,
    defined: spec_fn(i64, i64) -> bool,
    f: spec_fn(i64, i64) -> i64,
) -> bool {
    &&& ok <==> pre.stack@.len() >= 2 && crate::value::spec_is_numeric(pre.stack@.last())
        && crate::value::spec_is_numeric(pre.stack@[pre.stack@.len() - 2]) && defined(
        crate::value::spec_int_val(pre.stack@[pre.stack@.len() - 2]),
        crate::value::spec_int_val(pre.stack@.last()),
    )
    &&& ok ==> post.stack@ == pre.stack@.drop_last().drop_last().push(
        Value::Int(
            f(
                crate::value::spec_int_val(pre.stack@[pre.stack@.len() - 2]),
                crate::value::spec_int_val(pre.stack@.last()),
            ),
        ),
    )
}

/// The stack effect of a word that pops two numbers and pushes two: the
/// remainder, then the quotient on top.
pub open spec fn spec_divmod_effect(
    pre: SorthInterpreter,
    post: SorthInterpreter,
    ok: bool,
    a: i64,
    b: i64,
) -> bool {
    &&& a == crate::value::spec_int_val(pre.stack@[pre.stack@.len() - 2])
    &&& b == crate::value::spec_int_val(pre.stack@.last())
    &&& ok ==> post.stack@ == pre.stack@.drop_last().drop_last().push(
        Value::Int(spec_mod_trunc(a as int, b as int) as i64),
    ).push(Value::Int(spec_div_trunc(a as int, b as int) as i64))
}




/// For a nonzero divisor outside the one overflowing pair, the checked
/// quotient and remainder exist and are the truncating quotient and
/// remainder.
proof fn lemma_checked_div_rem(a: i64, b: i64)
    requires
        b != 0,
        !(a == i64::MIN && b == -1),
    ensures
        a.checked_div(b) == Some(spec_div_trunc(a as int, b as int) as i64),
        a.checked_rem(b) == Some(spec_mod_trunc(a as int, b as int) as i64),
        i64::MIN <= spec_div_trunc(a as int, b as int) <= i64::MAX,
        i64::MIN <= spec_mod_trunc(a as int, b as int) <= i64::MAX,
{
    let x = a as int;
    let d = b as int;
    let abs_x = if x >= 0 {
        x
    } else {
        -x
    };
    let abs_d = if d >= 0 {
        d
    } else {
        -d
    };
    vstd::arithmetic::div_mod::lemma_div_basics_4(abs_x, abs_d);
    vstd::arithmetic::div_mod::lemma_div_basics_5(abs_x, abs_d);
    vstd::arithmetic::div_mod::lemma_mod_bound(abs_x, abs_d);
    if x == 0 {
        vstd::arithmetic::div_mod::lemma_div_of0(abs_d);
        vstd::arithmetic::div_mod::lemma_small_mod(0, abs_d as nat);
    }
    if abs_x == 0x8000000000000000 && abs_d >= 2 {
        vstd::arithmetic::div_mod::lemma_div_is_ordered_by_denominator(abs_x, 2, abs_d);
        assert(abs_x / 2 == 0x4000000000000000);
    }
    assert(abs_x >= 1 ==> abs_x / abs_d <= abs_x);
    assert((-x) == abs_x || x == abs_x);
    assert((-d) == abs_d || d == abs_d);
    assert(x < 0 && d < 0 ==> (x * -1) == abs_x && (d * -1) == abs_d);
    assert(x < 0 && d > 0 ==> (x * -1) == abs_x);
    assert(x > 0 && d < 0 ==> (d * -1) == abs_d);
}


/// The shape a multiply-divide word needs: three numbers on the stack.
pub open spec fn spec_muldiv_shape(pre: SorthInterpreter) -> bool {
    pre.stack@.len() >= 3 && crate::value::spec_is_numeric(pre.stack@.last())
        && crate::value::spec_is_numeric(pre.stack@[pre.stack@.len() - 2])
        && crate::value::spec_is_numeric(pre.stack@[pre.stack@.len() - 3])
}

/// The wrapped product of the two numbers under the divisor.
pub open spec fn spec_muldiv_product(pre: SorthInterpreter) -> i64 {
    crate::value::spec_int_val(pre.stack@[pre.stack@.len() - 3]).wrapping_mul(
        crate::value::spec_int_val(pre.stack@[pre.stack@.len() - 2]),
    )
}

/// The divisor on top of the stack.
pub open spec fn spec_muldiv_divisor(pre: SorthInterpreter) -> i64 {
    crate::value::spec_int_val(pre.stack@.last())
}

/// What executing one native word does to the data stack, surfaced per word:
/// for the stack manipulation, constant, arithmetic, logic, bit, comparison
/// and kind test words this is the word's exact effect, in both directions;
/// for the words whose effect reaches beyond the stack (compilation, store
/// objects, structures, word definitions) the word's own function states it.
pub open spec fn spec_native_effect(
    word: NativeWord,
    pre: SorthInterpreter,
    post: SorthInterpreter,
    ok: bool,
) -> bool {
    match word {
        NativeWord::Dup => (ok <==> pre.stack@.len() > 0) && (ok ==> post.stack@
            == pre.stack@.push(pre.stack@.last())),
        NativeWord::Drop => (ok <==> pre.stack@.len() > 0) && (ok ==> post.stack@
            == pre.stack@.drop_last()),
        NativeWord::Swap => (ok <==> pre.stack@.len() >= 2) && (ok ==> post.stack@
            == pre.stack@.drop_last().drop_last().push(pre.stack@.last()).push(
            pre.stack@[pre.stack@.len() - 2],
        )),
        NativeWord::Over => (ok <==> pre.stack@.len() >= 2) && (ok ==> post.stack@
            == pre.stack@.push(pre.stack@[pre.stack@.len() - 2])),
        NativeWord::Rot => (ok <==> pre.stack@.len() >= 3) && (ok ==> post.stack@
            == pre.stack@.remove(pre.stack@.len() - 3).push(pre.stack@[pre.stack@.len() - 3])),
        NativeWord::Depth => ok ==> post.stack@ == pre.stack@.push(
            Value::Int(pre.stack@.len() as i64),
        ),
        NativeWord::StackDepth => ok ==> post.stack@ == pre.stack@.push(
            Value::Int(pre.stack@.len() as i64),
        ),
        NativeWord::ClearStack => ok && post.stack@.len() == 0,
        NativeWord::Pick => (ok <==> pre.stack@.len() > 0 && crate::value::spec_is_numeric(
            pre.stack@.last(),
        ) && 0 <= crate::value::spec_int_val(pre.stack@.last()) <= usize::MAX
            && crate::value::spec_int_val(pre.stack@.last()) < pre.stack@.len() - 1) && (ok
            ==> post.stack@ == pre.stack@.drop_last().push(
            pre.stack@[pre.stack@.len() - 2 - crate::value::spec_int_val(pre.stack@.last())],
        )),
        NativeWord::Roll => (ok <==> pre.stack@.len() > 0 && crate::value::spec_is_numeric(
            pre.stack@.last(),
        ) && 0 <= crate::value::spec_int_val(pre.stack@.last()) <= usize::MAX
            && crate::value::spec_int_val(pre.stack@.last()) < pre.stack@.len() - 1) && (ok
            ==> post.stack@ == pre.stack@.drop_last().remove(
            pre.stack@.len() - 2 - crate::value::spec_int_val(pre.stack@.last()),
        ).push(pre.stack@[pre.stack@.len() - 2 - crate::value::spec_int_val(pre.stack@.last())])),
        NativeWord::PushTo => (ok <==> pre.stack@.len() >= 2 && crate::value::spec_is_numeric(
            pre.stack@.last(),
        ) && 0 <= crate::value::spec_int_val(pre.stack@.last()) <= usize::MAX
            && crate::value::spec_int_val(pre.stack@.last()) < pre.stack@.len() - 1) && (ok
            ==> post.stack@ == pre.stack@.drop_last().drop_last().insert(
            pre.stack@.len() - 2 - crate::value::spec_int_val(pre.stack@.last()),
            pre.stack@[pre.stack@.len() - 2],
        )),
        NativeWord::PushNone => ok && post.stack@ == pre.stack@.push(Value::Nothing),
        NativeWord::PushTrue => ok && post.stack@ == pre.stack@.push(Value::Bool(true)),
        NativeWord::PushFalse => ok && post.stack@ == pre.stack@.push(Value::Bool(false)),
        NativeWord::PushTrueFlag => ok && post.stack@ == pre.stack@.push(Value::Int(-1i64)),
        NativeWord::StringNpos => ok && post.stack@ == pre.stack@.push(Value::Int(-1i64)),
        NativeWord::AddOne => spec_unary_int_effect(pre, post, ok, (|a: i64| a.wrapping_add(1))),
        NativeWord::SubOne => spec_unary_int_effect(pre, post, ok, (|a: i64| a.wrapping_sub(1))),
        NativeWord::TimesTwo => spec_unary_int_effect(pre, post, ok, (|a: i64| a.wrapping_mul(2))),
        NativeWord::DivideByTwo => spec_unary_int_effect(
            pre,
            post,
            ok,
            (|a: i64| spec_div_trunc(a as int, 2) as i64),
        ),
        NativeWord::Abs => spec_unary_int_effect(
            pre,
            post,
            ok,
            (|a: i64|
                if a == i64::MIN {
                    i64::MIN
                } else if a < 0 {
                    (-(a as int)) as i64
                } else {
                    a
                }),
        ),
        NativeWord::Negate => spec_unary_int_effect(
            pre,
            post,
            ok,
            (|a: i64|
                if a == i64::MIN {
                    i64::MIN
                } else {
                    (-(a as int)) as i64
                }),
        ),
        NativeWord::Subtract => spec_binary_int_effect(
            pre,
            post,
            ok,
            (|a: i64, b: i64| true),
            (|a: i64, b: i64| a.wrapping_sub(b)),
        ),
        NativeWord::Multiply => spec_binary_int_effect(
            pre,
            post,
            ok,
            (|a: i64, b: i64| true),
            (|a: i64, b: i64| a.wrapping_mul(b)),
        ),
        NativeWord::Divide => spec_binary_int_effect(
            pre,
            post,
            ok,
            (|a: i64, b: i64| b != 0 && !(a == i64::MIN && b == -1)),
            (|a: i64, b: i64| spec_div_trunc(a as int, b as int) as i64),
        ),
        NativeWord::Mod => spec_binary_int_effect(
            pre,
            post,
            ok,
            (|a: i64, b: i64| b != 0 && !(a == i64::MIN && b == -1)),
            (|a: i64, b: i64| spec_mod_trunc(a as int, b as int) as i64),
        ),
        NativeWord::Modulo => spec_binary_int_effect(
            pre,
            post,
            ok,
            (|a: i64, b: i64| b != 0 && !(a == i64::MIN && b == -1)),
            (|a: i64, b: i64| spec_mod_trunc(a as int, b as int) as i64),
        ),
        NativeWord::DivMod => (ok <==> pre.stack@.len() >= 2 && crate::value::spec_is_numeric(
            pre.stack@.last(),
        ) && crate::value::spec_is_numeric(pre.stack@[pre.stack@.len() - 2]) && ({
            let a = crate::value::spec_int_val(pre.stack@[pre.stack@.len() - 2]);
            let b = crate::value::spec_int_val(pre.stack@.last());
            b != 0 && !(a == i64::MIN && b == -1)
        })) && (ok ==> post.stack@ == pre.stack@.drop_last().drop_last().push(
            Value::Int(
                spec_mod_trunc(
                    crate::value::spec_int_val(pre.stack@[pre.stack@.len() - 2]) as int,
                    crate::value::spec_int_val(pre.stack@.last()) as int,
                ) as i64,
            ),
        ).push(
            Value::Int(
                spec_div_trunc(
                    crate::value::spec_int_val(pre.stack@[pre.stack@.len() - 2]) as int,
                    crate::value::spec_int_val(pre.stack@.last()) as int,
                ) as i64,
            ),
        )),
        NativeWord::MulDiv => (ok <==> spec_muldiv_shape(pre) && spec_muldiv_divisor(pre) != 0 && !(
        spec_muldiv_product(pre) == i64::MIN && spec_muldiv_divisor(pre) == -1)) && (ok
            ==> post.stack@ == pre.stack@.drop_last().drop_last().drop_last().push(
            Value::Int(
                spec_div_trunc(
                    spec_muldiv_product(pre) as int,
                    spec_muldiv_divisor(pre) as int,
                ) as i64,
            ),
        )),
        NativeWord::MulDivMod => (ok <==> spec_muldiv_shape(pre) && spec_muldiv_divisor(pre) != 0
            && !(spec_muldiv_product(pre) == i64::MIN && spec_muldiv_divisor(pre) == -1)) && (ok
            ==> post.stack@ == pre.stack@.drop_last().drop_last().drop_last().push(
            Value::Int(
                spec_mod_trunc(
                    spec_muldiv_product(pre) as int,
                    spec_muldiv_divisor(pre) as int,
                ) as i64,
            ),
        ).push(
            Value::Int(
                spec_div_trunc(
                    spec_muldiv_product(pre) as int,
                    spec_muldiv_divisor(pre) as int,
                ) as i64,
            ),
        )),
        NativeWord::ZeroEqual => (ok <==> pre.stack@.len() > 0 && crate::value::spec_is_numeric(
            pre.stack@.last(),
        )) && (ok ==> post.stack@ == pre.stack@.drop_last().push(
            Value::Int(
                if crate::value::spec_int_val(pre.stack@.last()) == 0 {
                    -1i64
                } else {
                    0i64
                },
            ),
        )),
        NativeWord::Equal => (pre.stack@.len() < 2 ==> !ok) && (pre.stack@.len() >= 2
            && spec_comparable(pre.stack@[pre.stack@.len() - 2], pre.stack@.last()) ==> ok) && (ok
            ==> pre.stack@.len() >= 2 && post.stack@ == pre.stack@.drop_last().drop_last().push(
            Value::Int(
                if crate::store::spec_value_eq(
                    pre.store@,
                    pre.stack@[pre.stack@.len() - 2],
                    pre.stack@.last(),
                    EQ_DEPTH as nat,
                ) {
                    -1i64
                } else {
                    0i64
                },
            ),
        )),
        NativeWord::NotEqual => (pre.stack@.len() < 2 ==> !ok) && (pre.stack@.len() >= 2
            && spec_comparable(pre.stack@[pre.stack@.len() - 2], pre.stack@.last()) ==> ok) && (ok
            ==> pre.stack@.len() >= 2 && post.stack@ == pre.stack@.drop_last().drop_last().push(
            Value::Bool(
                !crate::store::spec_value_eq(
                    pre.store@,
                    pre.stack@[pre.stack@.len() - 2],
                    pre.stack@.last(),
                    EQ_DEPTH as nat,
                ),
            ),
        )),
        NativeWord::GreaterEqual => spec_ordering_effect(
            pre,
            post,
            ok,
            (|lt: bool, eq: bool| Value::Bool(!lt)),
        ),
        NativeWord::LessEqual => spec_ordering_effect(
            pre,
            post,
            ok,
            (|lt: bool, eq: bool| Value::Bool(lt || eq)),
        ),
        NativeWord::Greater => spec_ordering_effect(
            pre,
            post,
            ok,
            (|lt: bool, eq: bool|
                Value::Int(
                    if !lt && !eq {
                        -1i64
                    } else {
                        0i64
                    },
                )),
        ),
        NativeWord::Less => spec_ordering_effect(
            pre,
            post,
            ok,
            (|lt: bool, eq: bool|
                Value::Int(
                    if lt {
                        -1i64
                    } else {
                        0i64
                    },
                )),
        ),
        NativeWord::LogicAnd => (ok <==> pre.stack@.len() >= 2) && (ok ==> post.stack@
            == pre.stack@.drop_last().drop_last().push(
            Value::Bool(
                crate::value::spec_bool_val(pre.stack@[pre.stack@.len() - 2])
                    && crate::value::spec_bool_val(pre.stack@.last()),
            ),
        )),
        NativeWord::LogicOr => (ok <==> pre.stack@.len() >= 2) && (ok ==> post.stack@
            == pre.stack@.drop_last().drop_last().push(
            Value::Bool(
                crate::value::spec_bool_val(pre.stack@[pre.stack@.len() - 2])
                    || crate::value::spec_bool_val(pre.stack@.last()),
            ),
        )),
        NativeWord::LogicNot => (ok <==> pre.stack@.len() >= 1) && (ok ==> post.stack@
            == pre.stack@.drop_last().push(
            Value::Bool(!crate::value::spec_bool_val(pre.stack@.last())),
        )),
        NativeWord::BitAnd => spec_binary_int_effect(
            pre,
            post,
            ok,
            (|a: i64, b: i64| true),
            (|a: i64, b: i64| a & b),
        ),
        NativeWord::BitOr => spec_binary_int_effect(
            pre,
            post,
            ok,
            (|a: i64, b: i64| true),
            (|a: i64, b: i64| a | b),
        ),
        NativeWord::BitXor => spec_binary_int_effect(
            pre,
            post,
            ok,
            (|a: i64, b: i64| true),
            (|a: i64, b: i64| a ^ b),
        ),
        NativeWord::BitNot => spec_unary_int_effect(pre, post, ok, (|a: i64| !a)),
        NativeWord::ShiftLeft => spec_binary_int_effect(
            pre,
            post,
            ok,
            (|a: i64, b: i64| 0 <= b < 64),
            (|a: i64, b: i64| (((a as u64) << (b as u64)) as i64)),
        ),
        NativeWord::ShiftRight => spec_binary_int_effect(
            pre,
            post,
            ok,
            (|a: i64, b: i64| 0 <= b < 64),
            (|a: i64, b: i64| (a >> (b as u64))),
        ),
        NativeWord::IsNone => spec_kind_effect(pre, post, ok, 0),
        NativeWord::IsNumber => spec_kind_effect(pre, post, ok, 1),
        NativeWord::IsBoolean => spec_kind_effect(pre, post, ok, 2),
        NativeWord::IsString => spec_kind_effect(pre, post, ok, 3),
        NativeWord::IsStructure => spec_kind_effect(pre, post, ok, 4),
        NativeWord::IsArray => spec_kind_effect(pre, post, ok, 5),
        NativeWord::IsBuffer => spec_kind_effect(pre, post, ok, 6),
        NativeWord::IsHashTable => spec_kind_effect(pre, post, ok, 7),
        NativeWord::IsToken => spec_kind_effect(pre, post, ok, 8),
        NativeWord::IsCode => spec_kind_effect(pre, post, ok, 9),
        NativeWord::Throw => !ok,
        NativeWord::ThreadShow => !ok,
        NativeWord::ThreadNew => !ok,
        NativeWord::ThreadPushTo => !ok,
        NativeWord::ThreadPopFrom => !ok,
        NativeWord::ThreadPush => !ok,
        NativeWord::ThreadPop => !ok,
        NativeWord::SorthVersion => ok ==> post.stack@.len() == pre.stack@.len() + 1
            && post.stack@.drop_last() == pre.stack@ && post.stack@.last() is String,
        NativeWord::UniqueStr => ok ==> post.stack@.len() == pre.stack@.len() + 1
            && post.stack@.drop_last() == pre.stack@ && post.stack@.last() is String,
        NativeWord::VariableRead => (ok ==> pre.stack@.len() > 0
            && crate::value::spec_is_numeric(pre.stack@.last()) && 0 <= crate::value::spec_int_val(
            pre.stack@.last(),
        ) < pre.variables.items@.len() && post.stack@ == pre.stack@.drop_last().push(
            pre.variables.items@[crate::value::spec_int_val(pre.stack@.last()) as int],
        ) && post.variables == pre.variables) && (!ok ==> pre.stack@.len() == 0
            || !crate::value::spec_is_numeric(pre.stack@.last()) || !(0
            <= crate::value::spec_int_val(pre.stack@.last()) < pre.variables.items@.len())
            || crate::value::spec_int_val(pre.stack@.last()) > usize::MAX),
        NativeWord::VariableWrite => (ok ==> pre.stack@.len() >= 2
            && crate::value::spec_is_numeric(pre.stack@.last()) && 0 <= crate::value::spec_int_val(
            pre.stack@.last(),
        ) < pre.variables.items@.len() && post.stack@ == pre.stack@.drop_last().drop_last()
            && post.variables.items@ == pre.variables.items@.update(
            crate::value::spec_int_val(pre.stack@.last()) as int,
            pre.stack@[pre.stack@.len() - 2],
        )) && (!ok ==> pre.stack@.len() < 2 || !crate::value::spec_is_numeric(pre.stack@.last())
            || !(0 <= crate::value::spec_int_val(pre.stack@.last()) < pre.variables.items@.len())
            || crate::value::spec_int_val(pre.stack@.last()) > usize::MAX),
        NativeWord::ArrayNew => crate::store::spec_same_but_arrays(post.store@, pre.store@) && (ok
            <==> pre.stack@.len() > 0 && crate::value::spec_is_numeric(pre.stack@.last()) && 0
            <= crate::value::spec_int_val(pre.stack@.last()) <= usize::MAX) && (ok ==> post.stack@
            == pre.stack@.drop_last().push(Value::Vec(pre.store@.arrays.len() as usize))
            && post.store@.arrays == pre.store@.arrays.push(
            Seq::new(crate::value::spec_int_val(pre.stack@.last()) as nat, |j: int| Value::Nothing),
        )),
        NativeWord::ArraySize => post.store == pre.store && (ok <==> pre.stack@.len() > 0 && (
        pre.stack@.last() matches Value::Vec(i) && i < pre.store@.arrays.len()
            && pre.store@.arrays[i as int].len() <= 0x7fffffffffffffff)) && (ok ==> (
        pre.stack@.last() matches Value::Vec(i) && post.stack@ == pre.stack@.drop_last().push(
            Value::Int(pre.store@.arrays[i as int].len() as i64),
        ))),
        NativeWord::ArrayReadIndex => post.store == pre.store && (ok <==> pre.stack@.len() >= 2 && (
        pre.stack@.last() matches Value::Vec(i) && i < pre.store@.arrays.len()
            && crate::value::spec_is_numeric(pre.stack@[pre.stack@.len() - 2]) && 0
            <= crate::value::spec_int_val(pre.stack@[pre.stack@.len() - 2]) <= usize::MAX
            && crate::value::spec_int_val(pre.stack@[pre.stack@.len() - 2])
            < pre.store@.arrays[i as int].len())) && (ok ==> (
        pre.stack@.last() matches Value::Vec(i) && post.stack@
            == pre.stack@.drop_last().drop_last().push(
            pre.store@.arrays[i as int][crate::value::spec_int_val(
                pre.stack@[pre.stack@.len() - 2],
            ) as int],
        ))),
        NativeWord::ArrayWriteIndex => crate::store::spec_same_but_arrays(post.store@, pre.store@)
            && (ok <==> pre.stack@.len() >= 3 && (pre.stack@.last() matches Value::Vec(i) && i
            < pre.store@.arrays.len() && crate::value::spec_is_numeric(
            pre.stack@[pre.stack@.len() - 2],
        ) && 0 <= crate::value::spec_int_val(pre.stack@[pre.stack@.len() - 2]) <= usize::MAX
            && crate::value::spec_int_val(pre.stack@[pre.stack@.len() - 2])
            < pre.store@.arrays[i as int].len())) && (ok ==> (
        pre.stack@.last() matches Value::Vec(i) && post.stack@
            == pre.stack@.drop_last().drop_last().drop_last() && post.store@.arrays
            == pre.store@.arrays.update(
            i as int,
            pre.store@.arrays[i as int].update(
                crate::value::spec_int_val(pre.stack@[pre.stack@.len() - 2]) as int,
                pre.stack@[pre.stack@.len() - 3],
            ),
        ))),
        NativeWord::ArrayPushFront => crate::store::spec_same_but_arrays(post.store@, pre.store@)
            && (ok <==> pre.stack@.len() >= 2 && (pre.stack@.last() matches Value::Vec(i) && i
            < pre.store@.arrays.len())) && (ok ==> (pre.stack@.last() matches Value::Vec(i)
            && post.stack@ == pre.stack@.drop_last().drop_last() && post.store@.arrays
            == pre.store@.arrays.update(
            i as int,
            pre.store@.arrays[i as int].insert(0, pre.stack@[pre.stack@.len() - 2]),
        ))),
        NativeWord::ArrayPushBack => crate::store::spec_same_but_arrays(post.store@, pre.store@)
            && (ok <==> pre.stack@.len() >= 2 && (pre.stack@.last() matches Value::Vec(i) && i
            < pre.store@.arrays.len())) && (ok ==> (pre.stack@.last() matches Value::Vec(i)
            && post.stack@ == pre.stack@.drop_last().drop_last() && post.store@.arrays
            == pre.store@.arrays.update(
            i as int,
            pre.store@.arrays[i as int].push(pre.stack@[pre.stack@.len() - 2]),
        ))),
        NativeWord::ArrayPopFront => crate::store::spec_same_but_arrays(post.store@, pre.store@)
            && (ok <==> pre.stack@.len() >= 1 && (pre.stack@.last() matches Value::Vec(i) && i
            < pre.store@.arrays.len() && pre.store@.arrays[i as int].len() > 0)) && (ok ==> (
        pre.stack@.last() matches Value::Vec(i) && post.stack@ == pre.stack@.drop_last().push(
            pre.store@.arrays[i as int][0],
        ) && post.store@.arrays == pre.store@.arrays.update(
            i as int,
            pre.store@.arrays[i as int].remove(0),
        ))),
        NativeWord::ArrayPopBack => crate::store::spec_same_but_arrays(post.store@, pre.store@) && (
        ok <==> pre.stack@.len() >= 1 && (pre.stack@.last() matches Value::Vec(i) && i
            < pre.store@.arrays.len() && pre.store@.arrays[i as int].len() > 0)) && (ok ==> (
        pre.stack@.last() matches Value::Vec(i) && post.stack@ == pre.stack@.drop_last().push(
            pre.store@.arrays[i as int].last(),
        ) && post.store@.arrays == pre.store@.arrays.update(
            i as int,
            pre.store@.arrays[i as int].drop_last(),
        ))),
        NativeWord::BufferNew => crate::store::spec_same_but_buffers(post.store@, pre.store@) && (ok
            <==> pre.stack@.len() > 0 && crate::value::spec_is_numeric(pre.stack@.last()) && 0
            <= crate::value::spec_int_val(pre.stack@.last()) <= usize::MAX) && (ok ==> post.stack@
            == pre.stack@.drop_last().push(Value::ByteBuffer(pre.store@.buffers.len() as usize))
            && post.store@.buffers.len() == pre.store@.buffers.len() + 1
            && post.store@.buffers.drop_last() == pre.store@.buffers
            && post.store@.buffers.last().buffer@ == Seq::new(
            crate::value::spec_int_val(pre.stack@.last()) as nat,
            |j: int| 0u8,
        ) && post.store@.buffers.last().current_position == 0),
        NativeWord::HashNew => crate::store::spec_same_but_hashes(post.store@, pre.store@) && ok
            && post.stack@ == pre.stack@.push(Value::HashMap(pre.store@.hashes.len() as usize))
            && post.store@.hashes == pre.store@.hashes.push(Seq::<(Value, Value)>::empty()),
        NativeWord::HashSize => post.store == pre.store && (ok <==> pre.stack@.len() > 0 && (
        pre.stack@.last() matches Value::HashMap(i) && i < pre.store@.hashes.len()
            && pre.store@.hashes[i as int].len() <= 0x7fffffffffffffff)) && (ok ==> (
        pre.stack@.last() matches Value::HashMap(i) && post.stack@ == pre.stack@.drop_last().push(
            Value::Int(pre.store@.hashes[i as int].len() as i64),
        ))),
        NativeWord::HashFind => post.store == pre.store && (pre.stack@.len() < 2 || !(
        pre.stack@.last() matches Value::HashMap(i) && i < pre.store@.hashes.len()) ==> !ok) && (ok
            ==> (pre.stack@.last() matches Value::HashMap(i) && crate::store::spec_table_get(
            pre.store@,
            pre.store@.hashes[i as int],
            pre.stack@[pre.stack@.len() - 2],
            EQ_DEPTH as nat,
        ) matches Some(v) && post.stack@ == pre.stack@.drop_last().drop_last().push(v))),
        NativeWord::HashExists => post.store == pre.store && (pre.stack@.len() < 2 || !(
        pre.stack@.last() matches Value::HashMap(i) && i < pre.store@.hashes.len()) ==> !ok) && (ok
            ==> (pre.stack@.last() matches Value::HashMap(i) && post.stack@
            == pre.stack@.drop_last().drop_last().push(
            Value::Bool(
                crate::store::spec_table_get(
                    pre.store@,
                    pre.store@.hashes[i as int],
                    pre.stack@[pre.stack@.len() - 2],
                    EQ_DEPTH as nat,
                ) is Some,
            ),
        ))),
        NativeWord::ArrayResize => crate::store::spec_same_but_arrays(post.store@, pre.store@)
            && (ok <==> pre.stack@.len() >= 2 && (pre.stack@.last() matches Value::Vec(i) && i
            < pre.store@.arrays.len() && crate::value::spec_is_numeric(
            pre.stack@[pre.stack@.len() - 2],
        ) && 0 <= crate::value::spec_int_val(pre.stack@[pre.stack@.len() - 2]) <= usize::MAX)) && (
        ok ==> (pre.stack@.last() matches Value::Vec(i) && post.stack@
            == pre.stack@.drop_last().drop_last() && post.store@.arrays
            == pre.store@.arrays.update(
            i as int,
            Seq::new(
                crate::value::spec_int_val(pre.stack@[pre.stack@.len() - 2]) as nat,
                |j: int|
                    if j < pre.store@.arrays[i as int].len() {
                        pre.store@.arrays[i as int][j]
                    } else {
                        Value::Nothing
                    },
            ),
        ))),
        NativeWord::ArrayInsert => crate::store::spec_same_but_arrays(post.store@, pre.store@) && (
        ok <==> pre.stack@.len() >= 3 && (pre.stack@.last() matches Value::Vec(i) && i
            < pre.store@.arrays.len() && crate::value::spec_is_numeric(
            pre.stack@[pre.stack@.len() - 2],
        ) && 0 <= crate::value::spec_int_val(pre.stack@[pre.stack@.len() - 2]) <= usize::MAX
            && crate::value::spec_int_val(pre.stack@[pre.stack@.len() - 2])
            <= pre.store@.arrays[i as int].len())) && (ok ==> (
        pre.stack@.last() matches Value::Vec(i) && post.stack@
            == pre.stack@.drop_last().drop_last().drop_last() && post.store@.arrays
            == pre.store@.arrays.update(
            i as int,
            pre.store@.arrays[i as int].insert(
                crate::value::spec_int_val(pre.stack@[pre.stack@.len() - 2]) as int,
                pre.stack@[pre.stack@.len() - 3],
            ),
        ))),
        NativeWord::ArrayDelete => crate::store::spec_same_but_arrays(post.store@, pre.store@) && (
        ok <==> pre.stack@.len() >= 2 && (pre.stack@.last() matches Value::Vec(i) && i
            < pre.store@.arrays.len() && crate::value::spec_is_numeric(
            pre.stack@[pre.stack@.len() - 2],
        ) && 0 <= crate::value::spec_int_val(pre.stack@[pre.stack@.len() - 2]) <= usize::MAX
            && crate::value::spec_int_val(pre.stack@[pre.stack@.len() - 2])
            < pre.store@.arrays[i as int].len())) && (ok ==> (
        pre.stack@.last() matches Value::Vec(i) && post.stack@
            == pre.stack@.drop_last().drop_last() && post.store@.arrays
            == pre.store@.arrays.update(
            i as int,
            pre.store@.arrays[i as int].remove(
                crate::value::spec_int_val(pre.stack@[pre.stack@.len() - 2]) as int,
            ),
        ))),
        NativeWord::HashInsert => crate::store::spec_same_but_hashes(post.store@, pre.store@) && (
        pre.stack@.len() < 3 || !(pre.stack@.last() matches Value::HashMap(i) && i
            < pre.store@.hashes.len()) ==> !ok) && (ok ==> (
        pre.stack@.last() matches Value::HashMap(i) && post.stack@
            == pre.stack@.drop_last().drop_last().drop_last() && post.store@.hashes
            == pre.store@.hashes.update(
            i as int,
            crate::store::spec_table_set(
                pre.store@,
                pre.store@.hashes[i as int],
                pre.stack@[pre.stack@.len() - 2],
                pre.stack@[pre.stack@.len() - 3],
                EQ_DEPTH as nat,
            ),
        ))),
        NativeWord::BufferSize => post.store == pre.store && (ok <==> pre.stack@.len() > 0 && (
        pre.stack@.last() matches Value::ByteBuffer(i) && i < pre.store@.buffers.len()
            && pre.store@.buffers[i as int].buffer@.len() <= 0x7fffffffffffffff)) && (ok ==> (
        pre.stack@.last() matches Value::ByteBuffer(i) && post.stack@
            == pre.stack@.drop_last().push(
            Value::Int(pre.store@.buffers[i as int].buffer@.len() as i64),
        ))),
        NativeWord::BufferGetPosition => post.store == pre.store && (ok <==> pre.stack@.len() > 0
            && (pre.stack@.last() matches Value::ByteBuffer(i) && i < pre.store@.buffers.len()
            && pre.store@.buffers[i as int].current_position <= 0x7fffffffffffffff)) && (ok ==> (
        pre.stack@.last() matches Value::ByteBuffer(i) && post.stack@
            == pre.stack@.drop_last().push(
            Value::Int(pre.store@.buffers[i as int].current_position as i64),
        ))),
        NativeWord::StringLength => post.store == pre.store && (ok <==> pre.stack@.len() > 0
            && crate::value::spec_is_stringable(pre.stack@.last())
            && crate::value::spec_string_val(pre.stack@.last()).len() <= 0x7fffffffffffffff) && (ok
            ==> post.stack@ == pre.stack@.drop_last().push(
            Value::Int(crate::value::spec_string_val(pre.stack@.last()).len() as i64),
        )),
        _ => true,
    }
}

/// The effect the kind test words share.
pub open spec fn spec_kind_effect(
    pre: SorthInterpreter,
    post: SorthInterpreter,
    ok: bool,
    which: u8,
) -> bool {
    &&& ok <==> pre.stack@.len() > 0
    &&& ok ==> post.stack@ == pre.stack@.drop_last().push(
        Value::Bool(spec_kind_answer(which, pre.stack@.last())),
    )
}

/// Run one native word against the interpreter.
#[verifier::rlimit(100)]
pub fn run_native(interp: &mut SorthInterpreter, word: NativeWord, depth: u64) -> (r: ScriptResult<
    (),
>)
    requires
        old(interp).wf(),
    ensures
        SorthInterpreter::frame_ok(*old(interp), *final(interp)),
        depth > 0 ==> spec_native_effect(word, *old(interp), *final(interp), r is Ok),
    decreases depth, 0int, 2int,
{
    if depth == 0 {
        return Err(interp.script_error_here("Call depth exceeded."));
    }
    match word {
        NativeWord::Reset => word_reset(interp),
        NativeWord::Throw => word_throw(interp),
        NativeWord::SorthVersion => {
            interp.push(Value::String("1.0.0".to_owned()));
            proof {
                assert(interp.stack@.drop_last() =~= old(interp).stack@);
            }
            Ok(())
        },
        NativeWord::ThreadShow => Err(interp.script_error_here("Thread words are stubs.")),
        NativeWord::ThreadNew => Err(interp.script_error_here("Thread words are stubs.")),
        NativeWord::ThreadPushTo => Err(interp.script_error_here("Thread words are stubs.")),
        NativeWord::ThreadPopFrom => Err(interp.script_error_here("Thread words are stubs.")),
        NativeWord::ThreadPush => Err(interp.script_error_here("Thread words are stubs.")),
        NativeWord::ThreadPop => Err(interp.script_error_here("Thread words are stubs.")),
        NativeWord::IfIm => word_if_im(interp, depth),
        NativeWord::Dup => word_dup(interp),
        NativeWord::Drop => word_drop(interp),
        NativeWord::Swap => word_swap(interp),
        NativeWord::Over => word_over(interp),
        NativeWord::Rot => word_rot(interp),
        NativeWord::Depth => word_depth(interp),
        NativeWord::ClearStack => word_clear_stack(interp),
        NativeWord::Pick => word_pick(interp),
        NativeWord::Roll => word_roll(interp),
        NativeWord::StackDepth => word_depth(interp),
        NativeWord::StackMaxDepth => word_stack_max_depth(interp),
        NativeWord::PushTo => word_push_to(interp),
        NativeWord::PushNone => {
            interp.push(Value::Nothing);
            Ok(())
        },
        NativeWord::PushTrue => {
            interp.push(Value::Bool(true));
            Ok(())
        },
        NativeWord::PushFalse => {
            interp.push(Value::Bool(false));
            Ok(())
        },
        NativeWord::PushTrueFlag => {
            interp.push(Value::Int(-1));
            Ok(())
        },
        NativeWord::StringNpos => {
            interp.push(Value::Int(-1));
            Ok(())
        },
        NativeWord::MulDiv => word_mul_div(interp),
        NativeWord::MulDivMod => word_mul_div_mod(interp),
        NativeWord::AddOne => word_add_one(interp),
        NativeWord::SubOne => word_sub_one(interp),
        NativeWord::TimesTwo => word_times_two(interp),
        NativeWord::DivideByTwo => word_divide_by_two(interp),
        NativeWord::Mod => word_int_mod(interp),
        NativeWord::DivMod => word_div_mod(interp),
        NativeWord::Abs => word_abs(interp),
        NativeWord::Negate => word_negate(interp),
        NativeWord::Add => word_add(interp),
        NativeWord::Subtract => word_subtract(interp),
        NativeWord::Multiply => word_multiply(interp),
        NativeWord::Divide => word_divide(interp),
        NativeWord::Modulo => word_int_mod(interp),
        NativeWord::ZeroEqual => word_zero_equal(interp),
        NativeWord::NotEqual => word_not_equal(interp),
        NativeWord::LogicAnd => word_logic_and(interp),
        NativeWord::LogicOr => word_logic_or(interp),
        NativeWord::LogicNot => word_logic_not(interp),
        NativeWord::BitAnd => word_bit_and(interp),
        NativeWord::BitOr => word_bit_or(interp),
        NativeWord::BitXor => word_bit_xor(interp),
        NativeWord::BitNot => word_bit_not(interp),
        NativeWord::ShiftLeft => word_shift_left(interp),
        NativeWord::ShiftRight => word_shift_right(interp),
        NativeWord::Equal => word_equal(interp),
        NativeWord::GreaterEqual => word_greater_equal(interp),
        NativeWord::LessEqual => word_less_equal(interp),
        NativeWord::Greater => word_greater(interp),
        NativeWord::Less => word_less(interp),
        NativeWord::OpDefVariable => word_op_with_value(interp, 0),
        NativeWord::OpDefConstant => word_op_with_value(interp, 1),
        NativeWord::OpReadVariable => interp.insert_user_instruction(None, Op::ReadVariable),
        NativeWord::OpWriteVariable => interp.insert_user_instruction(None, Op::WriteVariable),
        NativeWord::OpExecute => word_op_with_value(interp, 2),
        NativeWord::OpPushConstantValue => word_op_with_value(interp, 3),
        NativeWord::OpMarkLoopExit => word_op_with_value(interp, 4),
        NativeWord::OpUnmarkLoopExit => interp.insert_user_instruction(None, Op::UnmarkLoopExit),
        NativeWord::OpMarkCatch => word_op_with_value(interp, 5),
        NativeWord::OpUnmarkCatch => interp.insert_user_instruction(None, Op::UnmarkCatch),
        NativeWord::OpJump => word_op_with_value(interp, 6),
        NativeWord::OpJumpIfZero => word_op_with_value(interp, 7),
        NativeWord::OpJumpIfNotZero => word_op_with_value(interp, 8),
        NativeWord::OpJumpLoopStart => interp.insert_user_instruction(None, Op::JumpLoopStart),
        NativeWord::OpJumpLoopExit => interp.insert_user_instruction(None, Op::JumpLoopExit),
        NativeWord::OpJumpTarget => word_op_with_value(interp, 9),
        NativeWord::CodeNewBlock => interp.construction_new(),
        NativeWord::CodeMergeStackBlock => word_code_merge_stack_block(interp),
        NativeWord::CodePopStackBlock => word_code_pop_stack_block(interp),
        NativeWord::CodePushStackBlock => word_code_push_stack_block(interp),
        NativeWord::CodeStackBlockSize => word_code_stack_block_size(interp),
        NativeWord::CodeResolveJumps => interp.construction_resolve_jumps(),
        NativeWord::CodeCompileUntilWords => word_code_compile_until_words(interp, depth),
        NativeWord::CodeInsertAtFront => word_code_insert_at_front(interp),
        NativeWord::CodeExecuteSource => word_code_execute_source(interp, depth),
        NativeWord::Word => word_word(interp),
        NativeWord::GetWordTable => word_get_word_table(interp),
        NativeWord::WordIndexIm => word_word_index(interp),
        NativeWord::Execute => word_execute(interp, depth),
        NativeWord::IsDefined => word_is_defined(interp),
        NativeWord::IsDefinedIm => word_is_defined_im(interp),
        NativeWord::IsUndefinedIm => word_is_undefined_im(interp),
        NativeWord::StartWord => word_start_word(interp),
        NativeWord::EndWord => word_end_word(interp),
        NativeWord::Immediate => word_set_runtime(interp),
        NativeWord::Hidden => word_set_hidden(interp),
        NativeWord::Contextless => word_set_contextless(interp),
        NativeWord::Description => word_set_description(interp),
        NativeWord::Signature => word_set_signature(interp),
        NativeWord::IsNone => word_value_kind(interp, 0),
        NativeWord::IsNumber => word_value_kind(interp, 1),
        NativeWord::IsBoolean => word_value_kind(interp, 2),
        NativeWord::IsString => word_value_kind(interp, 3),
        NativeWord::IsStructure => word_value_kind(interp, 4),
        NativeWord::IsArray => word_value_kind(interp, 5),
        NativeWord::IsBuffer => word_value_kind(interp, 6),
        NativeWord::IsHashTable => word_value_kind(interp, 7),
        NativeWord::IsToken => word_value_kind(interp, 8),
        NativeWord::IsCode => word_value_kind(interp, 9),
        NativeWord::StringLength => word_string_length(interp),
        NativeWord::StringInsert => word_string_insert(interp),
        NativeWord::StringRemove => word_string_remove(interp),
        NativeWord::StringFind => word_string_find(interp),
        NativeWord::StringIndexRead => word_string_index_read(interp),
        NativeWord::StringToNumber => word_string_to_number(interp),
        NativeWord::ToString => word_to_string(interp),
        NativeWord::Hex => word_hex(interp),
        NativeWord::UniqueStr => {
            let unique = interp.unique_string();
            interp.push(Value::String(unique));
            proof {
                assert(interp.stack@.drop_last() =~= old(interp).stack@);
            }
            Ok(())
        },
        NativeWord::DataDefinition => word_data_definition(interp),
        NativeWord::ReadField => word_read_field(interp),
        NativeWord::WriteField => word_write_field(interp),
        NativeWord::StructureIterate => word_structure_iterate(interp, depth),
        NativeWord::StructureFieldExists => word_structure_field_exists(interp),
        NativeWord::StructureCompare => word_compare_values(interp),
        NativeWord::ArrayNew => word_array_new(interp),
        NativeWord::ArraySize => word_array_size(interp),
        NativeWord::ArrayWriteIndex => word_array_write_index(interp),
        NativeWord::ArrayReadIndex => word_array_read_index(interp),
        NativeWord::ArrayResize => word_array_resize(interp),
        NativeWord::ArrayInsert => word_array_insert(interp),
        NativeWord::ArrayDelete => word_array_delete(interp),
        NativeWord::ArrayPlus => word_array_plus(interp),
        NativeWord::ArrayCompare => word_compare_values(interp),
        NativeWord::ArrayPushFront => word_array_push_front(interp),
        NativeWord::ArrayPushBack => word_array_push_back(interp),
        NativeWord::ArrayPopFront => word_array_pop_front(interp),
        NativeWord::ArrayPopBack => word_array_pop_back(interp),
        NativeWord::BufferNew => word_buffer_new(interp),
        NativeWord::BufferSize => word_buffer_size(interp),
        NativeWord::BufferResize => word_buffer_resize(interp),
        NativeWord::BufferWriteInt => word_buffer_write_int(interp),
        NativeWord::BufferReadInt => word_buffer_read_int(interp),
        NativeWord::BufferWriteString => word_buffer_write_string(interp),
        NativeWord::BufferReadString => word_buffer_read_string(interp),
        NativeWord::BufferSetPosition => word_buffer_set_position(interp),
        NativeWord::BufferGetPosition => word_buffer_get_position(interp),
        NativeWord::HashNew => word_hash_new(interp),
        NativeWord::HashInsert => word_hash_insert(interp),
        NativeWord::HashFind => word_hash_find(interp),
        NativeWord::HashExists => word_hash_exists(interp),
        NativeWord::HashPlus => word_hash_plus(interp),
        NativeWord::HashCompare => word_compare_values(interp),
        NativeWord::HashSize => word_hash_size(interp),
        NativeWord::HashIterate => word_hash_iterate(interp, depth),
        NativeWord::VariableIm => word_variable_im(interp),
        NativeWord::ConstantIm => word_constant_im(interp),
        NativeWord::VariableRead => interp.read_variable(),
        NativeWord::VariableWrite => interp.write_variable(),
        NativeWord::IfWord => word_if(interp),
        NativeWord::ElseWord => word_else(interp),
        NativeWord::ThenWord => word_then(interp),
        NativeWord::BeginWord => word_begin(interp),
        NativeWord::UntilWord => word_until(interp),
        NativeWord::WhileWord => word_while(interp),
        NativeWord::RepeatWord => word_repeat(interp),
        NativeWord::DoWord => word_do(interp),
        NativeWord::LoopWord => word_loop(interp),
        NativeWord::BreakWord => interp.insert_user_instruction(None, Op::JumpLoopExit),
        NativeWord::ContinueWord => interp.insert_user_instruction(None, Op::JumpLoopStart),
        NativeWord::LoopIndexI => word_loop_index(interp, 0),
        NativeWord::LoopIndexJ => word_loop_index(interp, 1),
        NativeWord::TryWord => word_try(interp),
        NativeWord::CatchWord => word_catch(interp),
        NativeWord::EndTryWord => word_end_try(interp),
        NativeWord::DoSetup => word_do_setup(interp),
        NativeWord::DoNext => word_do_next(interp),
        NativeWord::DoEnd => word_do_end(interp),
    }
}

/// Reset the interpreter: release the current context, clear the data stack,
/// and open a fresh context.
fn word_reset(interp: &mut SorthInterpreter) -> (r: ScriptResult<()>)
    requires
        old(interp).wf(),
    ensures
        SorthInterpreter::frame_ok(*old(interp), *final(interp)),
{
    if interp.context_count() < 2 {
        return Err(interp.script_error_here("No context open to reset."));
    }
    interp.release_context();
    interp.stack.clear();
    interp.mark_context();
    Ok(())
}

/// Throw a script error with the popped message.
fn word_throw(interp: &mut SorthInterpreter) -> (r: ScriptResult<()>)
    requires
        old(interp).wf(),
    ensures
        SorthInterpreter::frame_ok(*old(interp), *final(interp)),
        r is Err,
        old(interp).stack@.len() > 0 && crate::value::spec_is_stringable(old(interp).stack@.last()) ==> (
        r matches Err(e) && e.error@ == crate::value::spec_string_val(old(interp).stack@.last()) && final(interp).stack@ == old(interp).stack@.drop_last()),
{
    let message = interp.pop_as_string()?;
    let location = match &interp.current_location {
        Some(loc) => Some(loc.clone()),
        None => None,
    };
    Err(crate::error::ScriptError::new(location, message, Some(crate::error::clone_stack(
        &interp.call_stack,
    ))))
}

/// Duplicate the top value on the data stack.
fn word_dup(interp: &mut SorthInterpreter) -> (r: ScriptResult<()>)
    requires
        old(interp).wf(),
    ensures
        SorthInterpreter::frame_ok(*old(interp), *final(interp)),
        r is Ok <==> old(interp).stack@.len() > 0,
        r is Ok ==> final(interp).stack@ == old(interp).stack@.push(old(interp).stack@.last()),
{
    let value = interp.pop()?;
    interp.push(value.clone());
    interp.push(value);
    Ok(())
}

/// Discard the top value on the data stack.
fn word_drop(interp: &mut SorthInterpreter) -> (r: ScriptResult<()>)
    requires
        old(interp).wf(),
    ensures
        SorthInterpreter::frame_ok(*old(interp), *final(interp)),
        r is Ok <==> old(interp).stack@.len() > 0,
        r is Ok ==> final(interp).stack@ == old(interp).stack@.drop_last(),
{
    let _ = interp.pop()?;
    Ok(())
}

/// Swap the top two values on the data stack.
fn word_swap(interp: &mut SorthInterpreter) -> (r: ScriptResult<()>)
    requires
        old(interp).wf(),
    ensures
        SorthInterpreter::frame_ok(*old(interp), *final(interp)),
        r is Ok <==> old(interp).stack@.len() >= 2,
        r is Ok ==> final(interp).stack@ == old(interp).stack@.drop_last().drop_last().push(
            old(interp).stack@.last(),
        ).push(old(interp).stack@[old(interp).stack@.len() - 2]),
{
    let a = interp.pop()?;
    let b = interp.pop()?;
    interp.push(a);
    interp.push(b);
    Ok(())
}

/// Copy the second value over the top value.
fn word_over(interp: &mut SorthInterpreter) -> (r: ScriptResult<()>)
    requires
        old(interp).wf(),
    ensures
        SorthInterpreter::frame_ok(*old(interp), *final(interp)),
        r is Ok <==> old(interp).stack@.len() >= 2,
        r is Ok ==> final(interp).stack@ == old(interp).stack@.push(
            old(interp).stack@[old(interp).stack@.len() - 2],
        ),
{
    if interp.stack.len() < 2 {
        return Err(interp.script_error_here("Stack underflow."));
    }
    let index = interp.stack.len() - 2;
    let copied = interp.stack[index].clone();
    interp.push(copied);
    Ok(())
}

/// Rotate the third value to the top.
fn word_rot(interp: &mut SorthInterpreter) -> (r: ScriptResult<()>)
    requires
        old(interp).wf(),
    ensures
        SorthInterpreter::frame_ok(*old(interp), *final(interp)),
        r is Ok <==> old(interp).stack@.len() >= 3,
        r is Ok ==> final(interp).stack@ == old(interp).stack@.remove(
            old(interp).stack@.len() - 3,
        ).push(old(interp).stack@[old(interp).stack@.len() - 3]),
{
    if interp.stack.len() < 3 {
        return Err(interp.script_error_here("Stack underflow."));
    }
    let index = interp.stack.len() - 3;
    let moved = interp.stack.remove(index);
    interp.push(moved);
    Ok(())
}

/// Push the current stack depth.
fn word_depth(interp: &mut SorthInterpreter) -> (r: ScriptResult<()>)
    requires
        old(interp).wf(),
    ensures
        SorthInterpreter::frame_ok(*old(interp), *final(interp)),
        r is Ok ==> final(interp).stack@ == old(interp).stack@.push(
            Value::Int(old(interp).stack@.len() as i64),
        ),
{
    let len = interp.stack.len();
    if (len as u64) > 0x7fffffffffffffffu64 {
        return Err(interp.script_error_here("Stack too deep."));
    }
    interp.push(Value::Int(len as i64));
    Ok(())
}

/// Clear the data stack.
fn word_clear_stack(interp: &mut SorthInterpreter) -> (r: ScriptResult<()>)
    requires
        old(interp).wf(),
    ensures
        SorthInterpreter::frame_ok(*old(interp), *final(interp)),
        r is Ok,
        final(interp).stack@.len() == 0,
{
    interp.stack.clear();
    Ok(())
}

/// Copy the value at the popped depth to the top, leaving it in place.
fn word_pick(interp: &mut SorthInterpreter) -> (r: ScriptResult<()>)
    requires
        old(interp).wf(),
    ensures
        SorthInterpreter::frame_ok(*old(interp), *final(interp)),
        r is Ok <==> old(interp).stack@.len() > 0 && crate::value::spec_is_numeric(
            old(interp).stack@.last(),
        ) && 0 <= crate::value::spec_int_val(old(interp).stack@.last()) <= usize::MAX
            && crate::value::spec_int_val(old(interp).stack@.last()) < old(interp).stack@.len()
            - 1,
        r is Ok ==> final(interp).stack@ == old(interp).stack@.drop_last().push(
            old(interp).stack@[old(interp).stack@.len() - 2 - crate::value::spec_int_val(
                old(interp).stack@.last(),
            )],
        ),
{
    let n = interp.pop_as_usize()?;
    if n >= interp.stack.len() {
        return Err(interp.script_error_here("Index out of range of the stack."));
    }
    let index = interp.stack.len() - 1 - n;
    let copied = interp.stack[index].clone();
    interp.push(copied);
    Ok(())
}

/// Move the value at the popped depth to the top.
fn word_roll(interp: &mut SorthInterpreter) -> (r: ScriptResult<()>)
    requires
        old(interp).wf(),
    ensures
        SorthInterpreter::frame_ok(*old(interp), *final(interp)),
        r is Ok <==> old(interp).stack@.len() > 0 && crate::value::spec_is_numeric(
            old(interp).stack@.last(),
        ) && 0 <= crate::value::spec_int_val(old(interp).stack@.last()) <= usize::MAX
            && crate::value::spec_int_val(old(interp).stack@.last()) < old(interp).stack@.len()
            - 1,
        r is Ok ==> final(interp).stack@ == old(interp).stack@.drop_last().remove(
            old(interp).stack@.len() - 2 - crate::value::spec_int_val(old(interp).stack@.last()),
        ).push(
            old(interp).stack@[old(interp).stack@.len() - 2 - crate::value::spec_int_val(
                old(interp).stack@.last(),
            )],
        ),
{
    let n = interp.pop_as_usize()?;
    if n >= interp.stack.len() {
        return Err(interp.script_error_here("Index out of range of the stack."));
    }
    let index = interp.stack.len() - 1 - n;
    let moved = interp.stack.remove(index);
    interp.push(moved);
    Ok(())
}

/// Push the deepest the stack has been.
fn word_stack_max_depth(interp: &mut SorthInterpreter) -> (r: ScriptResult<()>)
    requires
        old(interp).wf(),
    ensures
        SorthInterpreter::frame_ok(*old(interp), *final(interp)),
{
    let depth = interp.stack_max_depth();
    if (depth as u64) > 0x7fffffffffffffffu64 {
        return Err(interp.script_error_here("Stack too deep."));
    }
    interp.push(Value::Int(depth as i64));
    Ok(())
}

/// Pop the top value and push it back in at the popped depth.
fn word_push_to(interp: &mut SorthInterpreter) -> (r: ScriptResult<()>)
    requires
        old(interp).wf(),
    ensures
        SorthInterpreter::frame_ok(*old(interp), *final(interp)),
        r is Ok <==> old(interp).stack@.len() >= 2 && crate::value::spec_is_numeric(
            old(interp).stack@.last(),
        ) && 0 <= crate::value::spec_int_val(old(interp).stack@.last()) <= usize::MAX
            && crate::value::spec_int_val(old(interp).stack@.last()) < old(interp).stack@.len()
            - 1,
        r is Ok ==> final(interp).stack@ == old(interp).stack@.drop_last().drop_last().insert(
            old(interp).stack@.len() - 2 - crate::value::spec_int_val(old(interp).stack@.last()),
            old(interp).stack@[old(interp).stack@.len() - 2],
        ),
{
    let n = interp.pop_as_usize()?;
    interp.push_to(n)?;
    Ok(())
}

/// Pop two numeric values, second then top.
fn pop_two_ints(interp: &mut SorthInterpreter) -> (r: ScriptResult<(i64, i64)>)
    requires
        old(interp).wf(),
    ensures
        SorthInterpreter::frame_ok(*old(interp), *final(interp)),
        r is Ok <==> old(interp).stack@.len() >= 2 && crate::value::spec_is_numeric(
            old(interp).stack@.last(),
        ) && crate::value::spec_is_numeric(old(interp).stack@[old(interp).stack@.len() - 2]),
        r matches Ok(pair) ==> pair.1 == crate::value::spec_int_val(old(interp).stack@.last())
            && pair.0 == crate::value::spec_int_val(old(interp).stack@[old(interp).stack@.len() - 2])
            && final(interp).stack@ == old(interp).stack@.drop_last().drop_last(),
{
    let b = interp.pop_as_int()?;
    let a = interp.pop_as_int()?;
    Ok((a, b))
}

/// Multiply the two numbers below the top, then divide by the top, with the
/// intermediate product wrapping on overflow.
fn word_mul_div(interp: &mut SorthInterpreter) -> (r: ScriptResult<()>)
    requires
        old(interp).wf(),
    ensures
        SorthInterpreter::frame_ok(*old(interp), *final(interp)),
        r is Ok <==> old(interp).stack@.len() >= 3 && crate::value::spec_is_numeric(
            old(interp).stack@.last(),
        ) && crate::value::spec_is_numeric(old(interp).stack@[old(interp).stack@.len() - 2])
            && crate::value::spec_is_numeric(old(interp).stack@[old(interp).stack@.len() - 3]) && ({
            let divisor = crate::value::spec_int_val(old(interp).stack@.last());
            let product = crate::value::spec_int_val(
                old(interp).stack@[old(interp).stack@.len() - 3],
            ).wrapping_mul(
                crate::value::spec_int_val(old(interp).stack@[old(interp).stack@.len() - 2]),
            );
            divisor != 0 && !(product == i64::MIN && divisor == -1)
        }),
        r is Ok ==> final(interp).stack@ == old(interp).stack@.drop_last().drop_last().drop_last().push(
            Value::Int(
                spec_div_trunc(
                    crate::value::spec_int_val(
                        old(interp).stack@[old(interp).stack@.len() - 3],
                    ).wrapping_mul(
                        crate::value::spec_int_val(
                            old(interp).stack@[old(interp).stack@.len() - 2],
                        ),
                    ) as int,
                    crate::value::spec_int_val(old(interp).stack@.last()) as int,
                ) as i64,
            ),
        ),
{
    let divisor = interp.pop_as_int()?;
    let (a, b) = pop_two_ints(interp)?;
    if divisor == 0 {
        return Err(interp.script_error_here("Division by zero."));
    }
    let product = a.wrapping_mul(b);
    if product == i64::MIN && divisor == -1 {
        return Err(interp.script_error_here("Division overflow."));
    }
    proof {
        lemma_checked_div_rem(product, divisor);
    }
    let q = match product.checked_div(divisor) {
        Some(q) => q,
        None => {
            return Err(interp.script_error_here("Division overflow."));
        },
    };
    interp.push(Value::Int(q));
    Ok(())
}

/// Multiply the two numbers below the top, then push the remainder and the
/// quotient of dividing by the top.
fn word_mul_div_mod(interp: &mut SorthInterpreter) -> (r: ScriptResult<()>)
    requires
        old(interp).wf(),
    ensures
        SorthInterpreter::frame_ok(*old(interp), *final(interp)),
        r is Ok <==> old(interp).stack@.len() >= 3 && crate::value::spec_is_numeric(
            old(interp).stack@.last(),
        ) && crate::value::spec_is_numeric(old(interp).stack@[old(interp).stack@.len() - 2])
            && crate::value::spec_is_numeric(old(interp).stack@[old(interp).stack@.len() - 3]) && ({
            let divisor = crate::value::spec_int_val(old(interp).stack@.last());
            let product = crate::value::spec_int_val(
                old(interp).stack@[old(interp).stack@.len() - 3],
            ).wrapping_mul(
                crate::value::spec_int_val(old(interp).stack@[old(interp).stack@.len() - 2]),
            );
            divisor != 0 && !(product == i64::MIN && divisor == -1)
        }),
        r is Ok ==> final(interp).stack@ == old(interp).stack@.drop_last().drop_last().drop_last().push(
            Value::Int(
                spec_mod_trunc(
                    crate::value::spec_int_val(
                        old(interp).stack@[old(interp).stack@.len() - 3],
                    ).wrapping_mul(
                        crate::value::spec_int_val(
                            old(interp).stack@[old(interp).stack@.len() - 2],
                        ),
                    ) as int,
                    crate::value::spec_int_val(old(interp).stack@.last()) as int,
                ) as i64,
            ),
        ).push(
            Value::Int(
                spec_div_trunc(
                    crate::value::spec_int_val(
                        old(interp).stack@[old(interp).stack@.len() - 3],
                    ).wrapping_mul(
                        crate::value::spec_int_val(
                            old(interp).stack@[old(interp).stack@.len() - 2],
                        ),
                    ) as int,
                    crate::value::spec_int_val(old(interp).stack@.last()) as int,
                ) as i64,
            ),
        ),
{
    let divisor = interp.pop_as_int()?;
    let (a, b) = pop_two_ints(interp)?;
    if divisor == 0 {
        return Err(interp.script_error_here("Division by zero."));
    }
    let product = a.wrapping_mul(b);
    if product == i64::MIN && divisor == -1 {
        return Err(interp.script_error_here("Division overflow."));
    }
    proof {
        lemma_checked_div_rem(product, divisor);
    }
    let q = match product.checked_div(divisor) {
        Some(q) => q,
        None => {
            return Err(interp.script_error_here("Division overflow."));
        },
    };
    let m = match product.checked_rem(divisor) {
        Some(m) => m,
        None => {
            return Err(interp.script_error_here("Division overflow."));
        },
    };
    interp.push(Value::Int(m));
    interp.push(Value::Int(q));
    Ok(())
}

/// Add one to the top number.
fn word_add_one(interp: &mut SorthInterpreter) -> (r: ScriptResult<()>)
    requires
        old(interp).wf(),
    ensures
        SorthInterpreter::frame_ok(*old(interp), *final(interp)),
        spec_unary_int_effect(
            *old(interp),
            *final(interp),
            r is Ok,
            (|a: i64| a.wrapping_add(1)),
        ),
{
    let a = interp.pop_as_int()?;
    interp.push(Value::Int(a.wrapping_add(1)));
    Ok(())
}

/// Subtract one from the top number.
fn word_sub_one(interp: &mut SorthInterpreter) -> (r: ScriptResult<()>)
    requires
        old(interp).wf(),
    ensures
        SorthInterpreter::frame_ok(*old(interp), *final(interp)),
        spec_unary_int_effect(
            *old(interp),
            *final(interp),
            r is Ok,
            (|a: i64| a.wrapping_sub(1)),
        ),
{
    let a = interp.pop_as_int()?;
    interp.push(Value::Int(a.wrapping_sub(1)));
    Ok(())
}

/// Double the top number.
fn word_times_two(interp: &mut SorthInterpreter) -> (r: ScriptResult<()>)
    requires
        old(interp).wf(),
    ensures
        SorthInterpreter::frame_ok(*old(interp), *final(interp)),
        spec_unary_int_effect(
            *old(interp),
            *final(interp),
            r is Ok,
            (|a: i64| a.wrapping_mul(2)),
        ),
{
    let a = interp.pop_as_int()?;
    interp.push(Value::Int(a.wrapping_mul(2)));
    Ok(())
}

/// Halve the top number, truncating toward zero.
fn word_divide_by_two(interp: &mut SorthInterpreter) -> (r: ScriptResult<()>)
    requires
        old(interp).wf(),
    ensures
        SorthInterpreter::frame_ok(*old(interp), *final(interp)),
        spec_unary_int_effect(
            *old(interp),
            *final(interp),
            r is Ok,
            (|a: i64| spec_div_trunc(a as int, 2) as i64),
        ),
{
    let a = interp.pop_as_int()?;
    interp.push(Value::Int(a / 2));
    Ok(())
}

/// The remainder of dividing the second number by the top.
fn word_int_mod(interp: &mut SorthInterpreter) -> (r: ScriptResult<()>)
    requires
        old(interp).wf(),
    ensures
        SorthInterpreter::frame_ok(*old(interp), *final(interp)),
        spec_binary_int_effect(
            *old(interp),
            *final(interp),
            r is Ok,
            (|a: i64, b: i64| b != 0 && !(a == i64::MIN && b == -1)),
            (|a: i64, b: i64| spec_mod_trunc(a as int, b as int) as i64),
        ),
{
    let (a, b) = pop_two_ints(interp)?;
    if b == 0 {
        return Err(interp.script_error_here("Division by zero."));
    }
    if a == i64::MIN && b == -1 {
        return Err(interp.script_error_here("Division overflow."));
    }
    proof {
        lemma_checked_div_rem(a, b);
    }
    let m = match a.checked_rem(b) {
        Some(m) => m,
        None => {
            return Err(interp.script_error_here("Division overflow."));
        },
    };
    interp.push(Value::Int(m));
    Ok(())
}

/// The remainder and the quotient of dividing the second number by the top.
fn word_div_mod(interp: &mut SorthInterpreter) -> (r: ScriptResult<()>)
    requires
        old(interp).wf(),
    ensures
        SorthInterpreter::frame_ok(*old(interp), *final(interp)),
        r is Ok <==> old(interp).stack@.len() >= 2 && crate::value::spec_is_numeric(
            old(interp).stack@.last(),
        ) && crate::value::spec_is_numeric(old(interp).stack@[old(interp).stack@.len() - 2]) && ({
            let a = crate::value::spec_int_val(old(interp).stack@[old(interp).stack@.len() - 2]);
            let b = crate::value::spec_int_val(old(interp).stack@.last());
            b != 0 && !(a == i64::MIN && b == -1)
        }),
        r is Ok ==> final(interp).stack@ == old(interp).stack@.drop_last().drop_last().push(
            Value::Int(
                spec_mod_trunc(
                    crate::value::spec_int_val(
                        old(interp).stack@[old(interp).stack@.len() - 2],
                    ) as int,
                    crate::value::spec_int_val(old(interp).stack@.last()) as int,
                ) as i64,
            ),
        ).push(
            Value::Int(
                spec_div_trunc(
                    crate::value::spec_int_val(
                        old(interp).stack@[old(interp).stack@.len() - 2],
                    ) as int,
                    crate::value::spec_int_val(old(interp).stack@.last()) as int,
                ) as i64,
            ),
        ),
{
    let (a, b) = pop_two_ints(interp)?;
    if b == 0 {
        return Err(interp.script_error_here("Division by zero."));
    }
    if a == i64::MIN && b == -1 {
        return Err(interp.script_error_here("Division overflow."));
    }
    proof {
        lemma_checked_div_rem(a, b);
    }
    let q = match a.checked_div(b) {
        Some(q) => q,
        None => {
            return Err(interp.script_error_here("Division overflow."));
        },
    };
    let m = match a.checked_rem(b) {
        Some(m) => m,
        None => {
            return Err(interp.script_error_here("Division overflow."));
        },
    };
    interp.push(Value::Int(m));
    interp.push(Value::Int(q));
    Ok(())
}

/// The absolute value of the top number, wrapping on the smallest value.
fn word_abs(interp: &mut SorthInterpreter) -> (r: ScriptResult<()>)
    requires
        old(interp).wf(),
    ensures
        SorthInterpreter::frame_ok(*old(interp), *final(interp)),
        spec_unary_int_effect(
            *old(interp),
            *final(interp),
            r is Ok,
            (|a: i64|
                if a == i64::MIN {
                    i64::MIN
                } else if a < 0 {
                    (-(a as int)) as i64
                } else {
                    a
                }),
        ),
{
    let a = interp.pop_as_int()?;
    let result = if a == i64::MIN {
        i64::MIN
    } else if a < 0 {
        -a
    } else {
        a
    };
    interp.push(Value::Int(result));
    Ok(())
}

/// Negate the top number, wrapping on the smallest value.
fn word_negate(interp: &mut SorthInterpreter) -> (r: ScriptResult<()>)
    requires
        old(interp).wf(),
    ensures
        SorthInterpreter::frame_ok(*old(interp), *final(interp)),
        spec_unary_int_effect(
            *old(interp),
            *final(interp),
            r is Ok,
            (|a: i64|
                if a == i64::MIN {
                    i64::MIN
                } else {
                    (-(a as int)) as i64
                }),
        ),
{
    let a = interp.pop_as_int()?;
    let result = if a == i64::MIN {
        i64::MIN
    } else {
        -a
    };
    interp.push(Value::Int(result));
    Ok(())
}

/// Add the top two values: strings concatenate where either is a string, and
/// numbers add with wrapping.
fn word_add(interp: &mut SorthInterpreter) -> (r: ScriptResult<()>)
    requires
        old(interp).wf(),
    ensures
        SorthInterpreter::frame_ok(*old(interp), *final(interp)),
        r is Ok <==> old(interp).stack@.len() >= 2 && ({
            let a = old(interp).stack@[old(interp).stack@.len() - 2];
            let b = old(interp).stack@.last();
            if a is String || b is String {
                crate::value::spec_is_stringable(a) && crate::value::spec_is_stringable(b)
            } else {
                crate::value::spec_is_numeric(a) && crate::value::spec_is_numeric(b)
            }
        }),
        r is Ok ==> old(interp).stack@.len() >= 2 && ({
            let a = old(interp).stack@[old(interp).stack@.len() - 2];
            let b = old(interp).stack@.last();
            if a is String || b is String {
                crate::value::spec_is_stringable(a) && crate::value::spec_is_stringable(b) && final(interp).stack@.len() == old(interp).stack@.len() - 1 && final(interp).stack@.drop_last()
                    == old(interp).stack@.drop_last().drop_last() && (final(interp).stack@.last() matches Value::String(joined) && joined@
                    == crate::value::spec_string_val(a) + crate::value::spec_string_val(b))
            } else {
                crate::value::spec_is_numeric(a) && crate::value::spec_is_numeric(b) && final(interp).stack@ == old(interp).stack@.drop_last().drop_last().push(
                    Value::Int(
                        crate::value::spec_int_val(a).wrapping_add(crate::value::spec_int_val(b)),
                    ),
                )
            }
        }),
{
    let b = interp.pop()?;
    let a = interp.pop()?;
    if Value::either_is_string(&a, &b) {
        if !a.is_stringable() || !b.is_stringable() {
            return Err(interp.script_error_here("Value incompatible with string concatenation."));
        }
        let sa = a.get_string_val();
        let sb = b.get_string_val();
        let joined = sa.concat(sb.as_str());
        interp.push(Value::String(joined));
        Ok(())
    } else {
        if !a.is_numeric() || !b.is_numeric() {
            return Err(interp.script_error_here("Value incompatible with numeric op."));
        }
        let result = a.get_int_val().wrapping_add(b.get_int_val());
        interp.push(Value::Int(result));
        Ok(())
    }
}

/// Subtract the top number from the second, with wrapping.
fn word_subtract(interp: &mut SorthInterpreter) -> (r: ScriptResult<()>)
    requires
        old(interp).wf(),
    ensures
        SorthInterpreter::frame_ok(*old(interp), *final(interp)),
        spec_binary_int_effect(
            *old(interp),
            *final(interp),
            r is Ok,
            (|a: i64, b: i64| true),
            (|a: i64, b: i64| a.wrapping_sub(b)),
        ),
{
    let (a, b) = pop_two_ints(interp)?;
    interp.push(Value::Int(a.wrapping_sub(b)));
    Ok(())
}

/// Multiply the top two numbers, with wrapping.
fn word_multiply(interp: &mut SorthInterpreter) -> (r: ScriptResult<()>)
    requires
        old(interp).wf(),
    ensures
        SorthInterpreter::frame_ok(*old(interp), *final(interp)),
        spec_binary_int_effect(
            *old(interp),
            *final(interp),
            r is Ok,
            (|a: i64, b: i64| true),
            (|a: i64, b: i64| a.wrapping_mul(b)),
        ),
{
    let (a, b) = pop_two_ints(interp)?;
    interp.push(Value::Int(a.wrapping_mul(b)));
    Ok(())
}

/// Divide the second number by the top, truncating toward zero.  Dividing by
/// zero, or overflowing the one division that can, is a script error.
fn word_divide(interp: &mut SorthInterpreter) -> (r: ScriptResult<()>)
    requires
        old(interp).wf(),
    ensures
        SorthInterpreter::frame_ok(*old(interp), *final(interp)),
        spec_binary_int_effect(
            *old(interp),
            *final(interp),
            r is Ok,
            (|a: i64, b: i64| b != 0 && !(a == i64::MIN && b == -1)),
            (|a: i64, b: i64| spec_div_trunc(a as int, b as int) as i64),
        ),
{
    let (a, b) = pop_two_ints(interp)?;
    if b == 0 {
        return Err(interp.script_error_here("Division by zero."));
    }
    if a == i64::MIN && b == -1 {
        return Err(interp.script_error_here("Division overflow."));
    }
    proof {
        lemma_checked_div_rem(a, b);
    }
    let q = match a.checked_div(b) {
        Some(q) => q,
        None => {
            return Err(interp.script_error_here("Division overflow."));
        },
    };
    interp.push(Value::Int(q));
    Ok(())
}

/// Push true flag where the popped number is zero: minus one, as the language
/// counts truth, and zero otherwise.
fn word_zero_equal(interp: &mut SorthInterpreter) -> (r: ScriptResult<()>)
    requires
        old(interp).wf(),
    ensures
        SorthInterpreter::frame_ok(*old(interp), *final(interp)),
        r is Ok <==> old(interp).stack@.len() > 0 && crate::value::spec_is_numeric(
            old(interp).stack@.last(),
        ),
        r is Ok ==> final(interp).stack@ == old(interp).stack@.drop_last().push(
            Value::Int(
                if crate::value::spec_int_val(old(interp).stack@.last()) == 0 {
                    -1i64
                } else {
                    0i64
                },
            ),
        ),
{
    let a = interp.pop_as_int()?;
    interp.push(Value::Int(if a == 0 {
        -1
    } else {
        0
    }));
    Ok(())
}

/// Compare the top two values under the language's equality.
fn values_equal(interp: &mut SorthInterpreter) -> (r: ScriptResult<bool>)
    requires
        old(interp).wf(),
    ensures
        SorthInterpreter::frame_ok(*old(interp), *final(interp)),
        match r {
            Ok(eq) => old(interp).stack@.len() >= 2 && final(interp).stack@ == old(interp).stack@.drop_last().drop_last() && eq == crate::store::spec_value_eq(
                old(interp).store@,
                old(interp).stack@[old(interp).stack@.len() - 2],
                old(interp).stack@.last(),
                EQ_DEPTH as nat,
            ),
            Err(_) => true,
        },
        old(interp).stack@.len() < 2 ==> r is Err,
        old(interp).stack@.len() >= 2 && spec_comparable(
            old(interp).stack@[old(interp).stack@.len() - 2],
            old(interp).stack@.last(),
        ) ==> r is Ok,
{
    let b = interp.pop()?;
    let a = interp.pop()?;
    match interp.store.value_eq(&a, &b, EQ_DEPTH) {
        Some(eq) => Ok(eq),
        None => Err(interp.script_error_here(
            "Could not compare values: a reference is dead or the values nest too deeply.",
        )),
    }
}

/// Push true flag where the top two values are equal: minus one, as the
/// language counts truth, and zero otherwise.
fn word_equal(interp: &mut SorthInterpreter) -> (r: ScriptResult<()>)
    requires
        old(interp).wf(),
    ensures
        SorthInterpreter::frame_ok(*old(interp), *final(interp)),
        r is Ok ==> old(interp).stack@.len() >= 2 && final(interp).stack@ == old(interp).stack@.drop_last().drop_last().push(
            Value::Int(
                if crate::store::spec_value_eq(
                    old(interp).store@,
                    old(interp).stack@[old(interp).stack@.len() - 2],
                    old(interp).stack@.last(),
                    EQ_DEPTH as nat,
                ) {
                    -1i64
                } else {
                    0i64
                },
            ),
        ),
        old(interp).stack@.len() < 2 ==> r is Err,
        old(interp).stack@.len() >= 2 && spec_comparable(
            old(interp).stack@[old(interp).stack@.len() - 2],
            old(interp).stack@.last(),
        ) ==> r is Ok,
{
    let eq = values_equal(interp)?;
    interp.push(Value::Int(if eq {
        -1
    } else {
        0
    }));
    Ok(())
}

/// Push whether the top two values differ, as a boolean.
fn word_not_equal(interp: &mut SorthInterpreter) -> (r: ScriptResult<()>)
    requires
        old(interp).wf(),
    ensures
        SorthInterpreter::frame_ok(*old(interp), *final(interp)),
        r is Ok ==> old(interp).stack@.len() >= 2 && final(interp).stack@ == old(interp).stack@.drop_last().drop_last().push(
            Value::Bool(
                !crate::store::spec_value_eq(
                    old(interp).store@,
                    old(interp).stack@[old(interp).stack@.len() - 2],
                    old(interp).stack@.last(),
                    EQ_DEPTH as nat,
                ),
            ),
        ),
        old(interp).stack@.len() < 2 ==> r is Err,
        old(interp).stack@.len() >= 2 && spec_comparable(
            old(interp).stack@[old(interp).stack@.len() - 2],
            old(interp).stack@.last(),
        ) ==> r is Ok,
{
    let eq = values_equal(interp)?;
    interp.push(Value::Bool(!eq));
    Ok(())
}

/// Two values that the ordering words can compare: both numbers, or both
/// stringable.
pub open spec fn spec_comparable(a: Value, b: Value) -> bool {
    (crate::value::spec_is_numeric(a) && crate::value::spec_is_numeric(b)) || (
    crate::value::spec_is_stringable(a) && crate::value::spec_is_stringable(b))
}

/// The effect the four ordering words share: they succeed exactly on two
/// comparable values, consume them, and for two numbers the answer orders
/// their integer readings.
pub open spec fn spec_ordering_effect(
    pre: SorthInterpreter,
    post: SorthInterpreter,
    ok: bool,
    lt: spec_fn(bool, bool) -> Value,
) -> bool {
    &&& ok <==> pre.stack@.len() >= 2 && spec_comparable(
        pre.stack@[pre.stack@.len() - 2],
        pre.stack@.last(),
    )
    &&& ok && crate::value::spec_is_numeric(pre.stack@[pre.stack@.len() - 2])
        && crate::value::spec_is_numeric(pre.stack@.last()) ==> post.stack@
        == pre.stack@.drop_last().drop_last().push(
        lt(
            crate::value::spec_int_val(pre.stack@[pre.stack@.len() - 2])
                < crate::value::spec_int_val(pre.stack@.last()),
            crate::value::spec_int_val(pre.stack@[pre.stack@.len() - 2])
                == crate::value::spec_int_val(pre.stack@.last()),
        ),
    )
    &&& ok && !(crate::value::spec_is_numeric(pre.stack@[pre.stack@.len() - 2])
        && crate::value::spec_is_numeric(pre.stack@.last())) ==> post.stack@
        == pre.stack@.drop_last().drop_last().push(
        lt(
            spec_chars_lt(
                crate::value::spec_string_val(pre.stack@[pre.stack@.len() - 2]),
                crate::value::spec_string_val(pre.stack@.last()),
            ),
            crate::value::spec_string_val(pre.stack@[pre.stack@.len() - 2])
                == crate::value::spec_string_val(pre.stack@.last()),
        ),
    )
    &&& ok ==> post.stack@.len() == pre.stack@.len() - 1 && post.stack@.drop_last()
        == pre.stack@.drop_last().drop_last()
}

/// Pop two values and compare them: numbers by value, strings by their bytes,
/// anything else incomparable.
fn values_ordering(interp: &mut SorthInterpreter) -> (r: ScriptResult<(bool, bool)>)
    requires
        old(interp).wf(),
    ensures
        SorthInterpreter::frame_ok(*old(interp), *final(interp)),
        r is Ok <==> old(interp).stack@.len() >= 2 && spec_comparable(
            old(interp).stack@[old(interp).stack@.len() - 2],
            old(interp).stack@.last(),
        ),
        r matches Ok(pair) ==> final(interp).stack@ == old(interp).stack@.drop_last().drop_last() && (crate::value::spec_is_numeric(
            old(interp).stack@[old(interp).stack@.len() - 2],
        ) && crate::value::spec_is_numeric(old(interp).stack@.last()) ==> pair.0 == (
        crate::value::spec_int_val(old(interp).stack@[old(interp).stack@.len() - 2])
            < crate::value::spec_int_val(old(interp).stack@.last())) && pair.1 == (
        crate::value::spec_int_val(old(interp).stack@[old(interp).stack@.len() - 2])
            == crate::value::spec_int_val(old(interp).stack@.last()))),
        r matches Ok(pair) ==> (!(crate::value::spec_is_numeric(
            old(interp).stack@[old(interp).stack@.len() - 2],
        ) && crate::value::spec_is_numeric(old(interp).stack@.last())) ==> pair.0 == spec_chars_lt(
            crate::value::spec_string_val(old(interp).stack@[old(interp).stack@.len() - 2]),
            crate::value::spec_string_val(old(interp).stack@.last()),
        ) && pair.1 == (crate::value::spec_string_val(
            old(interp).stack@[old(interp).stack@.len() - 2],
        ) == crate::value::spec_string_val(old(interp).stack@.last()))),
{
    let b = interp.pop()?;
    let a = interp.pop()?;
    if a.is_numeric() && b.is_numeric() {
        let x = a.get_int_val();
        let y = b.get_int_val();
        return Ok((x < y, x == y));
    }
    if a.is_stringable() && b.is_stringable() {
        let sa = a.get_string_val();
        let sb = b.get_string_val();
        let (lt, eq) = compare_string_chars(&sa, &sb);
        return Ok((lt, eq));
    }
    Err(interp.script_error_here("Values are not comparable."))
}

/// Whether one character sequence orders before another, position by
/// position, a proper prefix before every extension.
pub open spec fn spec_chars_lt(a: Seq<char>, b: Seq<char>) -> bool
    decreases a.len(),
{
    if b.len() == 0 {
        false
    } else if a.len() == 0 {
        true
    } else if a[0] == b[0] {
        spec_chars_lt(a.drop_first(), b.drop_first())
    } else {
        (a[0] as u32) < (b[0] as u32)
    }
}

/// Dropping an equal prefix from both sequences does not change their order.
proof fn lemma_chars_lt_skip(a: Seq<char>, b: Seq<char>, i: int)
    requires
        0 <= i <= a.len(),
        i <= b.len(),
        forall|j: int| 0 <= j < i ==> a[j] == b[j],
    ensures
        spec_chars_lt(a, b) == spec_chars_lt(a.skip(i), b.skip(i)),
    decreases i,
{
    if i > 0 {
        lemma_chars_lt_skip(a, b, i - 1);
        assert(a.skip(i - 1).drop_first() =~= a.skip(i));
        assert(b.skip(i - 1).drop_first() =~= b.skip(i));
        assert(a.skip(i - 1)[0] == a[i - 1]);
        assert(b.skip(i - 1)[0] == b[i - 1]);
    } else {
        assert(a.skip(0) =~= a);
        assert(b.skip(0) =~= b);
    }
}

/// Compare two strings character by character, answering whether the first
/// orders before the second, and whether they are equal.
fn compare_string_chars(a: &String, b: &String) -> (r: (bool, bool))
    ensures
        r.0 == spec_chars_lt(a@, b@),
        r.1 == (a@ == b@),
{
    let ca = crate::text::str_to_chars(a.as_str());
    let cb = crate::text::str_to_chars(b.as_str());
    let mut i: usize = 0;
    loop
        invariant
            ca@ == a@,
            cb@ == b@,
            i <= ca@.len(),
            i <= cb@.len(),
            forall|j: int| 0 <= j < i ==> ca@[j] == cb@[j],
        decreases ca@.len() - i,
    {
        if i >= ca.len() {
            proof {
                lemma_chars_lt_skip(a@, b@, i as int);
                assert(a@.skip(i as int) =~= Seq::<char>::empty());
                if a@.len() == b@.len() {
                    assert(a@ =~= b@);
                }
            }
            return (ca.len() < cb.len(), ca.len() == cb.len());
        }
        if i >= cb.len() {
            proof {
                lemma_chars_lt_skip(a@, b@, i as int);
                assert(b@.skip(i as int) =~= Seq::<char>::empty());
            }
            return (false, false);
        }
        if ca[i] == cb[i] {
            i = i + 1;
            continue ;
        }
        proof {
            lemma_chars_lt_skip(a@, b@, i as int);
            assert(a@.skip(i as int)[0] == a@[i as int]);
            assert(b@.skip(i as int)[0] == b@[i as int]);
            if a@ == b@ {
                assert(a@[i as int] == b@[i as int]);
            }
        }
        if (ca[i] as u32) < (cb[i] as u32) {
            return (true, false);
        }
        return (false, false);
    }
}

/// Push true flag where the second value is greater than or equal to the top.
fn word_greater_equal(interp: &mut SorthInterpreter) -> (r: ScriptResult<()>)
    requires
        old(interp).wf(),
    ensures
        SorthInterpreter::frame_ok(*old(interp), *final(interp)),
        spec_ordering_effect(
            *old(interp),
            *final(interp),
            r is Ok,
            (|lt: bool, eq: bool| Value::Bool(!lt)),
        ),
{
    let (lt, _eq) = values_ordering(interp)?;
    interp.push(Value::Bool(!lt));
    proof {
        assert(interp.stack@.drop_last() =~= old(interp).stack@.drop_last().drop_last());
    }
    Ok(())
}

/// Push true flag where the second value is less than or equal to the top.
fn word_less_equal(interp: &mut SorthInterpreter) -> (r: ScriptResult<()>)
    requires
        old(interp).wf(),
    ensures
        SorthInterpreter::frame_ok(*old(interp), *final(interp)),
        spec_ordering_effect(
            *old(interp),
            *final(interp),
            r is Ok,
            (|lt: bool, eq: bool| Value::Bool(lt || eq)),
        ),
{
    let (lt, eq) = values_ordering(interp)?;
    interp.push(Value::Bool(lt || eq));
    proof {
        assert(interp.stack@.drop_last() =~= old(interp).stack@.drop_last().drop_last());
    }
    Ok(())
}

/// Push true flag where the second value is greater than the top: minus one,
/// as the language counts truth, and zero otherwise.
fn word_greater(interp: &mut SorthInterpreter) -> (r: ScriptResult<()>)
    requires
        old(interp).wf(),
    ensures
        SorthInterpreter::frame_ok(*old(interp), *final(interp)),
        spec_ordering_effect(
            *old(interp),
            *final(interp),
            r is Ok,
            (|lt: bool, eq: bool|
                Value::Int(
                    if !lt && !eq {
                        -1i64
                    } else {
                        0i64
                    },
                )),
        ),
{
    let (lt, eq) = values_ordering(interp)?;
    interp.push(Value::Int(if !lt && !eq {
        -1
    } else {
        0
    }));
    proof {
        assert(interp.stack@.drop_last() =~= old(interp).stack@.drop_last().drop_last());
    }
    Ok(())
}

/// Push true flag where the second value is less than the top: minus one, as
/// the language counts truth, and zero otherwise.
fn word_less(interp: &mut SorthInterpreter) -> (r: ScriptResult<()>)
    requires
        old(interp).wf(),
    ensures
        SorthInterpreter::frame_ok(*old(interp), *final(interp)),
        spec_ordering_effect(
            *old(interp),
            *final(interp),
            r is Ok,
            (|lt: bool, eq: bool|
                Value::Int(
                    if lt {
                        -1i64
                    } else {
                        0i64
                    },
                )),
        ),
{
    let (lt, _eq) = values_ordering(interp)?;
    interp.push(Value::Int(if lt {
        -1
    } else {
        0
    }));
    proof {
        assert(interp.stack@.drop_last() =~= old(interp).stack@.drop_last().drop_last());
    }
    Ok(())
}

/// Logically combine the top two values read as booleans.
fn word_logic_and(interp: &mut SorthInterpreter) -> (r: ScriptResult<()>)
    requires
        old(interp).wf(),
    ensures
        SorthInterpreter::frame_ok(*old(interp), *final(interp)),
        r is Ok <==> old(interp).stack@.len() >= 2,
        r is Ok ==> final(interp).stack@ == old(interp).stack@.drop_last().drop_last().push(
            Value::Bool(
                crate::value::spec_bool_val(old(interp).stack@[old(interp).stack@.len() - 2])
                    && crate::value::spec_bool_val(old(interp).stack@.last()),
            ),
        ),
{
    let b = interp.pop_as_bool()?;
    let a = interp.pop_as_bool()?;
    interp.push(Value::Bool(a && b));
    Ok(())
}

/// Logically combine the top two values read as booleans.
fn word_logic_or(interp: &mut SorthInterpreter) -> (r: ScriptResult<()>)
    requires
        old(interp).wf(),
    ensures
        SorthInterpreter::frame_ok(*old(interp), *final(interp)),
        r is Ok <==> old(interp).stack@.len() >= 2,
        r is Ok ==> final(interp).stack@ == old(interp).stack@.drop_last().drop_last().push(
            Value::Bool(
                crate::value::spec_bool_val(old(interp).stack@[old(interp).stack@.len() - 2])
                    || crate::value::spec_bool_val(old(interp).stack@.last()),
            ),
        ),
{
    let b = interp.pop_as_bool()?;
    let a = interp.pop_as_bool()?;
    interp.push(Value::Bool(a || b));
    Ok(())
}

/// Logically invert the top value read as a boolean.
fn word_logic_not(interp: &mut SorthInterpreter) -> (r: ScriptResult<()>)
    requires
        old(interp).wf(),
    ensures
        SorthInterpreter::frame_ok(*old(interp), *final(interp)),
        r is Ok <==> old(interp).stack@.len() >= 1,
        r is Ok ==> final(interp).stack@ == old(interp).stack@.drop_last().push(
            Value::Bool(!crate::value::spec_bool_val(old(interp).stack@.last())),
        ),
{
    let a = interp.pop_as_bool()?;
    interp.push(Value::Bool(!a));
    Ok(())
}

/// Combine the top two numbers bitwise.
fn word_bit_and(interp: &mut SorthInterpreter) -> (r: ScriptResult<()>)
    requires
        old(interp).wf(),
    ensures
        SorthInterpreter::frame_ok(*old(interp), *final(interp)),
        spec_binary_int_effect(
            *old(interp),
            *final(interp),
            r is Ok,
            (|a: i64, b: i64| true),
            (|a: i64, b: i64| a & b),
        ),
{
    let (a, b) = pop_two_ints(interp)?;
    interp.push(Value::Int(a & b));
    Ok(())
}

/// Combine the top two numbers bitwise.
fn word_bit_or(interp: &mut SorthInterpreter) -> (r: ScriptResult<()>)
    requires
        old(interp).wf(),
    ensures
        SorthInterpreter::frame_ok(*old(interp), *final(interp)),
        spec_binary_int_effect(
            *old(interp),
            *final(interp),
            r is Ok,
            (|a: i64, b: i64| true),
            (|a: i64, b: i64| a | b),
        ),
{
    let (a, b) = pop_two_ints(interp)?;
    interp.push(Value::Int(a | b));
    Ok(())
}

/// Combine the top two numbers bitwise.
fn word_bit_xor(interp: &mut SorthInterpreter) -> (r: ScriptResult<()>)
    requires
        old(interp).wf(),
    ensures
        SorthInterpreter::frame_ok(*old(interp), *final(interp)),
        spec_binary_int_effect(
            *old(interp),
            *final(interp),
            r is Ok,
            (|a: i64, b: i64| true),
            (|a: i64, b: i64| a ^ b),
        ),
{
    let (a, b) = pop_two_ints(interp)?;
    interp.push(Value::Int(a ^ b));
    Ok(())
}

/// Invert the bits of the top number.
fn word_bit_not(interp: &mut SorthInterpreter) -> (r: ScriptResult<()>)
    requires
        old(interp).wf(),
    ensures
        SorthInterpreter::frame_ok(*old(interp), *final(interp)),
        spec_unary_int_effect(*old(interp), *final(interp), r is Ok, (|a: i64| !a)),
{
    let a = interp.pop_as_int()?;
    interp.push(Value::Int(!a));
    Ok(())
}

/// Shift the second number's bits left by the top number.  Shifts beyond the
/// word size are a script error.
fn word_shift_left(interp: &mut SorthInterpreter) -> (r: ScriptResult<()>)
    requires
        old(interp).wf(),
    ensures
        SorthInterpreter::frame_ok(*old(interp), *final(interp)),
        spec_binary_int_effect(
            *old(interp),
            *final(interp),
            r is Ok,
            (|a: i64, b: i64| 0 <= b < 64),
            (|a: i64, b: i64| (((a as u64) << (b as u64)) as i64)),
        ),
{
    let (value, amount) = pop_two_ints(interp)?;
    if amount < 0 || amount >= 64 {
        return Err(interp.script_error_here("Shift amount out of range."));
    }
    let shifted = ((value as u64) << (amount as u64)) as i64;
    interp.push(Value::Int(shifted));
    Ok(())
}

/// Shift the second number's bits right by the top number, keeping the sign.
/// Shifts beyond the word size are a script error.
fn word_shift_right(interp: &mut SorthInterpreter) -> (r: ScriptResult<()>)
    requires
        old(interp).wf(),
    ensures
        SorthInterpreter::frame_ok(*old(interp), *final(interp)),
        spec_binary_int_effect(
            *old(interp),
            *final(interp),
            r is Ok,
            (|a: i64, b: i64| 0 <= b < 64),
            (|a: i64, b: i64| (a >> (b as u64))),
        ),
{
    let (value, amount) = pop_two_ints(interp)?;
    if amount < 0 || amount >= 64 {
        return Err(interp.script_error_here("Shift amount out of range."));
    }
    let shifted = value >> (amount as u64);
    interp.push(Value::Int(shifted));
    Ok(())
}

/// The instruction each operand-carrying emission word compiles.
pub open spec fn spec_op_for(which: u8, v: Value) -> Op {
    if which == 0 {
        Op::DefVariable(v)
    } else if which == 1 {
        Op::DefConstant(v)
    } else if which == 2 {
        Op::Execute(v)
    } else if which == 3 {
        Op::PushConstantValue(v)
    } else if which == 4 {
        Op::MarkLoopExit(v)
    } else if which == 5 {
        Op::MarkCatch(v)
    } else if which == 6 {
        Op::Jump(v)
    } else if which == 7 {
        Op::JumpIfZero(v)
    } else if which == 8 {
        Op::JumpIfNotZero(v)
    } else {
        Op::JumpTarget(v)
    }
}

/// Pop an operand and emit the chosen instruction with it into the block
/// under construction.
fn word_op_with_value(interp: &mut SorthInterpreter, which: u8) -> (r: ScriptResult<()>)
    requires
        old(interp).wf(),
    ensures
        SorthInterpreter::frame_ok(*old(interp), *final(interp)),
        r is Ok <==> old(interp).stack@.len() > 0 && old(interp).constructors@.len() > 0,
        r is Ok ==> final(interp).stack@ == old(interp).stack@.drop_last() && final(interp).constructors@.len() == old(interp).constructors@.len() && final(interp).constructors@.drop_last() == old(interp).constructors@.drop_last()
            && crate::compilation::spec_pushed_instruction(
            old(interp).constructors@.last(),
            final(interp).constructors@.last(),
            crate::code::Instruction {
                location: None,
                op: spec_op_for(which, old(interp).stack@.last()),
            },
        ),
{
    let value = interp.pop()?;
    let op = match which {
        0u8 => Op::DefVariable(value),
        1u8 => Op::DefConstant(value),
        2u8 => Op::Execute(value),
        3u8 => Op::PushConstantValue(value),
        4u8 => Op::MarkLoopExit(value),
        5u8 => Op::MarkCatch(value),
        6u8 => Op::Jump(value),
        7u8 => Op::JumpIfZero(value),
        8u8 => Op::JumpIfNotZero(value),
        _ => Op::JumpTarget(value),
    };
    interp.insert_user_instruction(None, op)
}

/// Merge the top block of the construction stack into the one below it.
fn word_code_merge_stack_block(interp: &mut SorthInterpreter) -> (r: ScriptResult<()>)
    requires
        old(interp).wf(),
    ensures
        SorthInterpreter::frame_ok(*old(interp), *final(interp)),
{
    let construction = interp.construction_pop()?;
    let code = construction.code;
    let mut i: usize = 0;
    while i < code.len()
        invariant
            interp.wf(),
            interp.spec_context_count() == old(interp).spec_context_count(),
            i <= code@.len(),
        decreases code@.len() - i,
    {
        let instruction = code[i].clone();
        interp.insert_user_instruction_at_end(instruction)?;
        i = i + 1;
    }
    Ok(())
}

/// Pop the top block of the construction stack onto the data stack as a code
/// value.
fn word_code_pop_stack_block(interp: &mut SorthInterpreter) -> (r: ScriptResult<()>)
    requires
        old(interp).wf(),
    ensures
        SorthInterpreter::frame_ok(*old(interp), *final(interp)),
{
    let construction = interp.construction_pop()?;
    let index = interp.store.alloc_code(construction.code);
    interp.push(Value::Code(index));
    Ok(())
}

/// Pop a code value from the data stack back onto the construction stack.
fn word_code_push_stack_block(interp: &mut SorthInterpreter) -> (r: ScriptResult<()>)
    requires
        old(interp).wf(),
    ensures
        SorthInterpreter::frame_ok(*old(interp), *final(interp)),
{
    let value = interp.pop()?;
    let index = match value {
        Value::Code(i) => i,
        _ => {
            return Err(interp.script_error_here("Expected a code block."));
        },
    };
    if index >= interp.store.code_blocks.len() {
        return Err(interp.script_error_here("Code block reference is dead."));
    }
    let code = crate::code::clone_code(&interp.store.code_blocks[index]);
    interp.construction_new_with_code(code)
}

/// Push the size of the block under construction.
fn word_code_stack_block_size(interp: &mut SorthInterpreter) -> (r: ScriptResult<()>)
    requires
        old(interp).wf(),
    ensures
        SorthInterpreter::frame_ok(*old(interp), *final(interp)),
{
    let len = interp.construction_code_len()?;
    if (len as u64) > 0x7fffffffffffffffu64 {
        return Err(interp.script_error_here("Code block too large."));
    }
    interp.push(Value::Int(len as i64));
    Ok(())
}

/// The gathered stop words match the stringable values that sat under the
/// count on the stack: word `k` reads the value `k` places below the count.
pub open spec fn spec_gathered_words(stack0: Seq<Value>, words: Seq<String>) -> bool {
    &&& words.len() + 1 <= stack0.len()
    &&& forall|k: int|
        0 <= k < words.len() ==> crate::value::spec_is_stringable(
            #[trigger] stack0[stack0.len() - 2 - k],
        )
    &&& words.map_values(|w: String| w@) == Seq::new(
        words.len(),
        |k: int| crate::value::spec_string_val(stack0[stack0.len() - 2 - k]),
    )
}

/// Compile tokens until one of the popped words is seen; the matching word is
/// consumed and pushed.  Running off the end of the stream is an error, so a
/// success always leaves one of the requested words on top of the stack: the
/// construct that asked for the block learns which word closed it.
#[verifier::rlimit(50)]
fn word_code_compile_until_words(interp: &mut SorthInterpreter, depth: u64) -> (r: ScriptResult<
    (),
>)
    requires
        old(interp).wf(),
    ensures
        SorthInterpreter::frame_ok(*old(interp), *final(interp)),
        r is Ok ==> final(interp).stack@.len() >= 1 && (final(interp).stack@.last() matches Value::String(found) && (exists|k: int|
            ({
                &&& 0 <= k < crate::value::spec_int_val(old(interp).stack@.last())
                &&& old(interp).stack@.len() >= 2 + k
                &&& crate::value::spec_is_stringable(
                    #[trigger] old(interp).stack@[old(interp).stack@.len() - 2 - k],
                )
                &&& crate::value::spec_string_val(
                    old(interp).stack@[old(interp).stack@.len() - 2 - k],
                ) == found@
            }))),
        old(interp).stack@.len() == 0 || !crate::value::spec_is_numeric(old(interp).stack@.last())
            || crate::value::spec_int_val(old(interp).stack@.last()) < 0 ==> r is Err,
        (exists|k: int|
            0 <= k < crate::value::spec_int_val(old(interp).stack@.last()) && ((old(interp).stack@.len() as int) < 2 + k || !crate::value::spec_is_stringable(
                #[trigger] old(interp).stack@[old(interp).stack@.len() - 2 - k],
            ))) ==> r is Err,
    decreases depth, 0int, 1int,
{
    if depth == 0 {
        return Err(interp.script_error_here("Call depth exceeded."));
    }
    let ghost stack0 = interp.stack@;
    let count = interp.pop_as_usize()?;
    proof {
        assert(stack0.drop_last().take(stack0.len() - 1) =~= stack0.drop_last());
        assert(Seq::<String>::empty().map_values(|w: String| w@) =~= Seq::new(
            0,
            |k: int| crate::value::spec_string_val(stack0[stack0.len() - 2 - k]),
        ));
    }
    let mut words: Vec<String> = Vec::new();
    let mut gathered: usize = 0;
    while gathered < count
        invariant
            interp.wf(),
            interp.spec_context_count() == old(interp).spec_context_count(),
            gathered <= count,
            stack0 == old(interp).stack@,
            stack0.len() >= 1 + gathered,
            count == crate::value::spec_int_val(stack0.last()),
            interp.stack@ == stack0.drop_last().take(stack0.len() - 1 - gathered),
            words@.len() == gathered,
            spec_gathered_words(stack0, words@),
        decreases count - gathered,
    {
        let ghost before = interp.stack@;
        let ghost prior_words = words@;
        let word = interp.pop_as_string()?;
        proof {
            assert(before.len() > 0);
            assert(before.last() == stack0[stack0.len() - 2 - gathered]);
            assert(interp.stack@ =~= stack0.drop_last().take(stack0.len() - 2 - gathered));
        }
        words.push(word);
        gathered = gathered + 1;
        proof {
            assert(words@ == prior_words.push(word));
            assert forall|k: int| 0 <= k < words@.len() implies crate::value::spec_is_stringable(
                #[trigger] stack0[stack0.len() - 2 - k],
            ) by {}
            assert forall|k: int| 0 <= k < words@.len() implies words@.map_values(
                |w: String| w@,
            )[k] == crate::value::spec_string_val(#[trigger] stack0[stack0.len() - 2 - k]) by {
                if k < words@.len() - 1 {
                    assert(words@[k] == prior_words[k]);
                    assert(prior_words.map_values(|w: String| w@)[k] == prior_words[k]@);
                    assert(prior_words.map_values(|w: String| w@)[k] == Seq::new(
                        prior_words.len(),
                        |m: int| crate::value::spec_string_val(stack0[stack0.len() - 2 - m]),
                    )[k]);
                } else {
                    assert(words@[k] == word);
                }
            }
            assert(words@.map_values(|w: String| w@) =~= Seq::new(
                words@.len(),
                |k: int| crate::value::spec_string_val(stack0[stack0.len() - 2 - k]),
            ));
            assert(spec_gathered_words(stack0, words@));
        }
    }
    let ghost words_view = words@;
    let mut steps: u64 = STEP_LIMIT;
    loop
        invariant
            interp.wf(),
            interp.spec_context_count() == old(interp).spec_context_count(),
            depth >= 1,
            stack0 == old(interp).stack@,
            stack0.len() >= 1,
            count == crate::value::spec_int_val(stack0.last()),
            words@ == words_view,
            words@.len() == count,
            spec_gathered_words(stack0, words@),
        decreases steps,
    {
        if steps == 0 {
            return Err(interp.script_error_here("Compilation step budget exhausted."));
        }
        steps = steps - 1;
        if !interp.has_next_token() {
            return Err(interp.script_error_here("Could not find a word the block must end with."));
        }
        let token = interp.next_token()?;
        let matched = match &token {
            Token::Word(_, name) => find_string(&words, name),
            _ => None,
        };
        match matched {
            Some(found) => {
                proof {
                    let k = choose|k: int|
                        0 <= k < words@.len() && (#[trigger] words@[k])@ == found@;
                    assert(0 <= k < words@.len() && words@[k]@ == found@);
                    assert(words@.len() == count);
                    assert(words@.map_values(|w: String| w@)[k] == words@[k]@);
                    assert(stack0.len() >= 2 + k && crate::value::spec_is_stringable(
                        stack0[stack0.len() - 2 - k],
                    ) && words@[k]@ == crate::value::spec_string_val(
                        stack0[stack0.len() - 2 - k],
                    ));
                }
                interp.push(Value::String(found));
                return Ok(());
            },
            None => {
                interp.process_token(token, depth - 1)?;
            },
        }
    }
}

/// Find a string in a list, returning a copy of the match.
fn find_string(words: &Vec<String>, name: &String) -> (r: Option<String>)
    ensures
        r matches Some(found) ==> exists|k: int|
            0 <= k < words@.len() && (#[trigger] words@[k])@ == found@,
{
    let mut i: usize = 0;
    while i < words.len()
        invariant
            i <= words@.len(),
        decreases words@.len() - i,
    {
        if crate::dictionary::string_eq_str(&words[i], name.as_str()) {
            return Some(words[i].clone());
        }
        i = i + 1;
    }
    None
}

/// Choose whether new instructions go to the top or the end of the block
/// under construction.
fn word_code_insert_at_front(interp: &mut SorthInterpreter) -> (r: ScriptResult<()>)
    requires
        old(interp).wf(),
    ensures
        SorthInterpreter::frame_ok(*old(interp), *final(interp)),
{
    let at_top = interp.pop_as_bool()?;
    interp.context_set_insertion(
        if at_top {
            crate::compilation::InsertionLocation::AtTop
        } else {
            crate::compilation::InsertionLocation::AtEnd
        },
    )
}

/// Compile and execute the popped string as source code.
fn word_code_execute_source(interp: &mut SorthInterpreter, depth: u64) -> (r: ScriptResult<()>)
    requires
        old(interp).wf(),
    ensures
        SorthInterpreter::frame_ok(*old(interp), *final(interp)),
    decreases depth, 0int, 1int,
{
    if depth == 0 {
        return Err(interp.script_error_here("Call depth exceeded."));
    }
    let source = interp.pop_as_string()?;
    interp.process_source("<source>", source.as_str(), depth - 1)
}

/// Push the next token of the stream as a token value.
fn word_word(interp: &mut SorthInterpreter) -> (r: ScriptResult<()>)
    requires
        old(interp).wf(),
    ensures
        SorthInterpreter::frame_ok(*old(interp), *final(interp)),
{
    let token = interp.next_token()?;
    interp.push(Value::Token(token));
    Ok(())
}

/// Compile a push of the next word's handler index.
fn word_word_index(interp: &mut SorthInterpreter) -> (r: ScriptResult<()>)
    requires
        old(interp).wf(),
    ensures
        SorthInterpreter::frame_ok(*old(interp), *final(interp)),
{
    let (location, word) = interp.next_token_word()?;
    let index = match interp.find_word(word.as_str()) {
        Some(info) => info.handler_index,
        None => {
            return Err(interp.script_error_here("Word not found."));
        },
    };
    if (index as u64) > 0x7fffffffffffffffu64 {
        return Err(interp.script_error_here("Handler index out of range."));
    }
    interp.insert_user_instruction(
        Some(location),
        Op::PushConstantValue(Value::Int(index as i64)),
    )
}

/// Execute the popped word name or handler index.
fn word_execute(interp: &mut SorthInterpreter, depth: u64) -> (r: ScriptResult<()>)
    requires
        old(interp).wf(),
    ensures
        SorthInterpreter::frame_ok(*old(interp), *final(interp)),
    decreases depth, 0int, 1int,
{
    if depth == 0 {
        return Err(interp.script_error_here("Call depth exceeded."));
    }
    let value = interp.pop()?;
    interp.execute_value(&value, depth - 1)
}

/// Push whether the popped word name is defined.
fn word_is_defined(interp: &mut SorthInterpreter) -> (r: ScriptResult<()>)
    requires
        old(interp).wf(),
    ensures
        SorthInterpreter::frame_ok(*old(interp), *final(interp)),
{
    let word = interp.pop_as_string()?;
    let found = interp.find_word(word.as_str()).is_some();
    interp.push(Value::Bool(found));
    Ok(())
}

/// Push whether the next word of the stream is defined.
fn word_is_defined_im(interp: &mut SorthInterpreter) -> (r: ScriptResult<()>)
    requires
        old(interp).wf(),
    ensures
        SorthInterpreter::frame_ok(*old(interp), *final(interp)),
{
    let (_, word) = interp.next_token_word()?;
    let found = interp.find_word(word.as_str()).is_some();
    interp.push(Value::Bool(found));
    Ok(())
}

/// Push whether the next word of the stream is not defined.
fn word_is_undefined_im(interp: &mut SorthInterpreter) -> (r: ScriptResult<()>)
    requires
        old(interp).wf(),
    ensures
        SorthInterpreter::frame_ok(*old(interp), *final(interp)),
{
    let (_, word) = interp.next_token_word()?;
    let found = interp.find_word(word.as_str()).is_some();
    interp.push(Value::Bool(!found));
    Ok(())
}

/// Start a word definition: read the new word's name from the stream and open
/// a construction for its body.
fn word_start_word(interp: &mut SorthInterpreter) -> (r: ScriptResult<()>)
    requires
        old(interp).wf(),
    ensures
        SorthInterpreter::frame_ok(*old(interp), *final(interp)),
{
    let token = interp.next_token()?;
    let (location, name) = match token {
        Token::Word(location, name) => (location, name),
        Token::Number(location, value) => (location, i64_to_string(value)),
        Token::String(_, _) => {
            return Err(interp.script_error_here("A string can not name a word."));
        },
    };
    interp.construction_new()?;
    interp.construction_set_name_location(name, location)
}

/// Finish a word definition: close the construction, resolve its jumps, and
/// register the new word.
fn word_end_word(interp: &mut SorthInterpreter) -> (r: ScriptResult<()>)
    requires
        old(interp).wf(),
    ensures
        SorthInterpreter::frame_ok(*old(interp), *final(interp)),
{
    let construction = interp.construction_pop()?;
    let mut code = construction.code;
    let resolved = crate::compilation::resolve_jumps_code(&mut code);
    if !resolved {
        return Err(interp.script_error_here("Unresolved jump label in word definition."));
    }
    let path = construction.location.path().clone();
    let line = construction.location.line();
    let column = construction.location.column();
    interp.add_word(
        path.as_str(),
        line,
        column,
        construction.name,
        Handler::Scripted(construction.context, code),
        construction.description,
        construction.signature,
        construction.runtime,
        construction.visibility,
        WordType::Scripted,
    );
    Ok(())
}

/// Mark the word being defined as immediate.
fn word_set_runtime(interp: &mut SorthInterpreter) -> (r: ScriptResult<()>)
    requires
        old(interp).wf(),
    ensures
        SorthInterpreter::frame_ok(*old(interp), *final(interp)),
{
    interp.construction_set_runtime(WordRuntime::Immediate)
}

/// Mark the word being defined as hidden from listings.
fn word_set_hidden(interp: &mut SorthInterpreter) -> (r: ScriptResult<()>)
    requires
        old(interp).wf(),
    ensures
        SorthInterpreter::frame_ok(*old(interp), *final(interp)),
{
    interp.construction_set_visibility(WordVisibility::Hidden)
}

/// Mark the word being defined as managing its own context.
fn word_set_contextless(interp: &mut SorthInterpreter) -> (r: ScriptResult<()>)
    requires
        old(interp).wf(),
    ensures
        SorthInterpreter::frame_ok(*old(interp), *final(interp)),
{
    interp.construction_set_context(WordContext::Manual)
}

/// Give the word being defined a description, read from the stream.
fn word_set_description(interp: &mut SorthInterpreter) -> (r: ScriptResult<()>)
    requires
        old(interp).wf(),
    ensures
        SorthInterpreter::frame_ok(*old(interp), *final(interp)),
{
    let description = interp.next_token_string()?;
    interp.construction_set_description(description)
}

/// Give the word being defined a signature, read from the stream.
fn word_set_signature(interp: &mut SorthInterpreter) -> (r: ScriptResult<()>)
    requires
        old(interp).wf(),
    ensures
        SorthInterpreter::frame_ok(*old(interp), *final(interp)),
{
    let signature = interp.next_token_string()?;
    interp.construction_set_signature(signature)
}

/// What each kind test answers for a value: nothing, number, boolean,
/// string, structure, array, buffer, hash table, token, or code, in that
/// order of selectors.
pub open spec fn spec_kind_answer(which: u8, v: Value) -> bool {
    if which == 0 {
        v is Nothing
    } else if which == 1 {
        crate::value::spec_is_numeric(v)
    } else if which == 2 {
        v is Bool
    } else if which == 3 {
        v is String
    } else if which == 4 {
        v is DataObject
    } else if which == 5 {
        v is Vec
    } else if which == 6 {
        v is ByteBuffer
    } else if which == 7 {
        v is HashMap
    } else if which == 8 {
        v is Token
    } else {
        v is Code
    }
}

/// Push one kind test of the popped value.
fn word_value_kind(interp: &mut SorthInterpreter, which: u8) -> (r: ScriptResult<()>)
    requires
        old(interp).wf(),
    ensures
        SorthInterpreter::frame_ok(*old(interp), *final(interp)),
        r is Ok <==> old(interp).stack@.len() > 0,
        r is Ok ==> final(interp).stack@ == old(interp).stack@.drop_last().push(
            Value::Bool(spec_kind_answer(which, old(interp).stack@.last())),
        ),
{
    let value = interp.pop()?;
    let answer = match which {
        0u8 => value.is_none(),
        1u8 => value.is_numeric(),
        2u8 => value.is_bool(),
        3u8 => value.is_string(),
        4u8 => value.is_data_object(),
        5u8 => value.is_vec(),
        6u8 => value.is_byte_buffer(),
        7u8 => value.is_hash_map(),
        8u8 => value.is_token(),
        _ => value.is_code(),
    };
    interp.push(Value::Bool(answer));
    Ok(())
}

/// Push the length of the popped string in characters.
fn word_string_length(interp: &mut SorthInterpreter) -> (r: ScriptResult<()>)
    requires
        old(interp).wf(),
    ensures
        SorthInterpreter::frame_ok(*old(interp), *final(interp)),
        final(interp).store == old(interp).store,
        r is Ok <==> old(interp).stack@.len() > 0 && crate::value::spec_is_stringable(
            old(interp).stack@.last(),
        ) && crate::value::spec_string_val(old(interp).stack@.last()).len()
            <= 0x7fffffffffffffff,
        r is Ok ==> final(interp).stack@ == old(interp).stack@.drop_last().push(
            Value::Int(crate::value::spec_string_val(old(interp).stack@.last()).len() as i64),
        ),
{
    let text = interp.pop_as_string()?;
    let chars = str_to_chars(text.as_str());
    if (chars.len() as u64) > 0x7fffffffffffffffu64 {
        return Err(interp.script_error_here("String too long."));
    }
    interp.push(Value::Int(chars.len() as i64));
    Ok(())
}

/// Insert a string into another string at a character position; a position
/// out of range appends at the end.
fn word_string_insert(interp: &mut SorthInterpreter) -> (r: ScriptResult<()>)
    requires
        old(interp).wf(),
    ensures
        SorthInterpreter::frame_ok(*old(interp), *final(interp)),
{
    let text = interp.pop_as_string()?;
    let index = interp.pop_as_int()?;
    let sub_string = interp.pop_as_string()?;
    let chars = str_to_chars(text.as_str());
    let insert_chars = str_to_chars(sub_string.as_str());
    let position: usize = if index < 0 || (index as u64) > (chars.len() as u64) {
        chars.len()
    } else {
        index as usize
    };
    let mut out: Vec<char> = Vec::new();
    let mut i: usize = 0;
    while i < position
        invariant
            position <= chars@.len(),
            i <= position,
        decreases position - i,
    {
        out.push(chars[i]);
        i = i + 1;
    }
    let mut j: usize = 0;
    while j < insert_chars.len()
        invariant
            j <= insert_chars@.len(),
        decreases insert_chars@.len() - j,
    {
        out.push(insert_chars[j]);
        j = j + 1;
    }
    let mut k: usize = position;
    while k < chars.len()
        invariant
            position <= chars@.len(),
            k <= chars@.len(),
        decreases chars@.len() - k,
    {
        out.push(chars[k]);
        k = k + 1;
    }
    interp.push(Value::String(chars_to_string(&out)));
    Ok(())
}

/// Remove a count of characters from a string starting at a position.
fn word_string_remove(interp: &mut SorthInterpreter) -> (r: ScriptResult<()>)
    requires
        old(interp).wf(),
    ensures
        SorthInterpreter::frame_ok(*old(interp), *final(interp)),
{
    let text = interp.pop_as_string()?;
    let position = interp.pop_as_int()?;
    let count = interp.pop_as_int()?;
    let chars = str_to_chars(text.as_str());
    if position < 0 || (position as u64) >= (chars.len() as u64) {
        return Err(interp.script_error_here("Position out of range for string."));
    }
    let start = position as usize;
    let removed: usize = if count < 0 || (count as u64) > ((chars.len() - start) as u64) {
        chars.len() - start
    } else {
        count as usize
    };
    let mut out: Vec<char> = Vec::new();
    let mut i: usize = 0;
    while i < start
        invariant
            start < chars@.len(),
            i <= start,
        decreases start - i,
    {
        out.push(chars[i]);
        i = i + 1;
    }
    let mut k: usize = start + removed;
    while k < chars.len()
        invariant
            k <= chars@.len() || k >= chars@.len(),
        decreases chars@.len() - k,
    {
        out.push(chars[k]);
        k = k + 1;
    }
    interp.push(Value::String(chars_to_string(&out)));
    Ok(())
}

/// Find the first occurrence of one string inside another, pushing the
/// character index of the match or minus one.
fn word_string_find(interp: &mut SorthInterpreter) -> (r: ScriptResult<()>)
    requires
        old(interp).wf(),
    ensures
        SorthInterpreter::frame_ok(*old(interp), *final(interp)),
{
    let text = interp.pop_as_string()?;
    let search = interp.pop_as_string()?;
    let chars = str_to_chars(text.as_str());
    let needle = str_to_chars(search.as_str());
    if needle.len() == 0 {
        interp.push(Value::Int(0));
        return Ok(());
    }
    if needle.len() > chars.len() {
        interp.push(Value::Int(-1));
        return Ok(());
    }
    if (chars.len() as u64) > 0x7fffffffffffffffu64 {
        return Err(interp.script_error_here("String too long."));
    }
    let total = chars.len();
    let limit = total - needle.len();
    let mut i: usize = 0;
    while i <= limit
        invariant
            interp.wf(),
            interp.spec_context_count() == old(interp).spec_context_count(),
            1 <= needle@.len() <= chars@.len(),
            total == chars@.len(),
            limit == chars@.len() - needle@.len(),
            chars@.len() <= 0x7fffffffffffffff,
            i <= limit + 1,
        decreases chars@.len() - i,
    {
        let mut j: usize = 0;
        let mut all = true;
        while j < needle.len()
            invariant
                total == chars@.len(),
                i + needle@.len() <= chars@.len(),
                chars@.len() <= 0x7fffffffffffffff,
                j <= needle@.len(),
            decreases needle@.len() - j,
        {
            if chars[i + j] != needle[j] {
                all = false;
                break;
            }
            j = j + 1;
        }
        if all {
            interp.push(Value::Int(i as i64));
            return Ok(());
        }
        i = i + 1;
    }
    interp.push(Value::Int(-1));
    Ok(())
}

/// Read one character of a string, by character index, pushing it as a one
/// character string.
fn word_string_index_read(interp: &mut SorthInterpreter) -> (r: ScriptResult<()>)
    requires
        old(interp).wf(),
    ensures
        SorthInterpreter::frame_ok(*old(interp), *final(interp)),
{
    let text = interp.pop_as_string()?;
    let index = interp.pop_as_int()?;
    let chars = str_to_chars(text.as_str());
    if index < 0 || (index as u64) >= (chars.len() as u64) {
        return Err(interp.script_error_here("Character index out of range for string."));
    }
    let mut one: Vec<char> = Vec::new();
    one.push(chars[index as usize]);
    interp.push(Value::String(chars_to_string(&one)));
    Ok(())
}

/// Convert the popped string to a number.  This runtime holds integers only:
/// a string with a decimal point is an error.
fn word_string_to_number(interp: &mut SorthInterpreter) -> (r: ScriptResult<()>)
    requires
        old(interp).wf(),
    ensures
        SorthInterpreter::frame_ok(*old(interp), *final(interp)),
{
    let text = interp.pop_as_string()?;
    match crate::tokenizing::to_numeric(text.as_str()) {
        Some(number) => {
            interp.push(Value::Int(number));
            Ok(())
        },
        None => Err(interp.script_error_here("Could not convert string to a number.")),
    }
}

/// Convert the popped value to a string: stringable values read directly, a
/// boolean renders as its name.  Reference values have no rendering here.
fn word_to_string(interp: &mut SorthInterpreter) -> (r: ScriptResult<()>)
    requires
        old(interp).wf(),
    ensures
        SorthInterpreter::frame_ok(*old(interp), *final(interp)),
{
    let value = interp.pop()?;
    if value.is_stringable() {
        let text = value.get_string_val();
        interp.push(Value::String(text));
        return Ok(());
    }
    match value {
        Value::Bool(b) => {
            let text = if b {
                "true".to_owned()
            } else {
                "false".to_owned()
            };
            interp.push(Value::String(text));
            Ok(())
        },
        _ => Err(interp.script_error_here("Value has no string rendering.")),
    }
}

/// Convert the popped number to its hexadecimal rendering.  A one character
/// string renders the character's code.
fn word_hex(interp: &mut SorthInterpreter) -> (r: ScriptResult<()>)
    requires
        old(interp).wf(),
    ensures
        SorthInterpreter::frame_ok(*old(interp), *final(interp)),
{
    let value = interp.pop()?;
    let number: u64 = if value.is_numeric() {
        value.get_int_val() as u64
    } else if value.is_string() {
        let text = value.get_string_val();
        let chars = str_to_chars(text.as_str());
        if chars.len() == 1 {
            chars[0] as u64
        } else {
            0
        }
    } else {
        return Err(interp.script_error_here("Value is not a number."));
    };
    interp.push(Value::String(u64_to_hex_string(number)));
    Ok(())
}

/// The hexadecimal digit characters of a number, most significant first.
fn u64_to_hex_string(n: u64) -> (r: String)
{
    let mut digits: Vec<char> = Vec::new();
    let mut value = n;
    loop
        invariant
            true,
        decreases value,
    {
        let d = (value % 16) as u8;
        let c: char = if d < 10 {
            (d + 48) as char
        } else {
            (d + 87) as char
        };
        digits.push(c);
        value = value / 16;
        if value == 0 {
            break;
        }
    }
    let mut out: Vec<char> = Vec::new();
    let mut i: usize = digits.len();
    while i > 0
        invariant
            i <= digits@.len(),
        decreases i,
    {
        i = i - 1;
        out.push(digits[i]);
    }
    chars_to_string(&out)
}

/// Pop the pieces of a structure definition, register the definition, and
/// synthesize its accessor words.
fn word_data_definition(interp: &mut SorthInterpreter) -> (r: ScriptResult<()>)
    requires
        old(interp).wf(),
    ensures
        SorthInterpreter::frame_ok(*old(interp), *final(interp)),
{
    let found_initializers = interp.pop_as_bool()?;
    let is_hidden = interp.pop_as_bool()?;
    let fields_value = interp.pop()?;
    let name = interp.pop_as_string()?;
    let fields_index = match fields_value {
        Value::Vec(i) => i,
        _ => {
            return Err(interp.script_error_here("Expected an array of field names."));
        },
    };
    if fields_index >= interp.store.arrays.len() {
        return Err(interp.script_error_here("Array reference is dead."));
    }
    let field_values = clone_values(&interp.store.arrays[fields_index]);
    let mut field_names: Vec<String> = Vec::new();
    let mut i: usize = 0;
    while i < field_values.len()
        invariant
            interp.wf(),
            interp.spec_context_count() == old(interp).spec_context_count(),
            i <= field_values@.len(),
        decreases field_values@.len() - i,
    {
        if !field_values[i].is_stringable() {
            return Err(interp.script_error_here("Field names must be strings."));
        }
        field_names.push(field_values[i].get_string_val());
        i = i + 1;
    }
    let defaults: Vec<Value> = if found_initializers {
        let defaults_value = interp.pop()?;
        let defaults_index = match defaults_value {
            Value::Vec(di) => di,
            _ => {
                return Err(interp.script_error_here("Expected an array of field defaults."));
            },
        };
        if defaults_index >= interp.store.arrays.len() {
            return Err(interp.script_error_here("Array reference is dead."));
        }
        clone_values(&interp.store.arrays[defaults_index])
    } else {
        let mut filler: Vec<Value> = Vec::new();
        let mut k: usize = 0;
        while k < field_names.len()
            invariant
                k <= field_names@.len(),
            decreases field_names@.len() - k,
        {
            filler.push(Value::Nothing);
            k = k + 1;
        }
        filler
    };
    let location = match &interp.current_location {
        Some(loc) => loc.clone(),
        None => SourceLocation::new(),
    };
    register_structure(interp, name, field_names, defaults, is_hidden, &location)
}

/// Register a structure definition and the accessor words its fields get: a
/// creation word, and per field an index word and words that read and write
/// the field through an instance or through a variable holding one.
pub fn register_structure(
    interp: &mut SorthInterpreter,
    name: String,
    field_names: Vec<String>,
    defaults: Vec<Value>,
    is_hidden: bool,
    location: &SourceLocation,
) -> (r: ScriptResult<()>)
    requires
        old(interp).wf(),
    ensures
        SorthInterpreter::frame_ok(*old(interp), *final(interp)),
        final(interp).stack == old(interp).stack,
        final(interp).variables.items == old(interp).variables.items,
        final(interp).constructors == old(interp).constructors,
        r is Ok <==> field_names@.len() <= 0x7fffffffffffffff,
        r is Ok ==> final(interp).store@.definitions.len() == old(interp).store@.definitions.len() + 1 && final(interp).store@.definitions.last() == (
        DataObjectDefinition {
            name: name,
            field_names: field_names,
            defaults: defaults,
            visibility: if is_hidden {
                WordVisibility::Hidden
            } else {
                WordVisibility::Visible
            },
        }) && final(interp).store@.definitions.drop_last() == old(interp).store@.definitions
            && final(interp).data_definitions.items@ == old(interp).data_definitions.items@.push(old(interp).store@.definitions.len() as usize),
{
    if (field_names.len() as u64) > 0x7fffffffffffffffu64 {
        return Err(interp.script_error_here("Too many fields."));
    }
    let visibility = if is_hidden {
        WordVisibility::Hidden
    } else {
        WordVisibility::Visible
    };
    let field_names_copy = copy_strings(&field_names);
    let definition = DataObjectDefinition {
        name: name.clone(),
        field_names,
        defaults,
        visibility,
    };
    let definition_index = interp.store.alloc_definition(definition);
    let _ = interp.data_definitions.insert(definition_index);
    let ghost store_snapshot = interp.store;
    let ghost items_snapshot = interp.data_definitions.items@;
    let path = location.path().clone();
    let line = location.line();
    let column = location.column();
    let new_name = join_name(&name, ".new");
    interp.add_word(
        path.as_str(),
        line,
        column,
        new_name,
        Handler::StructNew(definition_index),
        String::from_str("Create a new instance of the structure."),
        String::from_str(" -- instance"),
        WordRuntime::Normal,
        visibility,
        WordType::Native,
    );
    let mut i: usize = 0;
    while i < field_names_copy.len()
        invariant
            interp.wf(),
            interp.spec_context_count() == old(interp).spec_context_count(),
            interp.store == store_snapshot,
            interp.data_definitions.items@ == items_snapshot,
            interp.stack == old(interp).stack,
            interp.variables.items == old(interp).variables.items,
            interp.constructors == old(interp).constructors,
            i <= field_names_copy@.len(),
        decreases field_names_copy@.len() - i,
    {
        let field = &field_names_copy[i];
        let base = join_name(&name, ".");
        let field_base = join_name_str(&base, field.as_str());
        interp.add_word(
            path.as_str(),
            line,
            column,
            field_base.clone(),
            Handler::PushValue(Value::Int(i as i64)),
            String::from_str("Push the field's index."),
            String::from_str(" -- index"),
            WordRuntime::Normal,
            visibility,
            WordType::Native,
        );
        interp.add_word(
            path.as_str(),
            line,
            column,
            join_name_str(&field_base, "!"),
            Handler::StructWrite(i),
            String::from_str("Write to the structure field."),
            String::from_str("value instance -- "),
            WordRuntime::Normal,
            visibility,
            WordType::Native,
        );
        interp.add_word(
            path.as_str(),
            line,
            column,
            join_name_str(&field_base, "@"),
            Handler::StructRead(i),
            String::from_str("Read from the structure field."),
            String::from_str("instance -- value"),
            WordRuntime::Normal,
            visibility,
            WordType::Native,
        );
        interp.add_word(
            path.as_str(),
            line,
            column,
            join_name_str(&field_base, "!!"),
            Handler::StructVarWrite(i),
            String::from_str("Write to the field of a structure variable."),
            String::from_str("value variable -- "),
            WordRuntime::Normal,
            visibility,
            WordType::Native,
        );
        interp.add_word(
            path.as_str(),
            line,
            column,
            join_name_str(&field_base, "@@"),
            Handler::StructVarRead(i),
            String::from_str("Read from the field of a structure variable."),
            String::from_str("variable -- value"),
            WordRuntime::Normal,
            visibility,
            WordType::Native,
        );
        i = i + 1;
    }
    Ok(())
}

/// Copy a list of strings.
fn copy_strings(items: &Vec<String>) -> (r: Vec<String>)
    ensures
        r@ == items@,
{
    let mut out: Vec<String> = Vec::new();
    let mut i: usize = 0;
    while i < items.len()
        invariant
            i <= items@.len(),
            out@ == items@.subrange(0, i as int),
        decreases items@.len() - i,
    {
        out.push(items[i].clone());
        i = i + 1;
        assert(out@ =~= items@.subrange(0, i as int));
    }
    assert(out@ =~= items@);
    out
}

/// Join a name and a suffix into a new string.
fn join_name(name: &String, suffix: &str) -> (r: String)
    ensures
        r@ == name@ + suffix@,
{
    let mut chars: Vec<char> = Vec::new();
    push_str_chars(name.as_str(), &mut chars);
    push_str_chars(suffix, &mut chars);
    chars_to_string(&chars)
}

/// Join a name and a suffix into a new string.
fn join_name_str(name: &String, suffix: &str) -> (r: String)
    ensures
        r@ == name@ + suffix@,
{
    join_name(name, suffix)
}

/// Read a field of a structure: pop the field index, pop the instance, and
/// push the field's value.
fn word_read_field(interp: &mut SorthInterpreter) -> (r: ScriptResult<()>)
    requires
        old(interp).wf(),
    ensures
        SorthInterpreter::frame_ok(*old(interp), *final(interp)),
{
    let index = interp.pop_as_usize()?;
    interp.struct_read(index)
}

/// Write a field of a structure: pop the field index, pop the instance, pop a
/// value, and write it.
fn word_write_field(interp: &mut SorthInterpreter) -> (r: ScriptResult<()>)
    requires
        old(interp).wf(),
    ensures
        SorthInterpreter::frame_ok(*old(interp), *final(interp)),
{
    let index = interp.pop_as_usize()?;
    interp.struct_write(index)
}

/// Call a word for each field of a structure, with the field's name and value
/// pushed for each call.
fn word_structure_iterate(interp: &mut SorthInterpreter, depth: u64) -> (r: ScriptResult<()>)
    requires
        old(interp).wf(),
    ensures
        SorthInterpreter::frame_ok(*old(interp), *final(interp)),
    decreases depth, 0int, 1int,
{
    if depth == 0 {
        return Err(interp.script_error_here("Call depth exceeded."));
    }
    let value = interp.pop()?;
    let object_index = match value {
        Value::DataObject(i) => i,
        _ => {
            return Err(interp.script_error_here("Expected a data object."));
        },
    };
    let word_index = interp.pop_as_usize()?;
    if object_index >= interp.store.objects.len() {
        return Err(interp.script_error_here("Data object reference is dead."));
    }
    let definition_index = interp.store.objects[object_index].definition_index;
    if definition_index >= interp.store.definitions.len() {
        return Err(interp.script_error_here("Structure definition not found."));
    }
    let names = copy_strings(&interp.store.definitions[definition_index].field_names);
    let fields = clone_values(&interp.store.objects[object_index].fields);
    if names.len() != fields.len() {
        return Err(interp.script_error_here("Structure fields out of step with definition."));
    }
    let location = match &interp.current_location {
        Some(loc) => loc.clone(),
        None => SourceLocation::new(),
    };
    let mut i: usize = 0;
    while i < fields.len()
        invariant
            interp.wf(),
            interp.spec_context_count() == old(interp).spec_context_count(),
            names@.len() == fields@.len(),
            i <= fields@.len(),
            depth >= 1,
        decreases fields@.len() - i,
    {
        interp.push(Value::String(names[i].clone()));
        interp.push(fields[i].clone());
        interp.execute_word_index(&location, word_index, depth - 1)?;
        i = i + 1;
    }
    Ok(())
}

/// Push whether the popped structure has a field of the popped name.
fn word_structure_field_exists(interp: &mut SorthInterpreter) -> (r: ScriptResult<()>)
    requires
        old(interp).wf(),
    ensures
        SorthInterpreter::frame_ok(*old(interp), *final(interp)),
{
    let value = interp.pop()?;
    let object_index = match value {
        Value::DataObject(i) => i,
        _ => {
            return Err(interp.script_error_here("Expected a data object."));
        },
    };
    let field_name = interp.pop_as_string()?;
    if object_index >= interp.store.objects.len() {
        return Err(interp.script_error_here("Data object reference is dead."));
    }
    let definition_index = interp.store.objects[object_index].definition_index;
    if definition_index >= interp.store.definitions.len() {
        return Err(interp.script_error_here("Structure definition not found."));
    }
    let names = copy_strings(&interp.store.definitions[definition_index].field_names);
    let found = find_string(&names, &field_name).is_some();
    interp.push(Value::Bool(found));
    Ok(())
}

/// Pop two values and push whether they are equal under the language's
/// equality, as a boolean.
fn word_compare_values(interp: &mut SorthInterpreter) -> (r: ScriptResult<()>)
    requires
        old(interp).wf(),
    ensures
        SorthInterpreter::frame_ok(*old(interp), *final(interp)),
        r is Ok ==> old(interp).stack@.len() >= 2 && final(interp).stack@ == old(interp).stack@.drop_last().drop_last().push(
            Value::Bool(
                crate::store::spec_value_eq(
                    old(interp).store@,
                    old(interp).stack@[old(interp).stack@.len() - 2],
                    old(interp).stack@.last(),
                    EQ_DEPTH as nat,
                ),
            ),
        ),
        old(interp).stack@.len() < 2 ==> r is Err,
{
    let eq = values_equal(interp)?;
    interp.push(Value::Bool(eq));
    Ok(())
}

/// Create a new array of the popped size, filled with nothing values.
fn word_array_new(interp: &mut SorthInterpreter) -> (r: ScriptResult<()>)
    requires
        old(interp).wf(),
    ensures
        SorthInterpreter::frame_ok(*old(interp), *final(interp)),
        crate::store::spec_same_but_arrays(final(interp).store@, old(interp).store@),
        r is Ok <==> old(interp).stack@.len() > 0 && crate::value::spec_is_numeric(
            old(interp).stack@.last(),
        ) && 0 <= crate::value::spec_int_val(old(interp).stack@.last()) <= usize::MAX,
        r is Ok ==> final(interp).stack@ == old(interp).stack@.drop_last().push(
            Value::Vec(old(interp).store@.arrays.len() as usize),
        ) && final(interp).store@.arrays == old(interp).store@.arrays.push(
            Seq::new(
                crate::value::spec_int_val(old(interp).stack@.last()) as nat,
                |j: int| Value::Nothing,
            ),
        ),
{
    let size = interp.pop_as_usize()?;
    let mut values: Vec<Value> = Vec::new();
    let mut i: usize = 0;
    while i < size
        invariant
            i <= size,
            values@.len() == i,
            forall|j: int| 0 <= j < i ==> values@[j] == Value::Nothing,
        decreases size - i,
    {
        values.push(Value::Nothing);
        i = i + 1;
    }
    proof {
        assert(values@ =~= Seq::new(size as nat, |j: int| Value::Nothing));
    }
    let index = interp.store.alloc_array(values);
    interp.push(Value::Vec(index));
    proof {
        assert(interp.stack@.drop_last() =~= old(interp).stack@.drop_last());
    }
    Ok(())
}

/// Pop an array reference, with its store index checked live.
fn pop_array_index(interp: &mut SorthInterpreter) -> (r: ScriptResult<usize>)
    requires
        old(interp).wf(),
    ensures
        SorthInterpreter::frame_ok(*old(interp), *final(interp)),
        final(interp).store == old(interp).store,
        r is Ok <==> old(interp).stack@.len() > 0 && (old(interp).stack@.last() matches Value::Vec(i) && i < old(interp).store@.arrays.len()),
        r matches Ok(i) ==> i < old(interp).store@.arrays.len() && old(interp).stack@.last()
            == Value::Vec(i) && final(interp).stack@ == old(interp).stack@.drop_last(),
{
    let value = interp.pop()?;
    match value {
        Value::Vec(i) => {
            if i >= interp.store.arrays.len() {
                return Err(interp.script_error_here("Array reference is dead."));
            }
            Ok(i)
        },
        _ => Err(interp.script_error_here("Expected an array.")),
    }
}

/// Push the size of the popped array.
fn word_array_size(interp: &mut SorthInterpreter) -> (r: ScriptResult<()>)
    requires
        old(interp).wf(),
    ensures
        SorthInterpreter::frame_ok(*old(interp), *final(interp)),
        final(interp).store == old(interp).store,
        r is Ok <==> old(interp).stack@.len() > 0 && (old(interp).stack@.last() matches Value::Vec(i) && i < old(interp).store@.arrays.len() && old(interp).store@.arrays[i as int].len() <= 0x7fffffffffffffff),
        r is Ok ==> (old(interp).stack@.last() matches Value::Vec(i) && final(interp).stack@ == old(interp).stack@.drop_last().push(
            Value::Int(old(interp).store@.arrays[i as int].len() as i64),
        )),
{
    let index = pop_array_index(interp)?;
    let len = interp.store.arrays[index].len();
    if (len as u64) > 0x7fffffffffffffffu64 {
        return Err(interp.script_error_here("Array too large."));
    }
    interp.push(Value::Int(len as i64));
    Ok(())
}

/// Write a value into an array: pop the array, the position, and the value.
fn word_array_write_index(interp: &mut SorthInterpreter) -> (r: ScriptResult<()>)
    requires
        old(interp).wf(),
    ensures
        SorthInterpreter::frame_ok(*old(interp), *final(interp)),
        crate::store::spec_same_but_arrays(final(interp).store@, old(interp).store@),
        r is Ok <==> old(interp).stack@.len() >= 3 && (old(interp).stack@.last() matches Value::Vec(i) && i < old(interp).store@.arrays.len()
            && crate::value::spec_is_numeric(old(interp).stack@[old(interp).stack@.len() - 2]) && 0
            <= crate::value::spec_int_val(old(interp).stack@[old(interp).stack@.len() - 2])
            <= usize::MAX && crate::value::spec_int_val(
            old(interp).stack@[old(interp).stack@.len() - 2],
        ) < old(interp).store@.arrays[i as int].len()),
        r is Ok ==> (old(interp).stack@.last() matches Value::Vec(i) && final(interp).stack@ == old(interp).stack@.drop_last().drop_last().drop_last() && final(interp).store@.arrays == old(interp).store@.arrays.update(
            i as int,
            old(interp).store@.arrays[i as int].update(
                crate::value::spec_int_val(old(interp).stack@[old(interp).stack@.len() - 2]) as int,
                old(interp).stack@[old(interp).stack@.len() - 3],
            ),
        )),
        r is Err ==> final(interp).store@.arrays == old(interp).store@.arrays,
{
    let index = pop_array_index(interp)?;
    let position = interp.pop_as_usize()?;
    let value = interp.pop()?;
    if position >= interp.store.arrays[index].len() {
        return Err(interp.script_error_here("Index out of bounds for array."));
    }
    let mut items = clone_values(&interp.store.arrays[index]);
    items.set(position, value);
    interp.store.arrays.set(index, items);
    Ok(())
}

/// Read a value from an array: pop the array and the position, push the
/// value.
fn word_array_read_index(interp: &mut SorthInterpreter) -> (r: ScriptResult<()>)
    requires
        old(interp).wf(),
    ensures
        SorthInterpreter::frame_ok(*old(interp), *final(interp)),
        final(interp).store == old(interp).store,
        r is Ok <==> old(interp).stack@.len() >= 2 && (old(interp).stack@.last() matches Value::Vec(i) && i < old(interp).store@.arrays.len()
            && crate::value::spec_is_numeric(old(interp).stack@[old(interp).stack@.len() - 2]) && 0
            <= crate::value::spec_int_val(old(interp).stack@[old(interp).stack@.len() - 2])
            <= usize::MAX && crate::value::spec_int_val(
            old(interp).stack@[old(interp).stack@.len() - 2],
        ) < old(interp).store@.arrays[i as int].len()),
        r is Ok ==> (old(interp).stack@.last() matches Value::Vec(i) && final(interp).stack@ == old(interp).stack@.drop_last().drop_last().push(
            old(interp).store@.arrays[i as int][crate::value::spec_int_val(
                old(interp).stack@[old(interp).stack@.len() - 2],
            ) as int],
        )),
{
    let index = pop_array_index(interp)?;
    let position = interp.pop_as_usize()?;
    if position >= interp.store.arrays[index].len() {
        return Err(interp.script_error_here("Index out of bounds for array."));
    }
    let value = interp.store.arrays[index][position].clone();
    interp.push(value);
    Ok(())
}

/// Resize an array, padding new space with nothing values.
fn word_array_resize(interp: &mut SorthInterpreter) -> (r: ScriptResult<()>)
    requires
        old(interp).wf(),
    ensures
        SorthInterpreter::frame_ok(*old(interp), *final(interp)),
        crate::store::spec_same_but_arrays(final(interp).store@, old(interp).store@),
        r is Ok <==> old(interp).stack@.len() >= 2 && (old(interp).stack@.last() matches Value::Vec(i) && i < old(interp).store@.arrays.len()
            && crate::value::spec_is_numeric(old(interp).stack@[old(interp).stack@.len() - 2]) && 0
            <= crate::value::spec_int_val(old(interp).stack@[old(interp).stack@.len() - 2])
            <= usize::MAX),
        r is Ok ==> (old(interp).stack@.last() matches Value::Vec(i) && final(interp).stack@ == old(interp).stack@.drop_last().drop_last() && final(interp).store@.arrays == old(interp).store@.arrays.update(
            i as int,
            Seq::new(
                crate::value::spec_int_val(old(interp).stack@[old(interp).stack@.len() - 2]) as nat,
                |j: int|
                    if j < old(interp).store@.arrays[i as int].len() {
                        old(interp).store@.arrays[i as int][j]
                    } else {
                        Value::Nothing
                    },
            ),
        )),
{
    let index = pop_array_index(interp)?;
    let ghost before = interp.store@.arrays[index as int];
    let new_size = interp.pop_as_usize()?;
    let mut items = clone_values(&interp.store.arrays[index]);
    if new_size <= items.len() {
        items.truncate(new_size);
        proof {
            assert(items@ =~= Seq::new(
                new_size as nat,
                |j: int|
                    if j < before.len() {
                        before[j]
                    } else {
                        Value::Nothing
                    },
            ));
        }
    } else {
        let mut i = items.len();
        while i < new_size
            invariant
                i <= new_size,
                items@.len() == i,
                before.len() <= i,
                forall|j: int| 0 <= j < before.len() ==> items@[j] == before[j],
                forall|j: int| before.len() <= j < i ==> items@[j] == Value::Nothing,
            decreases new_size - i,
        {
            items.push(Value::Nothing);
            i = i + 1;
        }
        proof {
            assert(items@ =~= Seq::new(
                new_size as nat,
                |j: int|
                    if j < before.len() {
                        before[j]
                    } else {
                        Value::Nothing
                    },
            ));
        }
    }
    interp.store.arrays.set(index, items);
    Ok(())
}

/// Insert a value into an array at a position, growing it by one.
fn word_array_insert(interp: &mut SorthInterpreter) -> (r: ScriptResult<()>)
    requires
        old(interp).wf(),
    ensures
        SorthInterpreter::frame_ok(*old(interp), *final(interp)),
        crate::store::spec_same_but_arrays(final(interp).store@, old(interp).store@),
        r is Ok <==> old(interp).stack@.len() >= 3 && (old(interp).stack@.last() matches Value::Vec(i) && i < old(interp).store@.arrays.len()
            && crate::value::spec_is_numeric(old(interp).stack@[old(interp).stack@.len() - 2]) && 0
            <= crate::value::spec_int_val(old(interp).stack@[old(interp).stack@.len() - 2])
            <= usize::MAX && crate::value::spec_int_val(
            old(interp).stack@[old(interp).stack@.len() - 2],
        ) <= old(interp).store@.arrays[i as int].len()),
        r is Ok ==> (old(interp).stack@.last() matches Value::Vec(i) && final(interp).stack@ == old(interp).stack@.drop_last().drop_last().drop_last() && final(interp).store@.arrays == old(interp).store@.arrays.update(
            i as int,
            old(interp).store@.arrays[i as int].insert(
                crate::value::spec_int_val(old(interp).stack@[old(interp).stack@.len() - 2]) as int,
                old(interp).stack@[old(interp).stack@.len() - 3],
            ),
        )),
{
    let index = pop_array_index(interp)?;
    let position = interp.pop_as_usize()?;
    let value = interp.pop()?;
    let mut items = clone_values(&interp.store.arrays[index]);
    if position > items.len() {
        return Err(interp.script_error_here("Index out of bounds for array."));
    }
    items.insert(position, value);
    interp.store.arrays.set(index, items);
    Ok(())
}

/// Remove the value of an array at a position, shrinking it by one.
fn word_array_delete(interp: &mut SorthInterpreter) -> (r: ScriptResult<()>)
    requires
        old(interp).wf(),
    ensures
        SorthInterpreter::frame_ok(*old(interp), *final(interp)),
        crate::store::spec_same_but_arrays(final(interp).store@, old(interp).store@),
        r is Ok <==> old(interp).stack@.len() >= 2 && (old(interp).stack@.last() matches Value::Vec(i) && i < old(interp).store@.arrays.len()
            && crate::value::spec_is_numeric(old(interp).stack@[old(interp).stack@.len() - 2]) && 0
            <= crate::value::spec_int_val(old(interp).stack@[old(interp).stack@.len() - 2])
            <= usize::MAX && crate::value::spec_int_val(
            old(interp).stack@[old(interp).stack@.len() - 2],
        ) < old(interp).store@.arrays[i as int].len()),
        r is Ok ==> (old(interp).stack@.last() matches Value::Vec(i) && final(interp).stack@ == old(interp).stack@.drop_last().drop_last() && final(interp).store@.arrays == old(interp).store@.arrays.update(
            i as int,
            old(interp).store@.arrays[i as int].remove(
                crate::value::spec_int_val(old(interp).stack@[old(interp).stack@.len() - 2]) as int,
            ),
        )),
{
    let index = pop_array_index(interp)?;
    let position = interp.pop_as_usize()?;
    let mut items = clone_values(&interp.store.arrays[index]);
    if position >= items.len() {
        return Err(interp.script_error_here("Index out of bounds for array."));
    }
    let _ = items.remove(position);
    interp.store.arrays.set(index, items);
    Ok(())
}

/// Append deep clones of a source array's items onto a destination array,
/// leaving the destination on the stack.
fn word_array_plus(interp: &mut SorthInterpreter) -> (r: ScriptResult<()>)
    requires
        old(interp).wf(),
    ensures
        SorthInterpreter::frame_ok(*old(interp), *final(interp)),
{
    let source = pop_array_index(interp)?;
    let dest = pop_array_index(interp)?;
    let source_items = clone_values(&interp.store.arrays[source]);
    let mut dest_items = clone_values(&interp.store.arrays[dest]);
    let mut i: usize = 0;
    while i < source_items.len()
        invariant
            interp.wf(),
            interp.spec_context_count() == old(interp).spec_context_count(),
            i <= source_items@.len(),
        decreases source_items@.len() - i,
    {
        let cloned = match interp.store.deep_clone(&source_items[i], CLONE_DEPTH) {
            Some(c) => c,
            None => {
                return Err(interp.script_error_here("Could not clone an array item."));
            },
        };
        dest_items.push(cloned);
        i = i + 1;
    }
    if dest >= interp.store.arrays.len() {
        return Err(interp.script_error_here("Array reference is dead."));
    }
    interp.store.arrays.set(dest, dest_items);
    interp.push(Value::Vec(dest));
    Ok(())
}

/// Push a value onto the front of an array.
fn word_array_push_front(interp: &mut SorthInterpreter) -> (r: ScriptResult<()>)
    requires
        old(interp).wf(),
    ensures
        SorthInterpreter::frame_ok(*old(interp), *final(interp)),
        crate::store::spec_same_but_arrays(final(interp).store@, old(interp).store@),
        r is Ok <==> old(interp).stack@.len() >= 2 && (old(interp).stack@.last() matches Value::Vec(i) && i < old(interp).store@.arrays.len()),
        r is Ok ==> (old(interp).stack@.last() matches Value::Vec(i) && final(interp).stack@ == old(interp).stack@.drop_last().drop_last() && final(interp).store@.arrays == old(interp).store@.arrays.update(
            i as int,
            old(interp).store@.arrays[i as int].insert(
                0,
                old(interp).stack@[old(interp).stack@.len() - 2],
            ),
        )),
{
    let index = pop_array_index(interp)?;
    let value = interp.pop()?;
    let mut items = clone_values(&interp.store.arrays[index]);
    items.insert(0, value);
    interp.store.arrays.set(index, items);
    Ok(())
}

/// Push a value onto the back of an array.
fn word_array_push_back(interp: &mut SorthInterpreter) -> (r: ScriptResult<()>)
    requires
        old(interp).wf(),
    ensures
        SorthInterpreter::frame_ok(*old(interp), *final(interp)),
        crate::store::spec_same_but_arrays(final(interp).store@, old(interp).store@),
        r is Ok <==> old(interp).stack@.len() >= 2 && (old(interp).stack@.last() matches Value::Vec(i) && i < old(interp).store@.arrays.len()),
        r is Ok ==> (old(interp).stack@.last() matches Value::Vec(i) && final(interp).stack@ == old(interp).stack@.drop_last().drop_last() && final(interp).store@.arrays == old(interp).store@.arrays.update(
            i as int,
            old(interp).store@.arrays[i as int].push(
                old(interp).stack@[old(interp).stack@.len() - 2],
            ),
        )),
{
    let index = pop_array_index(interp)?;
    let value = interp.pop()?;
    let mut items = clone_values(&interp.store.arrays[index]);
    items.push(value);
    interp.store.arrays.set(index, items);
    Ok(())
}

/// Pop a value from the front of an array and push it.
fn word_array_pop_front(interp: &mut SorthInterpreter) -> (r: ScriptResult<()>)
    requires
        old(interp).wf(),
    ensures
        SorthInterpreter::frame_ok(*old(interp), *final(interp)),
        crate::store::spec_same_but_arrays(final(interp).store@, old(interp).store@),
        r is Ok <==> old(interp).stack@.len() >= 1 && (old(interp).stack@.last() matches Value::Vec(i) && i < old(interp).store@.arrays.len() && old(interp).store@.arrays[i as int].len() > 0),
        r is Ok ==> (old(interp).stack@.last() matches Value::Vec(i) && final(interp).stack@ == old(interp).stack@.drop_last().push(old(interp).store@.arrays[i as int][0]) && final(interp).store@.arrays == old(interp).store@.arrays.update(
            i as int,
            old(interp).store@.arrays[i as int].remove(0),
        )),
{
    let index = pop_array_index(interp)?;
    let mut items = clone_values(&interp.store.arrays[index]);
    if items.len() == 0 {
        return Err(interp.script_error_here("Popped from an empty array."));
    }
    let value = items.remove(0);
    interp.store.arrays.set(index, items);
    interp.push(value);
    Ok(())
}

/// Pop a value from the back of an array and push it.
fn word_array_pop_back(interp: &mut SorthInterpreter) -> (r: ScriptResult<()>)
    requires
        old(interp).wf(),
    ensures
        SorthInterpreter::frame_ok(*old(interp), *final(interp)),
        crate::store::spec_same_but_arrays(final(interp).store@, old(interp).store@),
        r is Ok <==> old(interp).stack@.len() >= 1 && (old(interp).stack@.last() matches Value::Vec(i) && i < old(interp).store@.arrays.len() && old(interp).store@.arrays[i as int].len() > 0),
        r is Ok ==> (old(interp).stack@.last() matches Value::Vec(i) && final(interp).stack@ == old(interp).stack@.drop_last().push(old(interp).store@.arrays[i as int].last()) && final(interp).store@.arrays == old(interp).store@.arrays.update(
            i as int,
            old(interp).store@.arrays[i as int].drop_last(),
        )),
{
    let index = pop_array_index(interp)?;
    let mut items = clone_values(&interp.store.arrays[index]);
    let value = match items.pop() {
        Some(v) => v,
        None => {
            return Err(interp.script_error_here("Popped from an empty array."));
        },
    };
    interp.store.arrays.set(index, items);
    interp.push(value);
    Ok(())
}

/// Create a new byte buffer of the popped size.
fn word_buffer_new(interp: &mut SorthInterpreter) -> (r: ScriptResult<()>)
    requires
        old(interp).wf(),
    ensures
        SorthInterpreter::frame_ok(*old(interp), *final(interp)),
        crate::store::spec_same_but_buffers(final(interp).store@, old(interp).store@),
        r is Ok <==> old(interp).stack@.len() > 0 && crate::value::spec_is_numeric(
            old(interp).stack@.last(),
        ) && 0 <= crate::value::spec_int_val(old(interp).stack@.last()) <= usize::MAX,
        r is Ok ==> final(interp).stack@ == old(interp).stack@.drop_last().push(
            Value::ByteBuffer(old(interp).store@.buffers.len() as usize),
        ) && final(interp).store@.buffers.len() == old(interp).store@.buffers.len() + 1 && final(interp).store@.buffers.drop_last() == old(interp).store@.buffers && final(interp).store@.buffers.last().buffer@ == Seq::new(
            crate::value::spec_int_val(old(interp).stack@.last()) as nat,
            |j: int| 0u8,
        ) && final(interp).store@.buffers.last().current_position == 0,
{
    let size = interp.pop_as_usize()?;
    let buffer = crate::byte_buffer::ByteBuffer::new(size);
    proof {
        assert(buffer.buffer@ =~= Seq::new(size as nat, |j: int| 0u8));
    }
    let index = interp.store.alloc_buffer(buffer);
    interp.push(Value::ByteBuffer(index));
    proof {
        assert(interp.stack@.drop_last() =~= old(interp).stack@.drop_last());
        assert(interp.store@.buffers.drop_last() =~= old(interp).store@.buffers);
    }
    Ok(())
}

/// Pop a byte buffer reference, with its store index checked live.
fn pop_buffer_index(interp: &mut SorthInterpreter) -> (r: ScriptResult<usize>)
    requires
        old(interp).wf(),
    ensures
        SorthInterpreter::frame_ok(*old(interp), *final(interp)),
        final(interp).store == old(interp).store,
        r is Ok <==> old(interp).stack@.len() > 0 && (old(interp).stack@.last() matches Value::ByteBuffer(i) && i < old(interp).store@.buffers.len()),
        r matches Ok(i) ==> i < old(interp).store@.buffers.len() && old(interp).stack@.last() == Value::ByteBuffer(i) && final(interp).stack@ == old(interp).stack@.drop_last(),
{
    let value = interp.pop()?;
    match value {
        Value::ByteBuffer(i) => {
            if i >= interp.store.buffers.len() {
                return Err(interp.script_error_here("Buffer reference is dead."));
            }
            Ok(i)
        },
        _ => Err(interp.script_error_here("Expected a byte buffer.")),
    }
}

/// Push the size of the popped byte buffer.
fn word_buffer_size(interp: &mut SorthInterpreter) -> (r: ScriptResult<()>)
    requires
        old(interp).wf(),
    ensures
        SorthInterpreter::frame_ok(*old(interp), *final(interp)),
        final(interp).store == old(interp).store,
        r is Ok <==> old(interp).stack@.len() > 0 && (old(interp).stack@.last() matches Value::ByteBuffer(i) && i < old(interp).store@.buffers.len() && old(interp).store@.buffers[i as int].buffer@.len() <= 0x7fffffffffffffff),
        r is Ok ==> (old(interp).stack@.last() matches Value::ByteBuffer(i) && final(interp).stack@ == old(interp).stack@.drop_last().push(
            Value::Int(old(interp).store@.buffers[i as int].buffer@.len() as i64),
        )),
{
    let index = pop_buffer_index(interp)?;
    let len = interp.store.buffers[index].len();
    if (len as u64) > 0x7fffffffffffffffu64 {
        return Err(interp.script_error_here("Buffer too large."));
    }
    interp.push(Value::Int(len as i64));
    Ok(())
}

/// Resize the popped byte buffer to the popped size.
fn word_buffer_resize(interp: &mut SorthInterpreter) -> (r: ScriptResult<()>)
    requires
        old(interp).wf(),
    ensures
        SorthInterpreter::frame_ok(*old(interp), *final(interp)),
{
    let size = interp.pop_as_usize()?;
    let index = pop_buffer_index(interp)?;
    let mut buffer = interp.store.buffers[index].clone();
    if !buffer.wf_runtime() {
        return Err(interp.script_error_here("Buffer cursor out of step."));
    }
    buffer.resize(size);
    interp.store.buffers.set(index, buffer);
    Ok(())
}

/// Write an integer of a given byte size into the popped buffer.
fn word_buffer_write_int(interp: &mut SorthInterpreter) -> (r: ScriptResult<()>)
    requires
        old(interp).wf(),
    ensures
        SorthInterpreter::frame_ok(*old(interp), *final(interp)),
{
    let byte_size = interp.pop_as_usize()?;
    let index = pop_buffer_index(interp)?;
    let value = interp.pop_as_int()?;
    if byte_size != 1 && byte_size != 2 && byte_size != 4 && byte_size != 8 {
        return Err(interp.script_error_here("Invalid byte size for an integer."));
    }
    let mut buffer = interp.store.buffers[index].clone();
    if !buffer.wf_runtime() || (buffer.position() as u128) + (byte_size as u128) > (buffer.len() as u128) {
        return Err(interp.script_error_here("Write would exceed the buffer."));
    }
    buffer.write_int(byte_size, value);
    interp.store.buffers.set(index, buffer);
    Ok(())
}

/// Read an integer of a given byte size from the popped buffer.
fn word_buffer_read_int(interp: &mut SorthInterpreter) -> (r: ScriptResult<()>)
    requires
        old(interp).wf(),
    ensures
        SorthInterpreter::frame_ok(*old(interp), *final(interp)),
{
    let is_signed = interp.pop_as_bool()?;
    let byte_size = interp.pop_as_usize()?;
    let index = pop_buffer_index(interp)?;
    if byte_size != 1 && byte_size != 2 && byte_size != 4 && byte_size != 8 {
        return Err(interp.script_error_here("Invalid byte size for an integer."));
    }
    let mut buffer = interp.store.buffers[index].clone();
    if !buffer.wf_runtime() || (buffer.position() as u128) + (byte_size as u128) > (buffer.len() as u128) {
        return Err(interp.script_error_here("Read would exceed the buffer."));
    }
    let value = buffer.read_int(byte_size, is_signed);
    interp.store.buffers.set(index, buffer);
    interp.push(Value::Int(value));
    Ok(())
}

/// Write a string into a slot of a given byte size in the popped buffer.
fn word_buffer_write_string(interp: &mut SorthInterpreter) -> (r: ScriptResult<()>)
    requires
        old(interp).wf(),
    ensures
        SorthInterpreter::frame_ok(*old(interp), *final(interp)),
{
    let byte_size = interp.pop_as_usize()?;
    let index = pop_buffer_index(interp)?;
    let value = interp.pop_as_string()?;
    let mut buffer = interp.store.buffers[index].clone();
    if !buffer.wf_runtime() || (buffer.position() as u128) + (byte_size as u128) > (buffer.len() as u128) {
        return Err(interp.script_error_here("Write would exceed the buffer."));
    }
    buffer.write_string(byte_size, value.as_str());
    interp.store.buffers.set(index, buffer);
    Ok(())
}

/// Read a string from a slot of a given byte size in the popped buffer.
fn word_buffer_read_string(interp: &mut SorthInterpreter) -> (r: ScriptResult<()>)
    requires
        old(interp).wf(),
    ensures
        SorthInterpreter::frame_ok(*old(interp), *final(interp)),
{
    let byte_size = interp.pop_as_usize()?;
    let index = pop_buffer_index(interp)?;
    let mut buffer = interp.store.buffers[index].clone();
    if !buffer.wf_runtime() || (buffer.position() as u128) + (byte_size as u128) > (buffer.len() as u128) {
        return Err(interp.script_error_here("Read would exceed the buffer."));
    }
    let value = buffer.read_string(byte_size);
    interp.store.buffers.set(index, buffer);
    interp.push(Value::String(value));
    Ok(())
}

/// Move the cursor of the popped buffer.
fn word_buffer_set_position(interp: &mut SorthInterpreter) -> (r: ScriptResult<()>)
    requires
        old(interp).wf(),
    ensures
        SorthInterpreter::frame_ok(*old(interp), *final(interp)),
{
    let index = pop_buffer_index(interp)?;
    let position = interp.pop_as_usize()?;
    let mut buffer = interp.store.buffers[index].clone();
    if position > buffer.len() {
        return Err(interp.script_error_here("Position beyond the buffer."));
    }
    buffer.set_position(position);
    interp.store.buffers.set(index, buffer);
    Ok(())
}

/// Push the cursor of the popped buffer.
fn word_buffer_get_position(interp: &mut SorthInterpreter) -> (r: ScriptResult<()>)
    requires
        old(interp).wf(),
    ensures
        SorthInterpreter::frame_ok(*old(interp), *final(interp)),
        final(interp).store == old(interp).store,
        r is Ok <==> old(interp).stack@.len() > 0 && (old(interp).stack@.last() matches Value::ByteBuffer(i) && i < old(interp).store@.buffers.len() && old(interp).store@.buffers[i as int].current_position <= 0x7fffffffffffffff),
        r is Ok ==> (old(interp).stack@.last() matches Value::ByteBuffer(i) && final(interp).stack@ == old(interp).stack@.drop_last().push(
            Value::Int(old(interp).store@.buffers[i as int].current_position as i64),
        )),
{
    let index = pop_buffer_index(interp)?;
    let position = interp.store.buffers[index].position();
    if (position as u64) > 0x7fffffffffffffffu64 {
        return Err(interp.script_error_here("Buffer too large."));
    }
    interp.push(Value::Int(position as i64));
    Ok(())
}

/// Create a new, empty hash table.
fn word_hash_new(interp: &mut SorthInterpreter) -> (r: ScriptResult<()>)
    requires
        old(interp).wf(),
    ensures
        SorthInterpreter::frame_ok(*old(interp), *final(interp)),
        crate::store::spec_same_but_hashes(final(interp).store@, old(interp).store@),
        r is Ok,
        final(interp).stack@ == old(interp).stack@.push(
            Value::HashMap(old(interp).store@.hashes.len() as usize),
        ),
        final(interp).store@.hashes == old(interp).store@.hashes.push(
            Seq::<(Value, Value)>::empty(),
        ),
{
    let empty: Vec<(Value, Value)> = Vec::new();
    proof {
        assert(empty@ =~= Seq::<(Value, Value)>::empty());
    }
    let index = interp.store.alloc_hash(empty);
    interp.push(Value::HashMap(index));
    Ok(())
}

/// Pop a hash table reference, with its store index checked live.
fn pop_hash_index(interp: &mut SorthInterpreter) -> (r: ScriptResult<usize>)
    requires
        old(interp).wf(),
    ensures
        SorthInterpreter::frame_ok(*old(interp), *final(interp)),
        final(interp).store == old(interp).store,
        r is Ok <==> old(interp).stack@.len() > 0 && (old(interp).stack@.last() matches Value::HashMap(i) && i < old(interp).store@.hashes.len()),
        r matches Ok(i) ==> i < old(interp).store@.hashes.len() && old(interp).stack@.last() == Value::HashMap(i) && final(interp).stack@ == old(interp).stack@.drop_last(),
{
    let value = interp.pop()?;
    match value {
        Value::HashMap(i) => {
            if i >= interp.store.hashes.len() {
                return Err(interp.script_error_here("Hash table reference is dead."));
            }
            Ok(i)
        },
        _ => Err(interp.script_error_here("Expected a hash table.")),
    }
}

/// Store a pair in a hash table, replacing the value of an equal key.
fn hash_set(interp: &mut SorthInterpreter, index: usize, key: Value, value: Value) -> (r:
    ScriptResult<()>)
    requires
        old(interp).wf(),
        index < old(interp).store@.hashes.len(),
    ensures
        SorthInterpreter::frame_ok(*old(interp), *final(interp)),
        crate::store::spec_same_but_hashes(final(interp).store@, old(interp).store@),
        r is Ok ==> final(interp).stack == old(interp).stack && final(interp).store@.hashes == old(interp).store@.hashes.update(
            index as int,
            crate::store::spec_table_set(
                old(interp).store@,
                old(interp).store@.hashes[index as int],
                key,
                value,
                EQ_DEPTH as nat,
            ),
        ),
{
    let pairs = crate::store::clone_pairs(&interp.store.hashes[index]);
    let mut position: usize = 0;
    let mut found = false;
    let mut i: usize = 0;
    while i < pairs.len() && !found
        invariant
            interp == old(interp),
            old(interp).wf(),
            pairs@ == old(interp).store@.hashes[index as int],
            index < interp.store@.hashes.len(),
            i <= pairs@.len(),
            found ==> i < pairs@.len() && position == i && crate::store::spec_value_eq(
                interp.store@,
                pairs@[i as int].0,
                key,
                EQ_DEPTH as nat,
            ),
            forall|j: int|
                0 <= j < i ==> !crate::store::spec_value_eq(
                    interp.store@,
                    #[trigger] pairs@[j].0,
                    key,
                    EQ_DEPTH as nat,
                ),
        decreases pairs@.len() - i, if found {
            0int
        } else {
            1int
        },
    {
        let eq = match interp.store.value_eq(&pairs[i].0, &key, EQ_DEPTH) {
            Some(e) => e,
            None => {
                return Err(interp.script_error_here("Could not compare hash table keys."));
            },
        };
        if eq {
            position = i;
            found = true;
        } else {
            i = i + 1;
        }
    }
    proof {
        if found {
            crate::store::lemma_table_set_found(
                interp.store@,
                pairs@,
                key,
                value,
                EQ_DEPTH as nat,
                position as int,
            );
        } else {
            crate::store::lemma_table_set_missing(
                interp.store@,
                pairs@,
                key,
                value,
                EQ_DEPTH as nat,
            );
        }
    }
    let mut updated = pairs;
    if found {
        let old_key = updated[position].0.clone();
        updated.set(position, (old_key, value));
    } else {
        updated.push((key, value));
    }
    if index >= interp.store.hashes.len() {
        return Err(interp.script_error_here("Hash table reference is dead."));
    }
    interp.store.hashes.set(index, updated);
    Ok(())
}

/// Write a value under a key in a hash table.
fn word_hash_insert(interp: &mut SorthInterpreter) -> (r: ScriptResult<()>)
    requires
        old(interp).wf(),
    ensures
        SorthInterpreter::frame_ok(*old(interp), *final(interp)),
        crate::store::spec_same_but_hashes(final(interp).store@, old(interp).store@),
        old(interp).stack@.len() < 3 || !(old(interp).stack@.last() matches Value::HashMap(i) && i
            < old(interp).store@.hashes.len()) ==> r is Err,
        r is Ok ==> (old(interp).stack@.last() matches Value::HashMap(i) && final(interp).stack@
            == old(interp).stack@.drop_last().drop_last().drop_last() && final(interp).store@.hashes == old(interp).store@.hashes.update(
            i as int,
            crate::store::spec_table_set(
                old(interp).store@,
                old(interp).store@.hashes[i as int],
                old(interp).stack@[old(interp).stack@.len() - 2],
                old(interp).stack@[old(interp).stack@.len() - 3],
                EQ_DEPTH as nat,
            ),
        )),
{
    let index = pop_hash_index(interp)?;
    let key = interp.pop()?;
    let value = interp.pop()?;
    hash_set(interp, index, key, value)
}

/// Read the value under a key in a hash table; a missing key is an error.
fn word_hash_find(interp: &mut SorthInterpreter) -> (r: ScriptResult<()>)
    requires
        old(interp).wf(),
    ensures
        SorthInterpreter::frame_ok(*old(interp), *final(interp)),
        final(interp).store == old(interp).store,
        old(interp).stack@.len() == 0 || !(old(interp).stack@.last() matches Value::HashMap(i) && i < old(interp).store@.hashes.len()) || old(interp).stack@.len() < 2 ==> r is Err,
        r is Ok ==> (old(interp).stack@.last() matches Value::HashMap(i)
            && crate::store::spec_table_get(
            old(interp).store@,
            old(interp).store@.hashes[i as int],
            old(interp).stack@[old(interp).stack@.len() - 2],
            EQ_DEPTH as nat,
        ) matches Some(v) && final(interp).stack@ == old(interp).stack@.drop_last().drop_last().push(v)),
{
    let index = pop_hash_index(interp)?;
    let key = interp.pop()?;
    let found = match interp.store.table_find(&interp.store.hashes[index], &key, EQ_DEPTH) {
        Some(f) => f,
        None => {
            return Err(interp.script_error_here("Could not compare hash table keys."));
        },
    };
    match found {
        Some(value) => {
            interp.push(value);
            Ok(())
        },
        None => Err(interp.script_error_here("Key not found in hash table.")),
    }
}

/// Push whether a key exists in a hash table.
fn word_hash_exists(interp: &mut SorthInterpreter) -> (r: ScriptResult<()>)
    requires
        old(interp).wf(),
    ensures
        SorthInterpreter::frame_ok(*old(interp), *final(interp)),
        final(interp).store == old(interp).store,
        old(interp).stack@.len() == 0 || !(old(interp).stack@.last() matches Value::HashMap(i) && i < old(interp).store@.hashes.len()) || old(interp).stack@.len() < 2 ==> r is Err,
        r is Ok ==> (old(interp).stack@.last() matches Value::HashMap(i) && final(interp).stack@ == old(interp).stack@.drop_last().drop_last().push(
            Value::Bool(
                crate::store::spec_table_get(
                    old(interp).store@,
                    old(interp).store@.hashes[i as int],
                    old(interp).stack@[old(interp).stack@.len() - 2],
                    EQ_DEPTH as nat,
                ) is Some,
            ),
        )),
{
    let index = pop_hash_index(interp)?;
    let key = interp.pop()?;
    let found = match interp.store.table_find(&interp.store.hashes[index], &key, EQ_DEPTH) {
        Some(f) => f,
        None => {
            return Err(interp.script_error_here("Could not compare hash table keys."));
        },
    };
    interp.push(Value::Bool(found.is_some()));
    Ok(())
}

/// Merge deep clones of a source table's pairs into a destination table,
/// leaving the destination on the stack.
fn word_hash_plus(interp: &mut SorthInterpreter) -> (r: ScriptResult<()>)
    requires
        old(interp).wf(),
    ensures
        SorthInterpreter::frame_ok(*old(interp), *final(interp)),
{
    let source = pop_hash_index(interp)?;
    let dest = pop_hash_index(interp)?;
    let source_pairs = crate::store::clone_pairs(&interp.store.hashes[source]);
    let mut i: usize = 0;
    while i < source_pairs.len()
        invariant
            interp.wf(),
            interp.spec_context_count() == old(interp).spec_context_count(),
            i <= source_pairs@.len(),
        decreases source_pairs@.len() - i,
    {
        let key = match interp.store.deep_clone(&source_pairs[i].0, CLONE_DEPTH) {
            Some(c) => c,
            None => {
                return Err(interp.script_error_here("Could not clone a hash table key."));
            },
        };
        let value = match interp.store.deep_clone(&source_pairs[i].1, CLONE_DEPTH) {
            Some(c) => c,
            None => {
                return Err(interp.script_error_here("Could not clone a hash table value."));
            },
        };
        if dest >= interp.store.hashes.len() {
            return Err(interp.script_error_here("Hash table reference is dead."));
        }
        hash_set(interp, dest, key, value)?;
        i = i + 1;
    }
    interp.push(Value::HashMap(dest));
    Ok(())
}

/// Push the number of pairs in a hash table.
fn word_hash_size(interp: &mut SorthInterpreter) -> (r: ScriptResult<()>)
    requires
        old(interp).wf(),
    ensures
        SorthInterpreter::frame_ok(*old(interp), *final(interp)),
        final(interp).store == old(interp).store,
        r is Ok <==> old(interp).stack@.len() > 0 && (old(interp).stack@.last() matches Value::HashMap(i) && i < old(interp).store@.hashes.len() && old(interp).store@.hashes[i as int].len() <= 0x7fffffffffffffff),
        r is Ok ==> (old(interp).stack@.last() matches Value::HashMap(i) && final(interp).stack@ == old(interp).stack@.drop_last().push(
            Value::Int(old(interp).store@.hashes[i as int].len() as i64),
        )),
{
    let index = pop_hash_index(interp)?;
    let len = interp.store.hashes[index].len();
    if (len as u64) > 0x7fffffffffffffffu64 {
        return Err(interp.script_error_here("Hash table too large."));
    }
    interp.push(Value::Int(len as i64));
    Ok(())
}

/// Call a word for each pair of a hash table, with the key and value pushed
/// for each call.
fn word_hash_iterate(interp: &mut SorthInterpreter, depth: u64) -> (r: ScriptResult<()>)
    requires
        old(interp).wf(),
    ensures
        SorthInterpreter::frame_ok(*old(interp), *final(interp)),
    decreases depth, 0int, 1int,
{
    if depth == 0 {
        return Err(interp.script_error_here("Call depth exceeded."));
    }
    let index = pop_hash_index(interp)?;
    let word_index = interp.pop_as_usize()?;
    let pairs = crate::store::clone_pairs(&interp.store.hashes[index]);
    let location = match &interp.current_location {
        Some(loc) => loc.clone(),
        None => SourceLocation::new(),
    };
    let mut i: usize = 0;
    while i < pairs.len()
        invariant
            interp.wf(),
            interp.spec_context_count() == old(interp).spec_context_count(),
            i <= pairs@.len(),
            depth >= 1,
        decreases pairs@.len() - i,
    {
        interp.push(pairs[i].0.clone());
        interp.push(pairs[i].1.clone());
        interp.execute_word_index(&location, word_index, depth - 1)?;
        i = i + 1;
    }
    Ok(())
}

/// Define a variable: read its name from the stream and compile the variable
/// definition into the current block.
fn word_variable_im(interp: &mut SorthInterpreter) -> (r: ScriptResult<()>)
    requires
        old(interp).wf(),
    ensures
        SorthInterpreter::frame_ok(*old(interp), *final(interp)),
{
    let (location, name) = interp.next_token_word()?;
    interp.insert_user_instruction(Some(location), Op::DefVariable(Value::String(name)))
}

/// Define a constant: read its name from the stream and compile the constant
/// definition into the current block.
fn word_constant_im(interp: &mut SorthInterpreter) -> (r: ScriptResult<()>)
    requires
        old(interp).wf(),
    ensures
        SorthInterpreter::frame_ok(*old(interp), *final(interp)),
{
    let (location, name) = interp.next_token_word()?;
    interp.insert_user_instruction(Some(location), Op::DefConstant(Value::String(name)))
}

/// Compile a conditional: jump over the body where the test is false.
fn word_if(interp: &mut SorthInterpreter) -> (r: ScriptResult<()>)
    requires
        old(interp).wf(),
    ensures
        SorthInterpreter::frame_ok(*old(interp), *final(interp)),
{
    let label = interp.unique_string();
    interp.insert_user_instruction(None, Op::JumpIfZero(Value::String(label.clone())))?;
    interp.push(Value::String(label));
    Ok(())
}

/// Compile the other branch of a conditional.
fn word_else(interp: &mut SorthInterpreter) -> (r: ScriptResult<()>)
    requires
        old(interp).wf(),
    ensures
        SorthInterpreter::frame_ok(*old(interp), *final(interp)),
{
    let first = interp.pop_as_string()?;
    let label = interp.unique_string();
    interp.insert_user_instruction(None, Op::Jump(Value::String(label.clone())))?;
    interp.insert_user_instruction(None, Op::JumpTarget(Value::String(first)))?;
    interp.push(Value::String(label));
    Ok(())
}

/// Close a conditional.
fn word_then(interp: &mut SorthInterpreter) -> (r: ScriptResult<()>)
    requires
        old(interp).wf(),
    ensures
        SorthInterpreter::frame_ok(*old(interp), *final(interp)),
{
    let label = interp.pop_as_string()?;
    interp.insert_user_instruction(None, Op::JumpTarget(Value::String(label)))
}

/// Open a loop: mark its exit and its top.
fn word_begin(interp: &mut SorthInterpreter) -> (r: ScriptResult<()>)
    requires
        old(interp).wf(),
    ensures
        SorthInterpreter::frame_ok(*old(interp), *final(interp)),
{
    let end_label = interp.unique_string();
    let top_label = interp.unique_string();
    interp.insert_user_instruction(None, Op::MarkLoopExit(Value::String(end_label.clone())))?;
    interp.insert_user_instruction(None, Op::JumpTarget(Value::String(top_label.clone())))?;
    interp.push(Value::String(end_label));
    interp.push(Value::String(top_label));
    Ok(())
}

/// Close a loop that repeats until the popped flag is true.
fn word_until(interp: &mut SorthInterpreter) -> (r: ScriptResult<()>)
    requires
        old(interp).wf(),
    ensures
        SorthInterpreter::frame_ok(*old(interp), *final(interp)),
{
    let top_label = interp.pop_as_string()?;
    let end_label = interp.pop_as_string()?;
    interp.insert_user_instruction(None, Op::JumpIfZero(Value::String(top_label)))?;
    interp.insert_user_instruction(None, Op::JumpTarget(Value::String(end_label)))?;
    interp.insert_user_instruction(None, Op::UnmarkLoopExit)
}

/// Compile a loop's guard: leave the loop where the popped flag is false.
fn word_while(interp: &mut SorthInterpreter) -> (r: ScriptResult<()>)
    requires
        old(interp).wf(),
    ensures
        SorthInterpreter::frame_ok(*old(interp), *final(interp)),
{
    let top_label = interp.pop_as_string()?;
    let end_label = interp.pop_as_string()?;
    interp.insert_user_instruction(None, Op::JumpIfZero(Value::String(end_label.clone())))?;
    interp.push(Value::String(end_label));
    interp.push(Value::String(top_label));
    Ok(())
}

/// Close a guarded loop: jump back to its top.
fn word_repeat(interp: &mut SorthInterpreter) -> (r: ScriptResult<()>)
    requires
        old(interp).wf(),
    ensures
        SorthInterpreter::frame_ok(*old(interp), *final(interp)),
{
    let top_label = interp.pop_as_string()?;
    let end_label = interp.pop_as_string()?;
    interp.insert_user_instruction(None, Op::Jump(Value::String(top_label)))?;
    interp.insert_user_instruction(None, Op::JumpTarget(Value::String(end_label)))?;
    interp.insert_user_instruction(None, Op::UnmarkLoopExit)
}

/// Open a counted loop: the runtime setup pops the start and the limit, and
/// the body runs from the start up to the limit.
fn word_do(interp: &mut SorthInterpreter) -> (r: ScriptResult<()>)
    requires
        old(interp).wf(),
    ensures
        SorthInterpreter::frame_ok(*old(interp), *final(interp)),
{
    let end_label = interp.unique_string();
    let top_label = interp.unique_string();
    interp.insert_user_instruction(None, Op::Execute(Value::String("(do)".to_owned())))?;
    interp.insert_user_instruction(None, Op::MarkLoopExit(Value::String(end_label.clone())))?;
    interp.insert_user_instruction(None, Op::JumpTarget(Value::String(top_label.clone())))?;
    interp.push(Value::String(end_label));
    interp.push(Value::String(top_label));
    Ok(())
}

/// Close a counted loop: step the index and jump back while it is below the
/// limit, then drop the loop's bookkeeping.  The body's net stack effect is
/// discarded when the loop exits, so a counted loop leaves no iteration
/// values behind.
fn word_loop(interp: &mut SorthInterpreter) -> (r: ScriptResult<()>)
    requires
        old(interp).wf(),
    ensures
        SorthInterpreter::frame_ok(*old(interp), *final(interp)),
{
    let top_label = interp.pop_as_string()?;
    let end_label = interp.pop_as_string()?;
    interp.insert_user_instruction(None, Op::Execute(Value::String("(loop)".to_owned())))?;
    interp.insert_user_instruction(None, Op::JumpIfNotZero(Value::String(top_label)))?;
    interp.insert_user_instruction(None, Op::JumpTarget(Value::String(end_label)))?;
    interp.insert_user_instruction(None, Op::UnmarkLoopExit)?;
    interp.insert_user_instruction(None, Op::Execute(Value::String("(do-end)".to_owned())))
}

/// Push the index of the counted loop at the given nesting depth: zero for
/// the current loop, one for the loop around it.
fn word_loop_index(interp: &mut SorthInterpreter, up: usize) -> (r: ScriptResult<()>)
    requires
        old(interp).wf(),
    ensures
        SorthInterpreter::frame_ok(*old(interp), *final(interp)),
{
    if interp.loop_indices.len() <= up {
        return Err(interp.script_error_here("No counted loop is running here."));
    }
    let position = interp.loop_indices.len() - 1 - up;
    let entry = interp.loop_indices[position];
    interp.push(Value::Int(entry.1));
    Ok(())
}

/// The runtime setup of a counted loop: pop the start index and the limit,
/// and remember them with the stack depth to restore at the loop's end.
fn word_do_setup(interp: &mut SorthInterpreter) -> (r: ScriptResult<()>)
    requires
        old(interp).wf(),
    ensures
        SorthInterpreter::frame_ok(*old(interp), *final(interp)),
{
    let start = interp.pop_as_int()?;
    let limit = interp.pop_as_int()?;
    let depth_now = interp.stack.len();
    interp.loop_indices.push((limit, start, depth_now));
    interp.push(Value::Bool(true));
    Ok(())
}

/// The runtime step of a counted loop: advance the index and push whether the
/// loop continues.
fn word_do_next(interp: &mut SorthInterpreter) -> (r: ScriptResult<()>)
    requires
        old(interp).wf(),
    ensures
        SorthInterpreter::frame_ok(*old(interp), *final(interp)),
{
    let entry = match interp.loop_indices.pop() {
        Some(e) => e,
        None => {
            return Err(interp.script_error_here("No counted loop is running here."));
        },
    };
    let next = entry.1.wrapping_add(1);
    interp.loop_indices.push((entry.0, next, entry.2));
    interp.push(Value::Bool(next < entry.0));
    Ok(())
}

/// The runtime end of a counted loop: drop its bookkeeping and restore the
/// stack to its depth at the loop's start.
fn word_do_end(interp: &mut SorthInterpreter) -> (r: ScriptResult<()>)
    requires
        old(interp).wf(),
    ensures
        SorthInterpreter::frame_ok(*old(interp), *final(interp)),
{
    let entry = match interp.loop_indices.pop() {
        Some(e) => e,
        None => {
            return Err(interp.script_error_here("No counted loop is running here."));
        },
    };
    let depth_at_entry = entry.2;
    while interp.stack.len() > depth_at_entry
        invariant
            interp.wf(),
            interp.spec_context_count() == old(interp).spec_context_count(),
        decreases interp.stack@.len(),
    {
        let _ = interp.stack.pop();
    }
    Ok(())
}

/// Open a protected block: errors inside it land at the matching catch.
fn word_try(interp: &mut SorthInterpreter) -> (r: ScriptResult<()>)
    requires
        old(interp).wf(),
    ensures
        SorthInterpreter::frame_ok(*old(interp), *final(interp)),
{
    let catch_label = interp.unique_string();
    let end_label = interp.unique_string();
    interp.insert_user_instruction(None, Op::MarkCatch(Value::String(catch_label.clone())))?;
    interp.push(Value::String(end_label));
    interp.push(Value::String(catch_label));
    Ok(())
}

/// Open the handler of a protected block: the protected body ends here, and
/// the handler receives the error's text on the stack.
fn word_catch(interp: &mut SorthInterpreter) -> (r: ScriptResult<()>)
    requires
        old(interp).wf(),
    ensures
        SorthInterpreter::frame_ok(*old(interp), *final(interp)),
{
    let catch_label = interp.pop_as_string()?;
    let end_label = interp.pop_as_string()?;
    interp.insert_user_instruction(None, Op::UnmarkCatch)?;
    interp.insert_user_instruction(None, Op::Jump(Value::String(end_label.clone())))?;
    interp.insert_user_instruction(None, Op::JumpTarget(Value::String(catch_label)))?;
    interp.push(Value::String(end_label));
    Ok(())
}

/// Close a protected block.
fn word_end_try(interp: &mut SorthInterpreter) -> (r: ScriptResult<()>)
    requires
        old(interp).wf(),
    ensures
        SorthInterpreter::frame_ok(*old(interp), *final(interp)),
{
    let end_label = interp.pop_as_string()?;
    interp.insert_user_instruction(None, Op::JumpTarget(Value::String(end_label)))
}

/// Evaluate a conditional at compile time: only the successful branch is
/// compiled, the other is skipped token by token.
fn word_if_im(interp: &mut SorthInterpreter, depth: u64) -> (r: ScriptResult<()>)
    requires
        old(interp).wf(),
    ensures
        SorthInterpreter::frame_ok(*old(interp), *final(interp)),
    decreases depth, 0int, 1int,
{
    if depth == 0 {
        return Err(interp.script_error_here("Call depth exceeded."));
    }
    let test_value = interp.pop_as_bool()?;
    if test_value {
        let found = compile_until_markers(interp, depth, true)?;
        if found == 1u8 {
            let _ = skip_until_markers(interp)?;
        }
        Ok(())
    } else {
        let found = skip_until_markers(interp)?;
        if found == 1u8 {
            let _ = compile_until_markers(interp, depth, true)?;
        }
        Ok(())
    }
}

/// Compile (or skip after the else marker) tokens until a branch marker of a
/// compile time conditional: one for the else marker, two for the end marker.
fn compile_until_markers(interp: &mut SorthInterpreter, depth: u64, stop_at_else: bool) -> (r:
    ScriptResult<u8>)
    requires
        old(interp).wf(),
    ensures
        SorthInterpreter::frame_ok(*old(interp), *final(interp)),
    decreases depth, 0int, 0int,
{
    if depth == 0 {
        return Err(interp.script_error_here("Call depth exceeded."));
    }
    let mut steps: u64 = STEP_LIMIT;
    loop
        invariant
            interp.wf(),
            interp.spec_context_count() == old(interp).spec_context_count(),
            depth >= 1,
        decreases steps,
    {
        if steps == 0 {
            return Err(interp.script_error_here("Compilation step budget exhausted."));
        }
        steps = steps - 1;
        if !interp.has_next_token() {
            return Err(interp.script_error_here(
                "Unexpected end of the stream in a compile time conditional.",
            ));
        }
        let token = interp.next_token()?;
        let marker: u8 = match &token {
            Token::Word(_, name) => {
                if stop_at_else && crate::dictionary::string_eq_str(name, "[else]") {
                    1u8
                } else if crate::dictionary::string_eq_str(name, "[then]") {
                    2u8
                } else {
                    0u8
                }
            },
            _ => 0u8,
        };
        if marker != 0u8 {
            return Ok(marker);
        }
        interp.process_token(token, depth - 1)?;
    }
}

/// Skip tokens until a branch marker of a compile time conditional: one for
/// the else marker, two for the end marker.
fn skip_until_markers(interp: &mut SorthInterpreter) -> (r: ScriptResult<u8>)
    requires
        old(interp).wf(),
    ensures
        SorthInterpreter::frame_ok(*old(interp), *final(interp)),
{
    let mut steps: u64 = STEP_LIMIT;
    loop
        invariant
            interp.wf(),
            interp.spec_context_count() == old(interp).spec_context_count(),
        decreases steps,
    {
        if steps == 0 {
            return Err(interp.script_error_here("Compilation step budget exhausted."));
        }
        steps = steps - 1;
        if !interp.has_next_token() {
            return Err(interp.script_error_here(
                "Unexpected end of the stream in a compile time conditional.",
            ));
        }
        let token = interp.next_token()?;
        match &token {
            Token::Word(_, name) => {
                if crate::dictionary::string_eq_str(name, "[else]") {
                    return Ok(1u8);
                }
                if crate::dictionary::string_eq_str(name, "[then]") {
                    return Ok(2u8);
                }
            },
            _ => {},
        }
    }
}

/// Register one normal native word.
fn add_native(
    interp: &mut SorthInterpreter,
    name: &str,
    word: NativeWord,
    description: &str,
    signature: &str,
) -> (r: ScriptResult<()>)
    requires
        old(interp).wf(),
    ensures
        SorthInterpreter::frame_ok(*old(interp), *final(interp)),
        r is Ok,
        final(interp).stack == old(interp).stack,
        final(interp).store == old(interp).store,
        final(interp).variables.items == old(interp).variables.items,
        final(interp).constructors == old(interp).constructors,
        ({
            let info = final(interp).dictionary.spec_lookup(name@);
            info matches Some(w) && w.runtime == crate::dictionary::WordRuntime::Normal && (
            w.handler_index as int) < final(interp).word_handlers.items@.len() && final(interp).word_handlers.items@[w.handler_index as int].handler == Handler::Native(word)
        }),
        forall|n: Seq<char>|
            n != name@ ==> #[trigger] final(interp).dictionary.spec_lookup(n) == old(interp).dictionary.spec_lookup(n),
{
    interp.add_word(
        "native",
        1,
        1,
        name.to_owned(),
        Handler::Native(word),
        description.to_owned(),
        signature.to_owned(),
        WordRuntime::Normal,
        WordVisibility::Visible,
        WordType::Native,
    );
    Ok(())
}

/// Register one immediate native word: it executes while the script is being
/// compiled.
fn add_native_immediate(
    interp: &mut SorthInterpreter,
    name: &str,
    word: NativeWord,
    description: &str,
    signature: &str,
) -> (r: ScriptResult<()>)
    requires
        old(interp).wf(),
    ensures
        SorthInterpreter::frame_ok(*old(interp), *final(interp)),
        r is Ok,
        final(interp).stack == old(interp).stack,
        final(interp).store == old(interp).store,
        final(interp).variables.items == old(interp).variables.items,
        final(interp).constructors == old(interp).constructors,
        ({
            let info = final(interp).dictionary.spec_lookup(name@);
            info matches Some(w) && w.runtime == crate::dictionary::WordRuntime::Immediate && (
            w.handler_index as int) < final(interp).word_handlers.items@.len() && final(interp).word_handlers.items@[w.handler_index as int].handler == Handler::Native(word)
        }),
        forall|n: Seq<char>|
            n != name@ ==> #[trigger] final(interp).dictionary.spec_lookup(n) == old(interp).dictionary.spec_lookup(n),
{
    interp.add_word(
        "native",
        1,
        1,
        name.to_owned(),
        Handler::Native(word),
        description.to_owned(),
        signature.to_owned(),
        WordRuntime::Immediate,
        WordVisibility::Visible,
        WordType::Native,
    );
    Ok(())
}

/// Register one hidden native word: a helper the surface syntax compiles
/// calls to.
fn add_native_hidden(
    interp: &mut SorthInterpreter,
    name: &str,
    word: NativeWord,
    description: &str,
    signature: &str,
) -> (r: ScriptResult<()>)
    requires
        old(interp).wf(),
    ensures
        SorthInterpreter::frame_ok(*old(interp), *final(interp)),
        r is Ok,
        final(interp).stack == old(interp).stack,
        final(interp).store == old(interp).store,
        final(interp).variables.items == old(interp).variables.items,
        final(interp).constructors == old(interp).constructors,
        ({
            let info = final(interp).dictionary.spec_lookup(name@);
            info matches Some(w) && w.runtime == crate::dictionary::WordRuntime::Normal && (
            w.handler_index as int) < final(interp).word_handlers.items@.len() && final(interp).word_handlers.items@[w.handler_index as int].handler == Handler::Native(word)
        }),
        forall|n: Seq<char>|
            n != name@ ==> #[trigger] final(interp).dictionary.spec_lookup(n) == old(interp).dictionary.spec_lookup(n),
{
    interp.add_word(
        "native",
        1,
        1,
        name.to_owned(),
        Handler::Native(word),
        description.to_owned(),
        signature.to_owned(),
        WordRuntime::Normal,
        WordVisibility::Hidden,
        WordType::Native,
    );
    Ok(())
}

/// Register every word built into the runtime: the interpreter state words,
/// stack manipulation, constants, arithmetic, logic and bits, bytecode
/// emission, word handling and creation, value type tests, strings,
/// structures, arrays, byte buffers, hash tables, and the immediate words
/// that form the surface syntax.
#[verifier::rlimit(100)]
pub fn register_base_words(interp: &mut SorthInterpreter) -> (r: ScriptResult<()>)
    requires
        old(interp).wf(),
    ensures
        SorthInterpreter::frame_ok(*old(interp), *final(interp)),
        r is Ok,
        final(interp).stack == old(interp).stack,
        final(interp).variables.items == old(interp).variables.items,
        final(interp).constructors == old(interp).constructors,
{
    add_native(interp, "reset", NativeWord::Reset, "Reset the interpreter to its default state.", " -- ")?;
    add_native(interp, "throw", NativeWord::Throw, "Throw an exception with the given message.", "message -- ")?;
    add_native(interp, "sorth.version", NativeWord::SorthVersion, "Get the current version of the runtime.", " -- version_string")?;
    add_native(interp, ".t", NativeWord::ThreadShow, "Print out the list of interpreter threads.", " -- ")?;
    add_native(interp, "thread.new", NativeWord::ThreadNew, "Create a new thread running the given word.", "word-index -- thread-id")?;
    add_native(interp, "thread.push-to", NativeWord::ThreadPushTo, "Push the top value to another thread's input stack.", "value thread-id -- ")?;
    add_native(interp, "thread.pop-from", NativeWord::ThreadPopFrom, "Pop a value from a thread's input queue.", "thread-id -- input-value")?;
    add_native(interp, "thread.push", NativeWord::ThreadPush, "Push the top value onto the thread's output queue.", "output-value -- ")?;
    add_native(interp, "thread.pop", NativeWord::ThreadPop, "Pop from a thread's output stack.", " -- value")?;
    add_native_immediate(interp, "[if]", NativeWord::IfIm, "Evaluate a conditional at compile time.", "[if] <code> [else] <code> [then]")?;
    add_native(interp, "depth", NativeWord::Depth, "Push the current stack depth.", " -- n")?;
    add_native(interp, "clearstack", NativeWord::ClearStack, "Clear the stack.", "... -- ")?;
    add_native(interp, "pick", NativeWord::Pick, "Copy the value at the given depth to the top.", "... n -- ... x")?;
    add_native(interp, "roll", NativeWord::Roll, "Move the value at the given depth to the top.", "... n -- ...")?;
    add_native(interp, "over", NativeWord::Over, "Copy the second value over the top.", "a b -- a b a")?;
    add_native(interp, "rot", NativeWord::Rot, "Rotate the third value to the top.", "a b c -- b c a")?;
    add_native(interp, "dup", NativeWord::Dup, "Duplicate the top value on the data stack.", "value -- value value")?;
    add_native(interp, "drop", NativeWord::Drop, "Discard the top value on the data stack.", "value -- ")?;
    add_native(interp, "swap", NativeWord::Swap, "Swap the top two values on the data stack.", "a b -- b a")?;
    add_native(interp, "stack.depth", NativeWord::StackDepth, "Push the stack depth before this call.", " -- depth")?;
    add_native(interp, "stack.max-depth", NativeWord::StackMaxDepth, "Push the deepest the stack has been.", " -- depth")?;
    add_native(interp, "push-to", NativeWord::PushTo, "Pop the top value and push it back at the given depth.", "n -- ")?;
    add_native(interp, "none", NativeWord::PushNone, "Push the nothing value.", " -- none")?;
    add_native(interp, "true", NativeWord::PushTrue, "Push the value true.", " -- true")?;
    add_native(interp, "false", NativeWord::PushFalse, "Push the value false.", " -- false")?;
    add_native(interp, "*/", NativeWord::MulDiv, "Multiply two numbers, then divide by a third.", "n1 n2 n3 -- n4")?;
    add_native(interp, "*/mod", NativeWord::MulDivMod, "Multiply two numbers, then divide by a third, pushing remainder and quotient.", "n1 n2 n3 -- n4 n5")?;
    add_native(interp, "1+", NativeWord::AddOne, "Add one to the top of the stack.", "n -- n+1")?;
    add_native(interp, "1-", NativeWord::SubOne, "Subtract one from the top of the stack.", "n -- n-1")?;
    add_native(interp, "2*", NativeWord::TimesTwo, "Double the top of the stack.", "n -- n*2")?;
    add_native(interp, "2/", NativeWord::DivideByTwo, "Halve the top of the stack.", "n -- n/2")?;
    add_native(interp, "mod", NativeWord::Mod, "The remainder of dividing the second number by the top.", "n1 n2 -- n")?;
    add_native(interp, "/mod", NativeWord::DivMod, "The remainder and quotient of dividing the second number by the top.", "n1 n2 -- rem quot")?;
    add_native(interp, "abs", NativeWord::Abs, "The absolute value of the top of the stack.", "n -- |n|")?;
    add_native(interp, "negate", NativeWord::Negate, "Negate the top of the stack.", "n -- -n")?;
    add_native(interp, "op.def_variable", NativeWord::OpDefVariable, "Compile a variable definition instruction.", "new-name -- ")?;
    add_native(interp, "op.def_constant", NativeWord::OpDefConstant, "Compile a constant definition instruction.", "new-name -- ")?;
    add_native(interp, "op.read_variable", NativeWord::OpReadVariable, "Compile a variable read instruction.", " -- ")?;
    add_native(interp, "op.write_variable", NativeWord::OpWriteVariable, "Compile a variable write instruction.", " -- ")?;
    add_native(interp, "op.execute", NativeWord::OpExecute, "Compile an execute instruction.", "index -- ")?;
    add_native(interp, "op.push_constant_value", NativeWord::OpPushConstantValue, "Compile a push of a constant value.", "value -- ")?;
    add_native(interp, "op.mark_loop_exit", NativeWord::OpMarkLoopExit, "Compile a loop exit marker.", "identifier -- ")?;
    add_native(interp, "op.unmark_loop_exit", NativeWord::OpUnmarkLoopExit, "Compile the end of a loop marker.", " -- ")?;
    add_native(interp, "op.mark_catch", NativeWord::OpMarkCatch, "Compile a catch marker.", "identifier -- ")?;
    add_native(interp, "op.unmark_catch", NativeWord::OpUnmarkCatch, "Compile the end of a catch marker.", " -- ")?;
    add_native(interp, "op.jump", NativeWord::OpJump, "Compile a jump.", "identifier -- ")?;
    add_native(interp, "op.jump_if_zero", NativeWord::OpJumpIfZero, "Compile a jump taken on false.", "identifier -- ")?;
    add_native(interp, "op.jump_if_not_zero", NativeWord::OpJumpIfNotZero, "Compile a jump taken on true.", "identifier -- ")?;
    add_native(interp, "op.jump_loop_start", NativeWord::OpJumpLoopStart, "Compile a jump to the loop's start.", " -- ")?;
    add_native(interp, "op.jump_loop_exit", NativeWord::OpJumpLoopExit, "Compile a jump to the loop's exit.", " -- ")?;
    add_native(interp, "op.jump_target", NativeWord::OpJumpTarget, "Compile a jump landing pad.", "identifier -- ")?;
    add_native(interp, "code.new_block", NativeWord::CodeNewBlock, "Open a nested block on the construction stack.", " -- ")?;
    add_native(interp, "code.merge_stack_block", NativeWord::CodeMergeStackBlock, "Merge the top block into the one below.", " -- ")?;
    add_native(interp, "code.pop_stack_block", NativeWord::CodePopStackBlock, "Pop the top block onto the data stack.", " -- code_block")?;
    add_native(interp, "code.push_stack_block", NativeWord::CodePushStackBlock, "Push a code value back onto the construction stack.", "code_block -- ")?;
    add_native(interp, "code.stack_block_size@", NativeWord::CodeStackBlockSize, "Push the size of the block under construction.", " -- code_size")?;
    add_native(interp, "code.resolve_jumps", NativeWord::CodeResolveJumps, "Resolve the jump labels of the block under construction.", " -- ")?;
    add_native(interp, "code.compile_until_words", NativeWord::CodeCompileUntilWords, "Compile tokens until one of the given words is seen.", "words... word_count -- found_word")?;
    add_native(interp, "code.insert_at_front", NativeWord::CodeInsertAtFront, "Choose whether new instructions go to the top of the block.", "bool -- ")?;
    add_native(interp, "code.execute_source", NativeWord::CodeExecuteSource, "Compile and execute a string as source code.", "string -- ")?;
    add_native(interp, "word", NativeWord::Word, "Push the next token of the stream.", " -- next_word")?;
    add_native(interp, "words.get{}", NativeWord::GetWordTable, "Build a table describing every defined word.", " -- all_defined_words")?;
    add_native_immediate(interp, "`", NativeWord::WordIndexIm, "Compile a push of the next word's handler index.", " -- index")?;
    add_native(interp, "execute", NativeWord::Execute, "Execute the popped word name or handler index.", "word_name_or_index -- ")?;
    add_native(interp, "defined?", NativeWord::IsDefined, "Push whether the popped word name is defined.", "name -- bool")?;
    add_native_immediate(interp, "[defined?]", NativeWord::IsDefinedIm, "Push whether the next word is defined, at compile time.", " -- bool")?;
    add_native_immediate(interp, "[undefined?]", NativeWord::IsUndefinedIm, "Push whether the next word is undefined, at compile time.", " -- bool")?;
    add_native_immediate(interp, ":", NativeWord::StartWord, "Start a new word definition.", " -- ")?;
    add_native_immediate(interp, ";", NativeWord::EndWord, "Finish and register the word being defined.", " -- ")?;
    add_native_immediate(interp, "immediate", NativeWord::Immediate, "Mark the word being defined as immediate.", " -- ")?;
    add_native_immediate(interp, "hidden", NativeWord::Hidden, "Hide the word being defined from listings.", " -- ")?;
    add_native_immediate(interp, "contextless", NativeWord::Contextless, "Let the word being defined manage its own context.", " -- ")?;
    add_native_immediate(interp, "description:", NativeWord::Description, "Give the word being defined a description.", " -- ")?;
    add_native_immediate(interp, "signature:", NativeWord::Signature, "Give the word being defined a signature.", " -- ")?;
    add_native(interp, "value.is-none?", NativeWord::IsNone, "Is the value nothing?", "value -- bool")?;
    add_native(interp, "value.is-number?", NativeWord::IsNumber, "Is the value a number?", "value -- bool")?;
    add_native(interp, "value.is-boolean?", NativeWord::IsBoolean, "Is the value a boolean?", "value -- bool")?;
    add_native(interp, "value.is-string?", NativeWord::IsString, "Is the value a string?", "value -- bool")?;
    add_native(interp, "value.is-structure?", NativeWord::IsStructure, "Is the value a structure?", "value -- bool")?;
    add_native(interp, "value.is-array?", NativeWord::IsArray, "Is the value an array?", "value -- bool")?;
    add_native(interp, "value.is-buffer?", NativeWord::IsBuffer, "Is the value a byte buffer?", "value -- bool")?;
    add_native(interp, "value.is-hash-table?", NativeWord::IsHashTable, "Is the value a hash table?", "value -- bool")?;
    add_native(interp, "value.is-token?", NativeWord::IsToken, "Is the value a lexical token?", "value -- bool")?;
    add_native(interp, "value.is-code?", NativeWord::IsCode, "Is the value a block of bytecode?", "value -- bool")?;
    add_native(interp, "string.size@", NativeWord::StringLength, "Push the length of a string in characters.", "string -- size")?;
    add_native(interp, "string.[]!", NativeWord::StringInsert, "Insert a string into another string.", "sub index string -- updated")?;
    add_native(interp, "string.remove", NativeWord::StringRemove, "Remove characters from a string.", "count position string -- updated")?;
    add_native(interp, "string.find", NativeWord::StringFind, "Find the first occurrence of a string within another.", "search string -- index")?;
    add_native(interp, "string.[]@", NativeWord::StringIndexRead, "Read one character of a string.", "index string -- character")?;
    add_native(interp, "string.to_number", NativeWord::StringToNumber, "Convert a string into a number.", "string -- number")?;
    add_native(interp, "to_string", NativeWord::ToString, "Convert a value to a string.", "value -- string")?;
    add_native(interp, "hex", NativeWord::Hex, "Convert a number into its hexadecimal rendering.", "number -- hex_string")?;
    add_native(interp, "unique_str", NativeWord::UniqueStr, "Push a string unseen from this word before.", " -- string")?;
    add_native(interp, "string.npos", NativeWord::StringNpos, "The value a failed search pushes.", " -- npos")?;
    add_native(interp, "#", NativeWord::DataDefinition, "Define a structure and its accessor words.", "[defaults] name fields hidden? init? -- ")?;
    add_native(interp, "#@", NativeWord::ReadField, "Read a field of a structure.", "structure index -- value")?;
    add_native(interp, "#!", NativeWord::WriteField, "Write a field of a structure.", "value structure index -- ")?;
    add_native(interp, "#.iterate", NativeWord::StructureIterate, "Call a word for each field of a structure.", "word-index structure -- ")?;
    add_native(interp, "#.field-exists?", NativeWord::StructureFieldExists, "Push whether the structure has the named field.", "name structure -- bool")?;
    add_native(interp, "#.=", NativeWord::StructureCompare, "Push whether two structures are equal.", "a b -- bool")?;
    add_native(interp, "[].new", NativeWord::ArrayNew, "Create a new array of the given size.", "size -- array")?;
    add_native(interp, "[].size@", NativeWord::ArraySize, "Push the size of an array.", "array -- size")?;
    add_native(interp, "[]!", NativeWord::ArrayWriteIndex, "Write a value into an array.", "value index array -- ")?;
    add_native(interp, "[]@", NativeWord::ArrayReadIndex, "Read a value from an array.", "index array -- value")?;
    add_native(interp, "[].size!", NativeWord::ArrayResize, "Resize an array, padding with nothing values.", "size array -- ")?;
    add_native(interp, "[].insert", NativeWord::ArrayInsert, "Insert a value into an array at a position.", "value index array -- ")?;
    add_native(interp, "[].delete", NativeWord::ArrayDelete, "Remove the value of an array at a position.", "index array -- ")?;
    add_native(interp, "[].+", NativeWord::ArrayPlus, "Append deep clones of one array's items onto another.", "dest source -- dest")?;
    add_native(interp, "[].=", NativeWord::ArrayCompare, "Push whether two arrays are equal.", "a b -- bool")?;
    add_native(interp, "[].push_front!", NativeWord::ArrayPushFront, "Push a value onto the front of an array.", "value array -- ")?;
    add_native(interp, "[].push_back!", NativeWord::ArrayPushBack, "Push a value onto the back of an array.", "value array -- ")?;
    add_native(interp, "[].pop_front!", NativeWord::ArrayPopFront, "Pop a value from the front of an array.", "array -- value")?;
    add_native(interp, "[].pop_back!", NativeWord::ArrayPopBack, "Pop a value from the back of an array.", "array -- value")?;
    add_native(interp, "buffer.new", NativeWord::BufferNew, "Create a new byte buffer.", "size -- buffer")?;
    add_native(interp, "buffer.size@", NativeWord::BufferSize, "Push the size of a byte buffer.", "buffer -- size")?;
    add_native(interp, "buffer.size!", NativeWord::BufferResize, "Resize a byte buffer.", "size buffer -- ")?;
    add_native(interp, "buffer.int!", NativeWord::BufferWriteInt, "Write an integer of a given size into a buffer.", "value buffer byte_size -- ")?;
    add_native(interp, "buffer.int@", NativeWord::BufferReadInt, "Read an integer of a given size from a buffer.", "buffer byte_size is_signed -- value")?;
    add_native(interp, "buffer.string!", NativeWord::BufferWriteString, "Write a string of a given size into a buffer.", "value buffer size -- ")?;
    add_native(interp, "buffer.string@", NativeWord::BufferReadString, "Read a string of a given size from a buffer.", "buffer size -- value")?;
    add_native(interp, "buffer.position!", NativeWord::BufferSetPosition, "Move the cursor of a buffer.", "position buffer -- ")?;
    add_native(interp, "buffer.position@", NativeWord::BufferGetPosition, "Push the cursor of a buffer.", "buffer -- position")?;
    add_native(interp, "{}.new", NativeWord::HashNew, "Create a new hash table.", " -- hash_table")?;
    add_native(interp, "{}!", NativeWord::HashInsert, "Write a value under a key in a hash table.", "value key table -- ")?;
    add_native(interp, "{}@", NativeWord::HashFind, "Read the value under a key in a hash table.", "key table -- value")?;
    add_native(interp, "{}?", NativeWord::HashExists, "Push whether a key exists in a hash table.", "key table -- bool")?;
    add_native(interp, "{}.+", NativeWord::HashPlus, "Merge deep clones of one table's pairs into another.", "dest source -- dest")?;
    add_native(interp, "{}.=", NativeWord::HashCompare, "Push whether two hash tables are equal.", "a b -- bool")?;
    add_native(interp, "{}.size@", NativeWord::HashSize, "Push the number of pairs in a hash table.", "table -- size")?;
    add_native(interp, "{}.iterate", NativeWord::HashIterate, "Call a word for each pair of a hash table.", "word_index table -- ")?;
    add_native(interp, "0=", NativeWord::ZeroEqual, "Push the true flag where the popped number is zero.", "n -- flag")?;
    add_native(interp, "<>", NativeWord::NotEqual, "Push whether the top two values differ.", "a b -- flag")?;
    add_native(interp, "true", NativeWord::PushTrueFlag, "Push the true flag, minus one.", " -- true")?;
    add_native(interp, "+", NativeWord::Add, "Add two numbers or strings.", "a b -- result")?;
    add_native(interp, "-", NativeWord::Subtract, "Subtract the top number from the second.", "a b -- result")?;
    add_native(interp, "*", NativeWord::Multiply, "Multiply two numbers.", "a b -- result")?;
    add_native(interp, "/", NativeWord::Divide, "Divide the second number by the top.", "a b -- result")?;
    add_native(interp, "%", NativeWord::Modulo, "The remainder of dividing the second number by the top.", "a b -- result")?;
    add_native(interp, "&&", NativeWord::LogicAnd, "Logically combine two values.", "a b -- bool")?;
    add_native(interp, "||", NativeWord::LogicOr, "Logically combine two values.", "a b -- bool")?;
    add_native(interp, "'", NativeWord::LogicNot, "Logically invert a value.", "bool -- bool")?;
    add_native(interp, "&", NativeWord::BitAnd, "Combine two numbers bitwise.", "a b -- result")?;
    add_native(interp, "|", NativeWord::BitOr, "Combine two numbers bitwise.", "a b -- result")?;
    add_native(interp, "^", NativeWord::BitXor, "Combine two numbers bitwise.", "a b -- result")?;
    add_native(interp, "~", NativeWord::BitNot, "Invert the bits of a number.", "number -- result")?;
    add_native(interp, "invert", NativeWord::BitNot, "Invert the bits of a number.", "n -- ~n")?;
    add_native(interp, "and", NativeWord::BitAnd, "Combine two numbers bitwise.", "n1 n2 -- n")?;
    add_native(interp, "or", NativeWord::BitOr, "Combine two numbers bitwise.", "n1 n2 -- n")?;
    add_native(interp, "xor", NativeWord::BitXor, "Combine two numbers bitwise.", "n1 n2 -- n")?;
    add_native(interp, "<<", NativeWord::ShiftLeft, "Shift a number's bits to the left.", "value amount -- result")?;
    add_native(interp, ">>", NativeWord::ShiftRight, "Shift a number's bits to the right.", "value amount -- result")?;
    add_native(interp, "=", NativeWord::Equal, "Push the true flag where two values are equal.", "a b -- flag")?;
    add_native(interp, ">=", NativeWord::GreaterEqual, "Is the second value at least the top?", "a b -- bool")?;
    add_native(interp, "<=", NativeWord::LessEqual, "Is the second value at most the top?", "a b -- bool")?;
    add_native(interp, ">", NativeWord::Greater, "Push the true flag where the second value is greater.", "a b -- flag")?;
    add_native(interp, "<", NativeWord::Less, "Push the true flag where the second value is smaller.", "a b -- flag")?;
    add_native_immediate(interp, "variable", NativeWord::VariableIm, "Define a variable named by the next word.", " -- ")?;
    add_native_immediate(interp, "constant", NativeWord::ConstantIm, "Define a constant named by the next word.", "value -- ")?;
    add_native(interp, "@", NativeWord::VariableRead, "Read the variable at the popped index.", "index -- value")?;
    add_native(interp, "!", NativeWord::VariableWrite, "Write a value to the variable at the popped index.", "value index -- ")?;
    add_native_immediate(interp, "if", NativeWord::IfWord, "Run the body where the test is true.", "test -- ")?;
    add_native_immediate(interp, "else", NativeWord::ElseWord, "The other branch of a conditional.", " -- ")?;
    add_native_immediate(interp, "then", NativeWord::ThenWord, "Close a conditional.", " -- ")?;
    add_native_immediate(interp, "begin", NativeWord::BeginWord, "Open a loop.", " -- ")?;
    add_native_immediate(interp, "until", NativeWord::UntilWord, "Close a loop that repeats until the flag is true.", "flag -- ")?;
    add_native_immediate(interp, "while", NativeWord::WhileWord, "Leave the loop where the flag is false.", "flag -- ")?;
    add_native_immediate(interp, "repeat", NativeWord::RepeatWord, "Close a guarded loop.", " -- ")?;
    add_native_immediate(interp, "do", NativeWord::DoWord, "Open a counted loop.", "limit start -- ")?;
    add_native_immediate(interp, "loop", NativeWord::LoopWord, "Close a counted loop.", " -- ")?;
    add_native_immediate(interp, "break", NativeWord::BreakWord, "Jump to the loop's exit.", " -- ")?;
    add_native_immediate(interp, "continue", NativeWord::ContinueWord, "Jump to the loop's start.", " -- ")?;
    add_native(interp, "i", NativeWord::LoopIndexI, "Push the index of the running counted loop.", " -- index")?;
    add_native(interp, "j", NativeWord::LoopIndexJ, "Push the index of the counted loop one level out.", " -- index")?;
    add_native_immediate(interp, "try", NativeWord::TryWord, "Open a protected block.", " -- ")?;
    add_native_immediate(interp, "catch", NativeWord::CatchWord, "Open the handler of a protected block.", " -- ")?;
    add_native_immediate(interp, "endtry", NativeWord::EndTryWord, "Close a protected block.", " -- ")?;
    add_native_hidden(interp, "(do)", NativeWord::DoSetup, "The runtime setup of a counted loop.", "limit start -- ")?;
    add_native_hidden(interp, "(loop)", NativeWord::DoNext, "The runtime step of a counted loop.", " -- flag")?;
    add_native_hidden(interp, "(do-end)", NativeWord::DoEnd, "The runtime end of a counted loop.", " -- ")?;
    register_listing_structures(interp)
}

/// Register the structure definitions the word listing words build their
/// answers from: one for source locations and one for word entries.
fn register_listing_structures(interp: &mut SorthInterpreter) -> (r: ScriptResult<()>)
    requires
        old(interp).wf(),
    ensures
        SorthInterpreter::frame_ok(*old(interp), *final(interp)),
        r is Ok,
        final(interp).stack == old(interp).stack,
        final(interp).variables.items == old(interp).variables.items,
        final(interp).constructors == old(interp).constructors,
{
    let here = SourceLocation::new();
    let mut location_fields: Vec<String> = Vec::new();
    location_fields.push("path".to_owned());
    location_fields.push("line".to_owned());
    location_fields.push("column".to_owned());
    let mut location_defaults: Vec<Value> = Vec::new();
    location_defaults.push(Value::String(String::new()));
    location_defaults.push(Value::Int(1));
    location_defaults.push(Value::Int(1));
    register_structure(
        interp,
        "sorth.location".to_owned(),
        location_fields,
        location_defaults,
        true,
        &here,
    )?;
    let mut word_fields: Vec<String> = Vec::new();
    word_fields.push("name".to_owned());
    word_fields.push("is_immediate".to_owned());
    word_fields.push("is_scripted".to_owned());
    word_fields.push("is_visible".to_owned());
    word_fields.push("description".to_owned());
    word_fields.push("signature".to_owned());
    word_fields.push("handler_index".to_owned());
    word_fields.push("location".to_owned());
    let mut word_defaults: Vec<Value> = Vec::new();
    word_defaults.push(Value::String(String::new()));
    word_defaults.push(Value::Bool(false));
    word_defaults.push(Value::Bool(false));
    word_defaults.push(Value::Bool(false));
    word_defaults.push(Value::String(String::new()));
    word_defaults.push(Value::String(String::new()));
    word_defaults.push(Value::Int(0));
    word_defaults.push(Value::Nothing);
    register_structure(
        interp,
        "sorth.word".to_owned(),
        word_fields,
        word_defaults,
        true,
        &here,
    )
}

/// Find the store index of a named structure definition among those visible.
fn find_definition(interp: &SorthInterpreter, name: &str) -> (r: Option<usize>)
    requires
        interp.wf(),
    ensures
        r matches Some(i) ==> i < interp.store@.definitions.len(),
{
    let mut k: usize = 0;
    while k < interp.data_definitions.len()
        invariant
            interp.wf(),
            k <= interp.data_definitions.items@.len(),
        decreases interp.data_definitions.items@.len() - k,
    {
        let index = *interp.data_definitions.get(k);
        if index < interp.store.definitions.len() {
            if crate::dictionary::string_eq_str(&interp.store.definitions[index].name, name) {
                return Some(index);
            }
        }
        k = k + 1;
    }
    None
}

/// Build the word table: a hash table from each defined name to a structure
/// describing its newest binding.
fn word_get_word_table(interp: &mut SorthInterpreter) -> (r: ScriptResult<()>)
    requires
        old(interp).wf(),
    ensures
        SorthInterpreter::frame_ok(*old(interp), *final(interp)),
{
    let word_definition = match find_definition(interp, "sorth.word") {
        Some(i) => i,
        None => {
            return Err(interp.script_error_here("The word entry structure is not defined."));
        },
    };
    let location_definition = match find_definition(interp, "sorth.location") {
        Some(i) => i,
        None => {
            return Err(interp.script_error_here("The location structure is not defined."));
        },
    };
    let merged = interp.dictionary.get_merged();
    let mut pairs: Vec<(Value, Value)> = Vec::new();
    let mut k: usize = 0;
    while k < merged.len()
        invariant
            interp.wf(),
            interp.spec_context_count() == old(interp).spec_context_count(),
            k <= merged@.len(),
        decreases merged@.len() - k,
    {
        let name = merged[k].0.clone();
        let info = merged[k].1.clone();
        if (info.handler_index as u64) > 0x7fffffffffffffffu64 || (info.location.line as u64)
            > 0x7fffffffffffffffu64 || (info.location.column as u64) > 0x7fffffffffffffffu64 {
            return Err(interp.script_error_here("Word entry does not fit the table."));
        }
        let mut location_fields: Vec<Value> = Vec::new();
        location_fields.push(Value::String(info.location.path.clone()));
        location_fields.push(Value::Int(info.location.line as i64));
        location_fields.push(Value::Int(info.location.column as i64));
        let location_object = interp.store.alloc_object(
            crate::store::DataObject {
                definition_index: location_definition,
                fields: location_fields,
            },
        );
        let mut word_fields: Vec<Value> = Vec::new();
        word_fields.push(Value::String(info.name.clone()));
        word_fields.push(Value::Bool(matches!(info.runtime, WordRuntime::Immediate)));
        word_fields.push(Value::Bool(matches!(info.word_type, WordType::Scripted)));
        word_fields.push(Value::Bool(matches!(info.visibility, WordVisibility::Visible)));
        word_fields.push(Value::String(info.description.clone()));
        word_fields.push(Value::String(info.signature.clone()));
        word_fields.push(Value::Int(info.handler_index as i64));
        word_fields.push(Value::DataObject(location_object));
        let word_object = interp.store.alloc_object(
            crate::store::DataObject { definition_index: word_definition, fields: word_fields },
        );
        pairs.push((Value::String(name), Value::DataObject(word_object)));
        k = k + 1;
    }
    let table = interp.store.alloc_hash(pairs);
    interp.push(Value::HashMap(table));
    Ok(())
}

} // verus!
