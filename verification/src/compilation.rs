use vstd::prelude::*;
use crate::code::{ByteCode, Instruction, Op};
use crate::dictionary::{WordContext, WordRuntime, WordVisibility};
use crate::location::SourceLocation;
use crate::tokenizing::Token;
use crate::value::{Value, spec_is_stringable, spec_string_val};

verus! {

/// Where newly emitted instructions are placed in the block under
/// construction: at its end, as usual, or at its top, for constructs that
/// prepend setup code.
#[derive(Clone, Copy, PartialEq, Eq)]
pub enum InsertionLocation {
    /// Append new instructions at the end of the block.
    AtEnd,

    /// Prepend new instructions at the top of the block.
    AtTop,
}

/// A word or block being built: the snapshot of everything a finished word
/// definition needs.
pub struct Construction {
    /// The name of the word being built.
    pub name: String,

    /// Where in the source code the word's definition started.
    pub location: SourceLocation,

    /// When the finished word executes.
    pub runtime: WordRuntime,

    /// Whether the finished word is visible in listings.
    pub visibility: WordVisibility,

    /// Whether the interpreter manages the finished word's context.
    pub context: WordContext,

    /// The word's description.
    pub description: String,

    /// The word's stack signature.
    pub signature: String,

    /// The bytecode built so far.
    pub code: ByteCode,
}

impl Construction {
    /// Start an empty construction: an unnamed, normal, visible, managed
    /// word with no code.
    pub fn new() -> (r: Construction)
        ensures
            r.code@.len() == 0,
            r.runtime == WordRuntime::Normal,
            r.visibility == WordVisibility::Visible,
            r.context == WordContext::Managed,
    {
        Construction {
            name: String::new(),
            location: SourceLocation::new(),
            runtime: WordRuntime::Normal,
            visibility: WordVisibility::Visible,
            context: WordContext::Managed,
            description: String::new(),
            signature: String::new(),
            code: Vec::new(),
        }
    }

    /// Start a construction over an existing block of code.
    pub fn new_with_code(code: ByteCode) -> (r: Construction)
        ensures
            r.code == code,
            r.runtime == WordRuntime::Normal,
            r.visibility == WordVisibility::Visible,
            r.context == WordContext::Managed,
    {
        Construction {
            name: String::new(),
            location: SourceLocation::new(),
            runtime: WordRuntime::Normal,
            visibility: WordVisibility::Visible,
            context: WordContext::Managed,
            description: String::new(),
            signature: String::new(),
            code,
        }
    }
}

/// The state of one compilation unit: the token stream being consumed, a
/// cursor into it, the insertion mode for new instructions, and a stack of
/// constructions for nested blocks.  The bottom construction is the unit's
/// top level code.
pub struct CodeConstructor {
    /// The tokens of this compilation unit.
    pub tokens: Vec<Token>,

    /// How many tokens have been consumed.
    pub cursor: usize,

    /// Where new instructions are inserted in the top construction.
    pub insertion: InsertionLocation,

    /// The stack of constructions; the top one receives new instructions.
    pub stack: Vec<Construction>,
}

impl CodeConstructor {
    /// A constructor keeps its cursor within the token stream and always has
    /// the unit's own construction at the bottom of the stack.
    pub open spec fn wf(&self) -> bool {
        self.cursor <= self.tokens@.len() && self.stack@.len() >= 1
    }

    /// Create a new compilation context over a token list.
    pub fn new(tokens: Vec<Token>) -> (r: CodeConstructor)
        ensures
            r.wf(),
            r.tokens == tokens,
            r.cursor == 0,
            r.insertion == InsertionLocation::AtEnd,
            r.stack@.len() == 1,
            r.stack@[0].code@.len() == 0,
    {
        let mut stack: Vec<Construction> = Vec::new();
        stack.push(Construction::new());
        CodeConstructor { tokens, cursor: 0, insertion: InsertionLocation::AtEnd, stack }
    }

    /// Consume and return the next token, or nothing at the end of the
    /// stream.
    pub fn next_token(&mut self) -> (r: Option<Token>)
        requires
            old(self).wf(),
        ensures
            final(self).wf(),
            final(self).tokens == old(self).tokens,
            final(self).stack == old(self).stack,
            final(self).insertion == old(self).insertion,
            match r {
                Some(t) => old(self).cursor < old(self).tokens@.len() && t == old(
                    self,
                ).tokens@[old(self).cursor as int] && final(self).cursor == old(self).cursor + 1,
                None => old(self).cursor == old(self).tokens@.len() && final(self).cursor == old(
                    self,
                ).cursor,
            },
    {
        if self.cursor < self.tokens.len() {
            let token = self.tokens[self.cursor].clone();
            self.cursor = self.cursor + 1;
            Some(token)
        } else {
            None
        }
    }

    /// Whether a token is left to consume.
    pub fn has_next_token(&self) -> (r: bool)
        ensures
            r == (self.cursor < self.tokens@.len()),
    {
        self.cursor < self.tokens.len()
    }

    /// Add an instruction to the block under construction, at the end or at
    /// the top as the insertion mode says.
    pub fn push_instruction(&mut self, instruction: Instruction)
        requires
            old(self).wf(),
        ensures
            final(self).wf(),
            final(self).tokens == old(self).tokens,
            final(self).cursor == old(self).cursor,
            final(self).insertion == old(self).insertion,
            final(self).stack@.len() == old(self).stack@.len(),
            forall|k: int|
                0 <= k < old(self).stack@.len() - 1 ==> final(self).stack@[k] == old(
                    self,
                ).stack@[k],
            final(self).stack@.last().code@ == if old(self).insertion
                == InsertionLocation::AtEnd {
                old(self).stack@.last().code@.push(instruction)
            } else {
                seq![instruction] + old(self).stack@.last().code@
            },
            final(self).stack@.last().name == old(self).stack@.last().name,
            final(self).stack@.last().location == old(self).stack@.last().location,
            final(self).stack@.last().runtime == old(self).stack@.last().runtime,
            final(self).stack@.last().visibility == old(self).stack@.last().visibility,
            final(self).stack@.last().context == old(self).stack@.last().context,
            final(self).stack@.last().description == old(self).stack@.last().description,
            final(self).stack@.last().signature == old(self).stack@.last().signature,
    {
        let top = self.stack.len() - 1;
        let mut construction = self.stack.remove(top);
        if matches!(self.insertion, InsertionLocation::AtEnd) {
            construction.code.push(instruction);
        } else {
            construction.code.insert(0, instruction);
            proof {
                assert(construction.code@ =~= seq![instruction] + old(
                    self,
                ).stack@.last().code@);
            }
        }
        self.stack.insert(top, construction);
        proof {
            assert(self.stack@.last() == self.stack@[top as int]);
        }
    }

    /// Open a fresh construction for a nested block.
    pub fn construction_new(&mut self)
        requires
            old(self).wf(),
        ensures
            final(self).wf(),
            final(self).tokens == old(self).tokens,
            final(self).cursor == old(self).cursor,
            final(self).insertion == old(self).insertion,
            final(self).stack@.len() == old(self).stack@.len() + 1,
            final(self).stack@.drop_last() == old(self).stack@,
            final(self).stack@.last().code@.len() == 0,
            final(self).stack@.last().runtime == WordRuntime::Normal,
            final(self).stack@.last().visibility == WordVisibility::Visible,
            final(self).stack@.last().context == WordContext::Managed,
    {
        self.stack.push(Construction::new());
        proof {
            assert(self.stack@.drop_last() =~= old(self).stack@);
        }
    }

    /// Open a construction over an existing block of code.
    pub fn construction_new_with_code(&mut self, code: ByteCode)
        requires
            old(self).wf(),
        ensures
            final(self).wf(),
            final(self).tokens == old(self).tokens,
            final(self).cursor == old(self).cursor,
            final(self).insertion == old(self).insertion,
            final(self).stack@.len() == old(self).stack@.len() + 1,
            final(self).stack@.drop_last() == old(self).stack@,
            final(self).stack@.last().code == code,
    {
        self.stack.push(Construction::new_with_code(code));
        proof {
            assert(self.stack@.drop_last() =~= old(self).stack@);
        }
    }

    /// Close and return the top construction.  With only the unit's own
    /// construction left there is nothing to pop.
    pub fn construction_pop(&mut self) -> (r: Option<Construction>)
        requires
            old(self).wf(),
        ensures
            final(self).wf(),
            final(self).tokens == old(self).tokens,
            final(self).cursor == old(self).cursor,
            final(self).insertion == old(self).insertion,
            match r {
                Some(c) => old(self).stack@.len() >= 2 && c == old(self).stack@.last()
                    && final(self).stack@ == old(self).stack@.drop_last(),
                None => old(self).stack@.len() == 1 && final(self).stack == old(self).stack,
            },
    {
        if self.stack.len() >= 2 {
            let top = self.stack.pop();
            match top {
                Some(c) => Some(c),
                None => None,
            }
        } else {
            None
        }
    }

    /// The number of open constructions.
    pub fn construction_count(&self) -> (r: usize)
        ensures
            r == self.stack@.len(),
    {
        self.stack.len()
    }
}

/// The jump family: the operations whose operand is a label during
/// compilation and a relative offset afterward.
pub open spec fn spec_is_jump_family(op: Op) -> bool {
    ||| op is MarkLoopExit
    ||| op is MarkCatch
    ||| op is Jump
    ||| op is JumpIfZero
    ||| op is JumpIfNotZero
}

/// The operand of an operation, where it has one.
pub open spec fn spec_op_operand(op: Op) -> Option<Value> {
    match op {
        Op::DefVariable(v) => Some(v),
        Op::DefConstant(v) => Some(v),
        Op::Execute(v) => Some(v),
        Op::PushConstantValue(v) => Some(v),
        Op::MarkLoopExit(v) => Some(v),
        Op::MarkCatch(v) => Some(v),
        Op::Jump(v) => Some(v),
        Op::JumpIfZero(v) => Some(v),
        Op::JumpIfNotZero(v) => Some(v),
        Op::JumpTarget(v) => Some(v),
        _ => None,
    }
}

/// The index of the first jump target carrying the given label.
pub open spec fn spec_find_target(code: Seq<Instruction>, label: Seq<char>, from: int) -> Option<
    int,
>
    decreases code.len() - from,
{
    if from < 0 || from >= code.len() {
        None
    } else if code[from].op matches Op::JumpTarget(v) && spec_is_stringable(v) && spec_string_val(
        v,
    ) == label {
        Some(from)
    } else {
        spec_find_target(code, label, from + 1)
    }
}

/// The same jump operation with a new operand.
pub open spec fn spec_with_operand(op: Op, v: Value) -> Op {
    match op {
        Op::MarkLoopExit(_) => Op::MarkLoopExit(v),
        Op::MarkCatch(_) => Op::MarkCatch(v),
        Op::Jump(_) => Op::Jump(v),
        Op::JumpIfZero(_) => Op::JumpIfZero(v),
        Op::JumpIfNotZero(_) => Op::JumpIfNotZero(v),
        _ => op,
    }
}

/// How jump resolution rewrites the instruction at one index: a jump target's
/// operand is erased; a jump family operand that is already an integer is
/// kept; a jump family operand that is a label becomes the signed offset from
/// this instruction to the first jump target carrying that label; everything
/// else is untouched.
pub open spec fn spec_resolved_at(oldc: Seq<Instruction>, newc: Seq<Instruction>, k: int) -> bool
    recommends
        0 <= k < oldc.len(),
        oldc.len() == newc.len(),
{
    let oi = oldc[k];
    let ni = newc[k];
    ni.location == oi.location && if oi.op is JumpTarget {
        ni.op == Op::JumpTarget(Value::Nothing)
    } else if spec_is_jump_family(oi.op) {
        match spec_op_operand(oi.op) {
            Some(v) => if v is Int {
                ni == oi
            } else if spec_is_stringable(v) {
                match spec_find_target(oldc, spec_string_val(v), 0) {
                    Some(t) => ni.op == spec_with_operand(oi.op, Value::Int((t - k) as i64)),
                    None => false,
                }
            } else {
                false
            },
            None => false,
        }
    } else {
        ni == oi
    }
}

/// Find the first jump target carrying the given label.
fn find_target(code: &ByteCode, label: &String) -> (r: Option<usize>)
    ensures
        match r {
            Some(t) => spec_find_target(code@, label@, 0) == Some(t as int) && t < code@.len(),
            None => spec_find_target(code@, label@, 0) is None,
        },
{
    let mut i: usize = 0;
    while i < code.len()
        invariant
            i <= code@.len(),
            spec_find_target(code@, label@, 0) == spec_find_target(code@, label@, i as int),
        decreases code@.len() - i,
    {
        let is_match = match &code[i].op {
            Op::JumpTarget(v) => {
                if v.is_stringable() {
                    let text = v.get_string_val();
                    text == *label
                } else {
                    false
                }
            },
            _ => false,
        };
        if is_match {
            return Some(i);
        }
        i = i + 1;
    }
    None
}

/// Every jump family operand of the block is already an integer offset or a
/// label that some jump target of the block carries.
pub open spec fn spec_labels_resolvable(code: Seq<Instruction>) -> bool {
    forall|k: int|
        0 <= k < code.len() && spec_is_jump_family((#[trigger] code[k]).op)
            ==> match spec_op_operand(code[k].op) {
            Some(v) => v is Int || (spec_is_stringable(v) && spec_find_target(
                code,
                spec_string_val(v),
                0,
            ) is Some),
            None => false,
        }
}

/// Resolve the symbolic labels of a block: every jump family operand becomes
/// the signed relative offset to its target, and every jump target's operand
/// is erased.  Answers false where a label has no target, where an operand is
/// neither a label nor an offset, or where the block is too large for signed
/// offsets; the block is unchanged in that case.  For a block whose labels
/// all have targets, resolution succeeds.
pub fn resolve_jumps_code(code: &mut ByteCode) -> (r: bool)
    ensures
        final(code)@.len() == old(code)@.len(),
        r ==> forall|k: int|
            0 <= k < old(code)@.len() ==> spec_resolved_at(old(code)@, final(code)@, k),
        !r ==> final(code)@ == old(code)@,
        old(code)@.len() < 0x7fffffffffffffff && spec_labels_resolvable(old(code)@) ==> r,
{
    if (code.len() as u64) >= 0x7fffffffffffffffu64 {
        return false;
    }
    let snapshot = crate::code::clone_code(code);
    let mut out: ByteCode = Vec::new();
    let mut i: usize = 0;
    while i < snapshot.len()
        invariant
            snapshot@ == old(code)@,
            code@ == old(code)@,
            snapshot@.len() < 0x7fffffffffffffff,
            code@.len() < 0x7fffffffffffffff,
            i <= snapshot@.len(),
            out@.len() == i,
            forall|k: int| 0 <= k < i ==> spec_resolved_at(snapshot@, out@, k),
        decreases snapshot@.len() - i,
    {
        let instruction = &snapshot[i];
        let location = match &instruction.location {
            Some(loc) => Some(loc.clone()),
            None => None,
        };
        let is_target = matches!(&instruction.op, Op::JumpTarget(_));
        let ghost prev_out = out@;
        if is_target {
            out.push(Instruction { location, op: Op::JumpTarget(Value::Nothing) });
            i = i + 1;
            proof {
                assert forall|k: int| 0 <= k < i implies spec_resolved_at(
                    snapshot@,
                    out@,
                    k,
                ) by {
                    if k < i - 1 {
                        assert(out@[k] == prev_out[k]);
                        assert(spec_resolved_at(snapshot@, prev_out, k));
                    }
                }
            }
            continue;
        }
        let is_jump = matches!(
            &instruction.op,
            Op::MarkLoopExit(_) | Op::MarkCatch(_) | Op::Jump(_) | Op::JumpIfZero(_)
                | Op::JumpIfNotZero(_)
        );
        if !is_jump {
            out.push(instruction.clone());
            i = i + 1;
            proof {
                assert forall|k: int| 0 <= k < i implies spec_resolved_at(
                    snapshot@,
                    out@,
                    k,
                ) by {
                    if k < i - 1 {
                        assert(out@[k] == prev_out[k]);
                        assert(spec_resolved_at(snapshot@, prev_out, k));
                    }
                }
            }
            continue;
        }
        let operand = match &instruction.op {
            Op::MarkLoopExit(v) => v.clone(),
            Op::MarkCatch(v) => v.clone(),
            Op::Jump(v) => v.clone(),
            Op::JumpIfZero(v) => v.clone(),
            Op::JumpIfNotZero(v) => v.clone(),
            _ => Value::Nothing,
        };
        if operand.is_int() {
            out.push(instruction.clone());
            i = i + 1;
            proof {
                assert forall|k: int| 0 <= k < i implies spec_resolved_at(
                    snapshot@,
                    out@,
                    k,
                ) by {
                    if k < i - 1 {
                        assert(out@[k] == prev_out[k]);
                        assert(spec_resolved_at(snapshot@, prev_out, k));
                    }
                }
            }
            continue;
        }
        proof {
            assert(spec_op_operand(snapshot@[i as int].op) == Some(operand));
            assert(spec_is_jump_family(snapshot@[i as int].op));
        }
        if !operand.is_stringable() {
            proof {
                assert(!spec_labels_resolvable(snapshot@));
            }
            return false;
        }
        let label = operand.get_string_val();
        let target = match find_target(&snapshot, &label) {
            Some(t) => t,
            None => {
                proof {
                    assert(!spec_labels_resolvable(snapshot@));
                }
                return false;
            },
        };
        let rel: i64 = (target as i64) - (i as i64);
        let new_op = match &instruction.op {
            Op::MarkLoopExit(_) => Op::MarkLoopExit(Value::Int(rel)),
            Op::MarkCatch(_) => Op::MarkCatch(Value::Int(rel)),
            Op::Jump(_) => Op::Jump(Value::Int(rel)),
            Op::JumpIfZero(_) => Op::JumpIfZero(Value::Int(rel)),
            Op::JumpIfNotZero(_) => Op::JumpIfNotZero(Value::Int(rel)),
            _ => Op::JumpTarget(Value::Nothing),
        };
        proof {
            assert(spec_op_operand(snapshot@[i as int].op) == Some(operand));
            assert(spec_is_jump_family(snapshot@[i as int].op));
            assert(!(operand is Int));
            assert(spec_is_stringable(operand));
            assert(spec_find_target(snapshot@, label@, 0) == Some(target as int));
            assert(label@ == spec_string_val(operand));
            assert(new_op == spec_with_operand(snapshot@[i as int].op, Value::Int(rel)));
        }
        out.push(Instruction { location, op: new_op });
        i = i + 1;
        proof {
            assert(spec_resolved_at(snapshot@, out@, i - 1));
            assert forall|k: int| 0 <= k < i implies spec_resolved_at(snapshot@, out@, k) by {
                if k < i - 1 {
                    assert(out@[k] == prev_out[k]);
                    assert(spec_resolved_at(snapshot@, prev_out, k));
                }
            }
        }
    }
    *code = out;
    true
}


/// The constructor is unchanged but for the top construction, and the top
/// construction is unchanged but for the fields a setter names.
pub open spec fn spec_top_kept(pre: CodeConstructor, post: CodeConstructor) -> bool {
    &&& post.tokens == pre.tokens
    &&& post.cursor == pre.cursor
    &&& post.insertion == pre.insertion
    &&& pre.stack@.len() >= 1
    &&& post.stack@.len() == pre.stack@.len()
    &&& forall|k: int| 0 <= k < pre.stack@.len() - 1 ==> #[trigger] post.stack@[k] == pre.stack@[k]
}

impl CodeConstructor {
    /// Set the name and definition location of the construction on top.
    pub fn set_top_name_location(&mut self, name: String, location: SourceLocation)
        requires
            old(self).wf(),
        ensures
            final(self).wf(),
            spec_top_kept(*old(self), *final(self)),
            final(self).stack@.last().name == name,
            final(self).stack@.last().location == location,
            final(self).stack@.last().runtime == old(self).stack@.last().runtime,
            final(self).stack@.last().visibility == old(self).stack@.last().visibility,
            final(self).stack@.last().context == old(self).stack@.last().context,
            final(self).stack@.last().description == old(self).stack@.last().description,
            final(self).stack@.last().signature == old(self).stack@.last().signature,
            final(self).stack@.last().code == old(self).stack@.last().code,
    {
        let top = self.stack.len() - 1;
        let mut construction = self.stack.remove(top);
        construction.name = name;
        construction.location = location;
        self.stack.insert(top, construction);
    }

    /// Set when the word being built executes.
    pub fn set_top_runtime(&mut self, runtime: WordRuntime)
        requires
            old(self).wf(),
        ensures
            final(self).wf(),
            spec_top_kept(*old(self), *final(self)),
            final(self).stack@.last().runtime == runtime,
            final(self).stack@.last().name == old(self).stack@.last().name,
            final(self).stack@.last().location == old(self).stack@.last().location,
            final(self).stack@.last().visibility == old(self).stack@.last().visibility,
            final(self).stack@.last().context == old(self).stack@.last().context,
            final(self).stack@.last().description == old(self).stack@.last().description,
            final(self).stack@.last().signature == old(self).stack@.last().signature,
            final(self).stack@.last().code == old(self).stack@.last().code,
    {
        let top = self.stack.len() - 1;
        let mut construction = self.stack.remove(top);
        construction.runtime = runtime;
        self.stack.insert(top, construction);
    }

    /// Set whether the word being built shows in listings.
    pub fn set_top_visibility(&mut self, visibility: WordVisibility)
        requires
            old(self).wf(),
        ensures
            final(self).wf(),
            spec_top_kept(*old(self), *final(self)),
            final(self).stack@.last().visibility == visibility,
            final(self).stack@.last().name == old(self).stack@.last().name,
            final(self).stack@.last().location == old(self).stack@.last().location,
            final(self).stack@.last().runtime == old(self).stack@.last().runtime,
            final(self).stack@.last().context == old(self).stack@.last().context,
            final(self).stack@.last().description == old(self).stack@.last().description,
            final(self).stack@.last().signature == old(self).stack@.last().signature,
            final(self).stack@.last().code == old(self).stack@.last().code,
    {
        let top = self.stack.len() - 1;
        let mut construction = self.stack.remove(top);
        construction.visibility = visibility;
        self.stack.insert(top, construction);
    }

    /// Set whether the interpreter manages the built word's context.
    pub fn set_top_context(&mut self, context: WordContext)
        requires
            old(self).wf(),
        ensures
            final(self).wf(),
            spec_top_kept(*old(self), *final(self)),
            final(self).stack@.last().context == context,
            final(self).stack@.last().name == old(self).stack@.last().name,
            final(self).stack@.last().location == old(self).stack@.last().location,
            final(self).stack@.last().runtime == old(self).stack@.last().runtime,
            final(self).stack@.last().visibility == old(self).stack@.last().visibility,
            final(self).stack@.last().description == old(self).stack@.last().description,
            final(self).stack@.last().signature == old(self).stack@.last().signature,
            final(self).stack@.last().code == old(self).stack@.last().code,
    {
        let top = self.stack.len() - 1;
        let mut construction = self.stack.remove(top);
        construction.context = context;
        self.stack.insert(top, construction);
    }

    /// Set the description of the word being built.
    pub fn set_top_description(&mut self, description: String)
        requires
            old(self).wf(),
        ensures
            final(self).wf(),
            spec_top_kept(*old(self), *final(self)),
            final(self).stack@.last().description == description,
            final(self).stack@.last().name == old(self).stack@.last().name,
            final(self).stack@.last().location == old(self).stack@.last().location,
            final(self).stack@.last().runtime == old(self).stack@.last().runtime,
            final(self).stack@.last().visibility == old(self).stack@.last().visibility,
            final(self).stack@.last().context == old(self).stack@.last().context,
            final(self).stack@.last().signature == old(self).stack@.last().signature,
            final(self).stack@.last().code == old(self).stack@.last().code,
    {
        let top = self.stack.len() - 1;
        let mut construction = self.stack.remove(top);
        construction.description = description;
        self.stack.insert(top, construction);
    }

    /// Set the stack signature of the word being built.
    pub fn set_top_signature(&mut self, signature: String)
        requires
            old(self).wf(),
        ensures
            final(self).wf(),
            spec_top_kept(*old(self), *final(self)),
            final(self).stack@.last().signature == signature,
            final(self).stack@.last().name == old(self).stack@.last().name,
            final(self).stack@.last().location == old(self).stack@.last().location,
            final(self).stack@.last().runtime == old(self).stack@.last().runtime,
            final(self).stack@.last().visibility == old(self).stack@.last().visibility,
            final(self).stack@.last().context == old(self).stack@.last().context,
            final(self).stack@.last().description == old(self).stack@.last().description,
            final(self).stack@.last().code == old(self).stack@.last().code,
    {
        let top = self.stack.len() - 1;
        let mut construction = self.stack.remove(top);
        construction.signature = signature;
        self.stack.insert(top, construction);
    }

    /// Append an instruction at the end of the block under construction,
    /// whatever the insertion mode says.
    pub fn push_instruction_at_end(&mut self, instruction: Instruction)
        requires
            old(self).wf(),
        ensures
            final(self).wf(),
            spec_top_kept(*old(self), *final(self)),
            final(self).stack@.last().code@ == old(self).stack@.last().code@.push(
                instruction,
            ),
            final(self).stack@.last().name == old(self).stack@.last().name,
            final(self).stack@.last().location == old(self).stack@.last().location,
            final(self).stack@.last().runtime == old(self).stack@.last().runtime,
            final(self).stack@.last().visibility == old(self).stack@.last().visibility,
            final(self).stack@.last().context == old(self).stack@.last().context,
            final(self).stack@.last().description == old(self).stack@.last().description,
            final(self).stack@.last().signature == old(self).stack@.last().signature,
    {
        let top = self.stack.len() - 1;
        let mut construction = self.stack.remove(top);
        construction.code.push(instruction);
        self.stack.insert(top, construction);
    }
}

/// One instruction went into the block under construction: the constructor is
/// unchanged but for the top construction's code, which grew by the
/// instruction at the end or at the top as the insertion mode says.
pub open spec fn spec_pushed_instruction(
    pre: CodeConstructor,
    post: CodeConstructor,
    instruction: Instruction,
) -> bool {
    &&& post.tokens == pre.tokens
    &&& post.cursor == pre.cursor
    &&& post.insertion == pre.insertion
    &&& post.stack@.len() == pre.stack@.len()
    &&& pre.stack@.len() >= 1
    &&& forall|k: int| 0 <= k < pre.stack@.len() - 1 ==> #[trigger] post.stack@[k] == pre.stack@[k]
    &&& post.stack@.last().code@ == if pre.insertion == InsertionLocation::AtEnd {
        pre.stack@.last().code@.push(instruction)
    } else {
        seq![instruction] + pre.stack@.last().code@
    }
    &&& post.stack@.last().name == pre.stack@.last().name
    &&& post.stack@.last().location == pre.stack@.last().location
    &&& post.stack@.last().runtime == pre.stack@.last().runtime
    &&& post.stack@.last().visibility == pre.stack@.last().visibility
    &&& post.stack@.last().context == pre.stack@.last().context
    &&& post.stack@.last().description == pre.stack@.last().description
    &&& post.stack@.last().signature == pre.stack@.last().signature
}

} // verus!
