use vstd::prelude::*;
use crate::location::SourceLocation;
use crate::value::Value;

verus! {

/// The operations the virtual machine can perform.
///
/// The operand of the jump family (`MarkLoopExit`, `MarkCatch`, `Jump`,
/// `JumpIfZero`, `JumpIfNotZero`, `JumpTarget`) passes through two states:
/// during compilation it is a symbolic label, and after jump resolution it is
/// a signed integer giving the relative offset to the target instruction,
/// with a `JumpTarget`'s operand erased to nothing.
pub enum Op {
    /// Define a variable in the current context.  The value is the new
    /// variable's name.
    DefVariable(Value),

    /// Define a constant in the current context.  The value is the new
    /// constant's name; the constant's value is popped from the stack.
    DefConstant(Value),

    /// Pop a variable index and push that variable's value.
    ReadVariable,

    /// Pop a variable index, pop a value, and store the value in the
    /// variable.
    WriteVariable,

    /// Execute a word.  The value is either the word's name or the word's
    /// handler index.
    Execute(Value),

    /// Push a deep clone of the held constant value onto the stack, so that
    /// executing code can never mutate the literal embedded in the program.
    PushConstantValue(Value),

    /// Mark the next instruction as the top of a loop; the operand resolves
    /// to the relative offset of the loop's exit.
    MarkLoopExit(Value),

    /// Unmark the last loop start and exit pair.
    UnmarkLoopExit,

    /// Mark the location of a catch block; the operand resolves to the
    /// relative offset of the catch block's first instruction.
    MarkCatch(Value),

    /// Unmark the last catch block.
    UnmarkCatch,

    /// Mark a new interpreter context.  Words and variables created afterward
    /// live in the new context until it is released.
    MarkContext,

    /// Release the current interpreter context, losing the words and
    /// variables created within it.  Unbalanced pairs are a runtime error.
    ReleaseContext,

    /// Jump to the instruction at the relative offset held in the operand.
    Jump(Value),

    /// Pop a value; jump to the relative offset where it reads as false.
    JumpIfZero(Value),

    /// Pop a value; jump to the relative offset where it reads as true.
    JumpIfNotZero(Value),

    /// Jump to the start of the loop marked last.  Outside a loop this is a
    /// runtime error.
    JumpLoopStart,

    /// Jump to the exit of the loop marked last.  Outside a loop this is a
    /// runtime error.
    JumpLoopExit,

    /// The landing pad of a jump: a no-op.
    JumpTarget(Value),
}

impl Clone for Op {
    /// Clones keep the operation's value.
    fn clone(&self) -> (r: Self)
        ensures
            r == *self,
    {
        match self {
            Op::DefVariable(value) => Op::DefVariable(value.clone()),
            Op::DefConstant(value) => Op::DefConstant(value.clone()),
            Op::ReadVariable => Op::ReadVariable,
            Op::WriteVariable => Op::WriteVariable,
            Op::Execute(value) => Op::Execute(value.clone()),
            Op::PushConstantValue(value) => Op::PushConstantValue(value.clone()),
            Op::MarkLoopExit(value) => Op::MarkLoopExit(value.clone()),
            Op::UnmarkLoopExit => Op::UnmarkLoopExit,
            Op::MarkCatch(value) => Op::MarkCatch(value.clone()),
            Op::UnmarkCatch => Op::UnmarkCatch,
            Op::MarkContext => Op::MarkContext,
            Op::ReleaseContext => Op::ReleaseContext,
            Op::Jump(value) => Op::Jump(value.clone()),
            Op::JumpIfZero(value) => Op::JumpIfZero(value.clone()),
            Op::JumpIfNotZero(value) => Op::JumpIfNotZero(value.clone()),
            Op::JumpLoopStart => Op::JumpLoopStart,
            Op::JumpLoopExit => Op::JumpLoopExit,
            Op::JumpTarget(value) => Op::JumpTarget(value.clone()),
        }
    }
}

/// A single instruction of the virtual machine.
pub struct Instruction {
    /// Where in the source code this instruction came from.  Instructions
    /// generated by immediate words have no location.
    pub location: Option<SourceLocation>,

    /// The operation to perform, together with its operand.
    pub op: Op,
}

impl Clone for Instruction {
    /// Clones keep the instruction's value.
    fn clone(&self) -> (r: Self)
        ensures
            r == *self,
    {
        let location = match &self.location {
            Some(loc) => Some(loc.clone()),
            None => None,
        };
        Instruction { location, op: self.op.clone() }
    }
}

impl Instruction {
    /// Create a new instruction with a location and an operation.
    pub fn new(location: Option<SourceLocation>, op: Op) -> (r: Instruction)
        ensures
            r.location == location,
            r.op == op,
    {
        Instruction { location, op }
    }
}

/// A block of instructions: the bytecode of a word or of a script's top
/// level.
pub type ByteCode = Vec<Instruction>;

/// Clone a block of instructions.
pub fn clone_code(code: &ByteCode) -> (r: ByteCode)
    ensures
        r@ == code@,
{
    let mut out: ByteCode = Vec::new();
    let mut i: usize = 0;
    while i < code.len()
        invariant
            i <= code@.len(),
            out@ == code@.subrange(0, i as int),
        decreases code@.len() - i,
    {
        out.push(code[i].clone());
        i = i + 1;
        assert(out@ =~= code@.subrange(0, i as int));
    }
    assert(out@ =~= code@);
    out
}

} // verus!
