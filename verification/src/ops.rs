//! The instruction vocabulary of the target stack machine.

use vstd::prelude::*;

verus! {

/// One instruction of the target machine.
///
/// `Constant`, `SetVariable` and `LoadVariable` carry indices into the
/// constant pool and the variable slots. `JumpIf` and `Goto` carry offsets
/// relative to the position of the jump instruction itself, so that
/// independently compiled chunks stay valid when concatenated.
/// `CallFunction` is an unresolved placeholder naming its target; the linker
/// rewrites it into an absolute offset.
#[derive(Debug)]
pub enum Op {
    Constant(usize),
    Echo,
    Add,
    Subtract,
    Multiply,
    Divide,
    Modulo,
    IsGreaterThan,
    IsLessThan,
    IsEqual,
    And,
    Or,
    Not,
    SetVariable(usize),
    LoadVariable(usize),
    JumpIf(isize),
    Goto(isize),
    CallFunction(String),
    Return,
}

} // verus!
