//! The mathematical model of compilation.
//!
//! Every function here is a specification: a pure, recursive description of
//! what the compiler emits. The executable compiler in [`crate::compiler`]
//! is proved to produce exactly these sequences, and the laws in
//! [`crate::laws`] are proved about them.
//!
//! A scope ("chunk") is described by four pieces of growing state: the
//! instruction sequence, the constant pool, the variable table (names in
//! first-use order; a name's position is its slot), and the function table
//! (name and compiled body of each function defined in the scope). Each
//! `stmt_*` / `stmts_*` function gives the delta that compiling a statement
//! (list) appends to one piece of that state, given the variable table
//! `vars` and the constant-pool length `c0` at the point of compilation.

use vstd::prelude::*;

use crate::ast::Expression;
use crate::ast::Statement;
use crate::compiler::CompileError;
use crate::numfmt::dec_int;
use crate::numfmt::dec_nat;
use crate::ops::Op;

verus! {

// ---------------------------------------------------------------------------
// Variable tables
// ---------------------------------------------------------------------------

/// Does the table hold a variable of this name (compared by contents)?
pub open spec fn has_name(vars: Seq<String>, name: Seq<char>) -> bool {
    exists|i: int| 0 <= i < vars.len() && vars[i]@ == name
}

/// The slot of a name: the position of its first occurrence in the table.
/// Meaningful only when `has_name(vars, name)`.
pub open spec fn name_slot(vars: Seq<String>, name: Seq<char>) -> int
    decreases vars.len(),
{
    if vars.len() == 0 {
        0
    } else if vars[0]@ == name {
        0
    } else {
        1 + name_slot(vars.drop_first(), name)
    }
}

/// The table after allocating a slot for `name`: unchanged when the name is
/// already present, extended by one slot otherwise.
pub open spec fn insert_name(vars: Seq<String>, name: String) -> Seq<String> {
    if has_name(vars, name@) {
        vars
    } else {
        vars.push(name)
    }
}

// ---------------------------------------------------------------------------
// Expressions
// ---------------------------------------------------------------------------

/// The constants an expression appends to the pool: every `Number` literal,
/// in post-order, one pool slot per occurrence (no deduplication).
pub open spec fn expr_consts(e: Expression) -> Seq<i64>
    decreases e,
{
    match e {
        Expression::Number(n) => seq![n],
        Expression::Ident(_) => seq![],
        Expression::FunctionCall(_) => seq![],
        Expression::Not(a) => expr_consts(*a),
        Expression::Add(a, b) => expr_consts(*a) + expr_consts(*b),
        Expression::Or(a, b) => expr_consts(*a) + expr_consts(*b),
        Expression::And(a, b) => expr_consts(*a) + expr_consts(*b),
        Expression::Subtract(a, b) => expr_consts(*a) + expr_consts(*b),
        Expression::Divide(a, b) => expr_consts(*a) + expr_consts(*b),
        Expression::Multiply(a, b) => expr_consts(*a) + expr_consts(*b),
        Expression::Modulo(a, b) => expr_consts(*a) + expr_consts(*b),
        Expression::IsGreaterThan(a, b) => expr_consts(*a) + expr_consts(*b),
        Expression::IsLessThan(a, b) => expr_consts(*a) + expr_consts(*b),
        Expression::IsEqual(a, b) => expr_consts(*a) + expr_consts(*b),
    }
}

/// The first undefined variable an expression reads, in evaluation order,
/// or `None` when every `Ident` it holds is bound in `vars`.
pub open spec fn expr_err(e: Expression, vars: Seq<String>) -> Option<String>
    decreases e,
{
    match e {
        Expression::Number(_) => None,
        Expression::Ident(name) => if has_name(vars, name@) {
            None
        } else {
            Some(name)
        },
        Expression::FunctionCall(_) => None,
        Expression::Not(a) => expr_err(*a, vars),
        Expression::Add(a, b) => first_err(expr_err(*a, vars), expr_err(*b, vars)),
        Expression::Or(a, b) => first_err(expr_err(*a, vars), expr_err(*b, vars)),
        Expression::And(a, b) => first_err(expr_err(*a, vars), expr_err(*b, vars)),
        Expression::Subtract(a, b) => first_err(expr_err(*a, vars), expr_err(*b, vars)),
        Expression::Divide(a, b) => first_err(expr_err(*a, vars), expr_err(*b, vars)),
        Expression::Multiply(a, b) => first_err(expr_err(*a, vars), expr_err(*b, vars)),
        Expression::Modulo(a, b) => first_err(expr_err(*a, vars), expr_err(*b, vars)),
        Expression::IsGreaterThan(a, b) => first_err(expr_err(*a, vars), expr_err(*b, vars)),
        Expression::IsLessThan(a, b) => first_err(expr_err(*a, vars), expr_err(*b, vars)),
        Expression::IsEqual(a, b) => first_err(expr_err(*a, vars), expr_err(*b, vars)),
    }
}

/// The earlier of two error reports: `a`'s if it has one, else `b`'s.
pub open spec fn first_err<E>(a: Option<E>, b: Option<E>) -> Option<E> {
    if a is Some {
        a
    } else {
        b
    }
}

/// The instructions an expression compiles to, given the variable table
/// `vars` and the constant-pool length `c0` at its start: operands in
/// post-order, then the operator. Meaningful only when
/// `expr_err(e, vars) is None`.
pub open spec fn expr_ops(e: Expression, vars: Seq<String>, c0: int) -> Seq<Op>
    decreases e,
{
    match e {
        Expression::Number(_) => seq![Op::Constant(c0 as usize)],
        Expression::Ident(name) => seq![Op::LoadVariable(name_slot(vars, name@) as usize)],
        Expression::FunctionCall(name) => seq![Op::CallFunction(name)],
        Expression::Not(a) => expr_ops(*a, vars, c0) + seq![Op::Not],
        Expression::Add(a, b) => expr_ops(*a, vars, c0)
            + expr_ops(*b, vars, c0 + expr_consts(*a).len()) + seq![Op::Add],
        Expression::Or(a, b) => expr_ops(*a, vars, c0)
            + expr_ops(*b, vars, c0 + expr_consts(*a).len()) + seq![Op::Or],
        Expression::And(a, b) => expr_ops(*a, vars, c0)
            + expr_ops(*b, vars, c0 + expr_consts(*a).len()) + seq![Op::And],
        Expression::Subtract(a, b) => expr_ops(*a, vars, c0)
            + expr_ops(*b, vars, c0 + expr_consts(*a).len()) + seq![Op::Subtract],
        Expression::Divide(a, b) => expr_ops(*a, vars, c0)
            + expr_ops(*b, vars, c0 + expr_consts(*a).len()) + seq![Op::Divide],
        Expression::Multiply(a, b) => expr_ops(*a, vars, c0)
            + expr_ops(*b, vars, c0 + expr_consts(*a).len()) + seq![Op::Multiply],
        Expression::Modulo(a, b) => expr_ops(*a, vars, c0)
            + expr_ops(*b, vars, c0 + expr_consts(*a).len()) + seq![Op::Modulo],
        Expression::IsGreaterThan(a, b) => expr_ops(*a, vars, c0)
            + expr_ops(*b, vars, c0 + expr_consts(*a).len()) + seq![Op::IsGreaterThan],
        Expression::IsLessThan(a, b) => expr_ops(*a, vars, c0)
            + expr_ops(*b, vars, c0 + expr_consts(*a).len()) + seq![Op::IsLessThan],
        Expression::IsEqual(a, b) => expr_ops(*a, vars, c0)
            + expr_ops(*b, vars, c0 + expr_consts(*a).len()) + seq![Op::IsEqual],
    }
}

// ---------------------------------------------------------------------------
// Statements
// ---------------------------------------------------------------------------

/// The constants a statement appends to the pool, in compilation order. A
/// `FunctionDefinition` contributes its body's constants here: the body's
/// pool is merged onto the enclosing scope's pool.
pub open spec fn stmt_consts(s: Statement) -> Seq<i64>
    decreases s,
{
    match s {
        Statement::Assignment(_, e) => expr_consts(e),
        Statement::Expression(e) => expr_consts(e),
        Statement::Echo(e) => expr_consts(e),
        Statement::If(c, body) => expr_consts(c) + stmts_consts(body@),
        Statement::While(c, body) => expr_consts(c) + stmts_consts(body@),
        Statement::FunctionDefinition(_, body) => stmts_consts(body@),
    }
}

/// The constants a statement list appends to the pool.
pub open spec fn stmts_consts(ss: Seq<Statement>) -> Seq<i64>
    decreases ss,
{
    if ss.len() == 0 {
        seq![]
    } else {
        stmt_consts(ss[0]) + stmts_consts(ss.drop_first())
    }
}

/// The variable table after compiling a statement. Only assignments
/// allocate slots; `If`/`While` bodies share the enclosing table; a
/// `FunctionDefinition` body gets its own table and leaves this one alone.
pub open spec fn stmt_vars(s: Statement, vars: Seq<String>) -> Seq<String>
    decreases s,
{
    match s {
        Statement::Assignment(name, _) => insert_name(vars, name),
        Statement::Expression(_) => vars,
        Statement::Echo(_) => vars,
        Statement::If(_, body) => stmts_vars(body@, vars),
        Statement::While(_, body) => stmts_vars(body@, vars),
        Statement::FunctionDefinition(_, _) => vars,
    }
}

/// The variable table after compiling a statement list.
pub open spec fn stmts_vars(ss: Seq<Statement>, vars: Seq<String>) -> Seq<String>
    decreases ss,
{
    if ss.len() == 0 {
        vars
    } else {
        stmts_vars(ss.drop_first(), stmt_vars(ss[0], vars))
    }
}

/// The instructions a statement appends to its chunk, given the variable
/// table `vars` and the constant-pool length `c0` at its start.
///
/// `If` compiles to: condition, a `JumpIf` into the body (always two ahead,
/// over the `Goto`), a `Goto` past the body, the body. `While` compiles to:
/// condition, `Not`, a `JumpIf` out of the loop, the body, a backward
/// `Goto` to the condition. All offsets are relative to the jump's own
/// position. A `FunctionDefinition` appends nothing here: its body becomes
/// a separate chunk in the function table.
pub open spec fn stmt_ops(s: Statement, vars: Seq<String>, c0: int) -> Seq<Op>
    decreases s,
{
    match s {
        Statement::Assignment(name, e) => expr_ops(e, insert_name(vars, name), c0)
            + seq![Op::SetVariable(name_slot(insert_name(vars, name), name@) as usize)],
        Statement::Expression(e) => expr_ops(e, vars, c0),
        Statement::Echo(e) => expr_ops(e, vars, c0) + seq![Op::Echo],
        Statement::If(c, body) => {
            let co = expr_ops(c, vars, c0);
            let bo = stmts_ops(body@, vars, c0 + expr_consts(c).len());
            co + seq![Op::JumpIf(2), Op::Goto((bo.len() + 1) as isize)] + bo
        },
        Statement::While(c, body) => {
            let co = expr_ops(c, vars, c0);
            let bo = stmts_ops(body@, vars, c0 + expr_consts(c).len());
            co + seq![Op::Not, Op::JumpIf((bo.len() + 2) as isize)] + bo
                + seq![Op::Goto((-(co.len() + 2 + bo.len())) as isize)]
        },
        Statement::FunctionDefinition(_, _) => seq![],
    }
}

/// The instructions a statement list appends to its chunk.
pub open spec fn stmts_ops(ss: Seq<Statement>, vars: Seq<String>, c0: int) -> Seq<Op>
    decreases ss,
{
    if ss.len() == 0 {
        seq![]
    } else {
        stmt_ops(ss[0], vars, c0) + stmts_ops(
            ss.drop_first(),
            stmt_vars(ss[0], vars),
            c0 + stmt_consts(ss[0]).len(),
        )
    }
}

/// The instructions of one whole chunk compiled from scratch: the statement
/// list against a fresh variable table, closed by a `Return`. `c0` is where
/// the chunk's constants begin in the merged pool.
pub open spec fn chunk_ops(ss: Seq<Statement>, c0: int) -> Seq<Op> {
    stmts_ops(ss, Seq::empty(), c0) + seq![Op::Return]
}

/// The function-table entries a statement appends: its name and compiled
/// chunk for a `FunctionDefinition`, and whatever definitions an `If` or
/// `While` body holds (those bodies share the enclosing scope).
pub open spec fn stmt_funcs(s: Statement, vars: Seq<String>, c0: int) -> Seq<(String, Seq<Op>)>
    decreases s,
{
    match s {
        Statement::Assignment(_, _) => seq![],
        Statement::Expression(_) => seq![],
        Statement::Echo(_) => seq![],
        Statement::If(c, body) => stmts_funcs(body@, vars, c0 + expr_consts(c).len()),
        Statement::While(c, body) => stmts_funcs(body@, vars, c0 + expr_consts(c).len()),
        Statement::FunctionDefinition(name, body) => seq![(name, chunk_ops(body@, c0))],
    }
}

/// The function-table entries a statement list appends.
pub open spec fn stmts_funcs(ss: Seq<Statement>, vars: Seq<String>, c0: int) -> Seq<
    (String, Seq<Op>),
>
    decreases ss,
{
    if ss.len() == 0 {
        seq![]
    } else {
        stmt_funcs(ss[0], vars, c0) + stmts_funcs(
            ss.drop_first(),
            stmt_vars(ss[0], vars),
            c0 + stmt_consts(ss[0]).len(),
        )
    }
}

// ---------------------------------------------------------------------------
// Failure of a chunk compilation
// ---------------------------------------------------------------------------

/// An expression error as the compiler reports it.
pub open spec fn uv_err(e: Option<String>) -> Option<CompileError> {
    match e {
        Some(name) => Some(CompileError::UndefinedVariable(name)),
        None => None,
    }
}

/// The first error compiling a statement, in the compiler's own order:
/// within each statement, the condition before the body, the body before
/// the offset-width checks. `top` says whether this scope is the top-level
/// program; only there may functions be defined.
pub open spec fn stmt_err(s: Statement, vars: Seq<String>, c0: int, top: bool) -> Option<
    CompileError,
>
    decreases s,
{
    match s {
        Statement::Assignment(name, e) => uv_err(expr_err(e, insert_name(vars, name))),
        Statement::Expression(e) => uv_err(expr_err(e, vars)),
        Statement::Echo(e) => uv_err(expr_err(e, vars)),
        Statement::If(c, body) => {
            let bo = stmts_ops(body@, vars, c0 + expr_consts(c).len());
            first_err(
                uv_err(expr_err(c, vars)),
                first_err(
                    stmts_err(body@, vars, c0 + expr_consts(c).len(), top),
                    if bo.len() >= isize::MAX as int {
                        Some(CompileError::ProgramTooLarge)
                    } else {
                        None
                    },
                ),
            )
        },
        Statement::While(c, body) => {
            let co = expr_ops(c, vars, c0);
            let bo = stmts_ops(body@, vars, c0 + expr_consts(c).len());
            first_err(
                uv_err(expr_err(c, vars)),
                first_err(
                    stmts_err(body@, vars, c0 + expr_consts(c).len(), top),
                    if co.len() + 2 + bo.len() > isize::MAX as int {
                        Some(CompileError::ProgramTooLarge)
                    } else {
                        None
                    },
                ),
            )
        },
        Statement::FunctionDefinition(name, body) => if !top {
            Some(CompileError::NestedFunction(name))
        } else {
            stmts_err(body@, Seq::empty(), c0, false)
        },
    }
}

/// The first error compiling a statement list.
pub open spec fn stmts_err(ss: Seq<Statement>, vars: Seq<String>, c0: int, top: bool) -> Option<
    CompileError,
>
    decreases ss,
{
    if ss.len() == 0 {
        None
    } else {
        first_err(
            stmt_err(ss[0], vars, c0, top),
            stmts_err(
                ss.drop_first(),
                stmt_vars(ss[0], vars),
                c0 + stmt_consts(ss[0]).len(),
                top,
            ),
        )
    }
}

// ---------------------------------------------------------------------------
// Linking
// ---------------------------------------------------------------------------

/// All function chunks laid end to end, in definition order.
pub open spec fn funcs_flat(funcs: Seq<(String, Seq<Op>)>) -> Seq<Op>
    decreases funcs,
{
    if funcs.len() == 0 {
        seq![]
    } else {
        funcs[0].1 + funcs_flat(funcs.drop_first())
    }
}

/// Each function's name with its absolute starting offset, when the chunks
/// are laid end to end starting at `base` (the main program's length).
pub open spec fn layout_offsets(funcs: Seq<(String, Seq<Op>)>, base: int) -> Seq<(String, int)>
    decreases funcs,
{
    if funcs.len() == 0 {
        seq![]
    } else {
        seq![(funcs[0].0, base)] + layout_offsets(funcs.drop_first(), base + funcs[0].1.len())
    }
}

/// The offset recorded for a name: of two definitions with one name, the
/// later wins, as with a map filled by repeated insertion.
pub open spec fn lookup_offset(offsets: Seq<(String, int)>, name: Seq<char>) -> Option<int>
    decreases offsets,
{
    if offsets.len() == 0 {
        None
    } else if offsets.last().0@ == name {
        Some(offsets.last().1)
    } else {
        lookup_offset(offsets.drop_last(), name)
    }
}

/// The first `CallFunction` whose target no offset resolves, walking the
/// final instruction stream in order.
pub open spec fn link_err(ops: Seq<Op>, offsets: Seq<(String, int)>) -> Option<CompileError>
    decreases ops,
{
    if ops.len() == 0 {
        None
    } else {
        first_err(
            match ops[0] {
                Op::CallFunction(name) => if lookup_offset(offsets, name@) is None {
                    Some(CompileError::UndefinedFunction(name))
                } else {
                    None
                },
                _ => None,
            },
            link_err(ops.drop_first(), offsets),
        )
    }
}

// ---------------------------------------------------------------------------
// Textual encoding
// ---------------------------------------------------------------------------

/// The token of one instruction, trailing space included. A `CallFunction`
/// is rendered as the call token carrying its resolved absolute offset;
/// it is meaningful only when `offsets` resolves its name.
pub open spec fn op_token(op: Op, offsets: Seq<(String, int)>) -> Seq<char> {
    match op {
        Op::Constant(i) => seq!['c', '/'] + dec_nat(i as nat) + seq![' '],
        Op::Echo => seq!['e', ' '],
        Op::Add => seq!['+', ' '],
        Op::Subtract => seq!['-', ' '],
        Op::Multiply => seq!['*', ' '],
        Op::Divide => seq!['÷', ' '],
        Op::Modulo => seq!['%', ' '],
        Op::IsGreaterThan => seq!['>', ' '],
        Op::IsLessThan => seq!['<', ' '],
        Op::IsEqual => seq!['=', ' '],
        Op::And => seq!['&', ' '],
        Op::Or => seq!['|', ' '],
        Op::Not => seq!['!', ' '],
        Op::SetVariable(i) => seq!['s', '/'] + dec_nat(i as nat) + seq![' '],
        Op::LoadVariable(i) => seq!['v', '/'] + dec_nat(i as nat) + seq![' '],
        Op::JumpIf(d) => seq!['j', '/'] + dec_int(d as int) + seq![' '],
        Op::Goto(d) => seq!['g', '/'] + dec_int(d as int) + seq![' '],
        Op::Return => seq!['r', ' '],
        Op::CallFunction(name) => match lookup_offset(offsets, name@) {
            Some(o) => seq!['k', '/'] + dec_nat(o as nat) + seq![' '],
            None => seq![],
        },
    }
}

/// The instruction stream rendered as text, one token per instruction.
pub open spec fn ops_text(ops: Seq<Op>, offsets: Seq<(String, int)>) -> Seq<char>
    decreases ops,
{
    if ops.len() == 0 {
        Seq::empty()
    } else {
        op_token(ops[0], offsets) + ops_text(ops.drop_first(), offsets)
    }
}

/// The constant pool rendered as text: each value in decimal, each followed
/// by one space.
pub open spec fn consts_text(cs: Seq<i64>) -> Seq<char>
    decreases cs,
{
    if cs.len() == 0 {
        Seq::empty()
    } else {
        dec_int(cs[0] as int) + seq![' '] + consts_text(cs.drop_first())
    }
}

// ---------------------------------------------------------------------------
// The whole program
// ---------------------------------------------------------------------------

/// The main chunk's instructions: the program's statements compiled against
/// a fresh scope, pool based at zero.
pub open spec fn main_ops(prog: Seq<Statement>) -> Seq<Op> {
    chunk_ops(prog, 0)
}

/// The program's function table.
pub open spec fn program_funcs(prog: Seq<Statement>) -> Seq<(String, Seq<Op>)> {
    stmts_funcs(prog, Seq::empty(), 0)
}

/// The final linked instruction sequence: the main chunk, then every
/// function chunk in definition order.
pub open spec fn program_ops(prog: Seq<Statement>) -> Seq<Op> {
    main_ops(prog) + funcs_flat(program_funcs(prog))
}

/// Every function's resolved absolute offset.
pub open spec fn program_offsets(prog: Seq<Statement>) -> Seq<(String, int)> {
    layout_offsets(program_funcs(prog), main_ops(prog).len() as int)
}

/// The first error of the whole compilation: scope compilation first, link
/// resolution second.
pub open spec fn program_err(prog: Seq<Statement>) -> Option<CompileError> {
    first_err(
        stmts_err(prog, Seq::empty(), 0, true),
        link_err(program_ops(prog), program_offsets(prog)),
    )
}

/// The instruction-stream artifact of a successful compilation.
pub open spec fn program_text(prog: Seq<Statement>) -> Seq<char> {
    ops_text(program_ops(prog), program_offsets(prog))
}

/// The constant-list artifact of a successful compilation.
pub open spec fn program_consts_text(prog: Seq<Statement>) -> Seq<char> {
    consts_text(stmts_consts(prog))
}

// ---------------------------------------------------------------------------
// Views of the executable state
// ---------------------------------------------------------------------------

/// The function table a chunk holds, seen abstractly: each entry's name and
/// instruction sequence.
pub open spec fn table_view(t: Seq<(String, Vec<Op>)>) -> Seq<(String, Seq<Op>)> {
    t.map_values(|p: (String, Vec<Op>)| (p.0, p.1@))
}

/// The offsets the linker records, seen abstractly.
pub open spec fn offsets_view(o: Seq<(String, usize)>) -> Seq<(String, int)> {
    o.map_values(|p: (String, usize)| (p.0, p.1 as int))
}

// ---------------------------------------------------------------------------
// Lemmas about the model
// ---------------------------------------------------------------------------

/// A name's slot is the position of its first occurrence: at a position
/// whose strict predecessors all differ from the name, the slot is that
/// position.
pub proof fn lemma_name_slot(vars: Seq<String>, name: Seq<char>, i: int)
    requires
        0 <= i < vars.len(),
        vars[i]@ == name,
        forall|j: int| 0 <= j < i ==> vars[j]@ != name,
    ensures
        has_name(vars, name),
        name_slot(vars, name) == i,
    decreases vars.len(),
{
    if vars[0]@ == name {
        assert(i == 0);
    } else {
        assert(vars.drop_first()[i - 1]@ == name);
        assert forall|j: int| 0 <= j < i - 1 implies vars.drop_first()[j]@ != name by {
            assert(vars.drop_first()[j] == vars[j + 1]);
        }
        lemma_name_slot(vars.drop_first(), name, i - 1);
    }
}

/// Mapping a view over a table distributes over appending one entry.
pub proof fn lemma_table_view_push(t: Seq<(String, Vec<Op>)>, p: (String, Vec<Op>))
    ensures
        table_view(t.push(p)) == table_view(t).push((p.0, p.1@)),
{
    assert(table_view(t.push(p)) =~= table_view(t).push((p.0, p.1@)));
}

/// Mapping a view over the offset list distributes over appending one
/// entry.
pub proof fn lemma_offsets_view_push(o: Seq<(String, usize)>, p: (String, usize))
    ensures
        offsets_view(o.push(p)) == offsets_view(o).push((p.0, p.1 as int)),
{
    assert(offsets_view(o.push(p)) =~= offsets_view(o).push((p.0, p.1 as int)));
}

/// Laying out the concatenation of two tables concatenates their layouts,
/// the second based past the first's chunks.
pub proof fn lemma_layout_offsets_concat(
    a: Seq<(String, Seq<Op>)>,
    b: Seq<(String, Seq<Op>)>,
    base: int,
)
    ensures
        layout_offsets(a + b, base) == layout_offsets(a, base) + layout_offsets(
            b,
            base + funcs_flat(a).len(),
        ),
        funcs_flat(a + b) == funcs_flat(a) + funcs_flat(b),
    decreases a,
{
    if a.len() == 0 {
        assert(a + b =~= b);
        assert(funcs_flat(a + b) =~= funcs_flat(a) + funcs_flat(b));
        assert(layout_offsets(a + b, base) =~= layout_offsets(a, base) + layout_offsets(
            b,
            base + funcs_flat(a).len(),
        ));
    } else {
        assert((a + b).drop_first() =~= a.drop_first() + b);
        lemma_layout_offsets_concat(a.drop_first(), b, base + a[0].1.len());
        assert(funcs_flat(a + b) =~= funcs_flat(a) + funcs_flat(b));
        assert(layout_offsets(a + b, base) =~= layout_offsets(a, base) + layout_offsets(
            b,
            base + funcs_flat(a).len(),
        ));
    }
}

/// Rendering the concatenation of two instruction sequences concatenates
/// their renderings.
pub proof fn lemma_ops_text_concat(a: Seq<Op>, b: Seq<Op>, offsets: Seq<(String, int)>)
    ensures
        ops_text(a + b, offsets) == ops_text(a, offsets) + ops_text(b, offsets),
    decreases a,
{
    if a.len() == 0 {
        assert(a + b =~= b);
        assert(ops_text(a + b, offsets) =~= ops_text(a, offsets) + ops_text(b, offsets));
    } else {
        assert((a + b).drop_first() =~= a.drop_first() + b);
        lemma_ops_text_concat(a.drop_first(), b, offsets);
        assert(ops_text(a + b, offsets) =~= ops_text(a, offsets) + ops_text(b, offsets));
    }
}

/// Rendering the concatenation of two constant lists concatenates their
/// renderings.
pub proof fn lemma_consts_text_concat(a: Seq<i64>, b: Seq<i64>)
    ensures
        consts_text(a + b) == consts_text(a) + consts_text(b),
    decreases a,
{
    if a.len() == 0 {
        assert(a + b =~= b);
        assert(consts_text(a + b) =~= consts_text(a) + consts_text(b));
    } else {
        assert((a + b).drop_first() =~= a.drop_first() + b);
        lemma_consts_text_concat(a.drop_first(), b);
        assert(consts_text(a + b) =~= consts_text(a) + consts_text(b));
    }
}

/// Link checking the concatenation of two instruction sequences reports the
/// first sequence's first failure, else the second's.
pub proof fn lemma_link_err_concat(a: Seq<Op>, b: Seq<Op>, offsets: Seq<(String, int)>)
    ensures
        link_err(a + b, offsets) == first_err(link_err(a, offsets), link_err(b, offsets)),
    decreases a,
{
    if a.len() == 0 {
        assert(a + b =~= b);
    } else {
        assert((a + b).drop_first() =~= a.drop_first() + b);
        lemma_link_err_concat(a.drop_first(), b, offsets);
        assert((a + b)[0] == a[0]);
    }
}

} // verus!
