//! Proved properties of the compiler, stated over the model in
//! [`crate::model`]: slot allocation is stable, expressions are
//! stack-balanced, `If` and `While` compile to their exact control shapes,
//! and unresolved names fail with their own errors.

use vstd::prelude::*;

use crate::ast::Expression;
use crate::ast::Statement;
use crate::compiler::CompileError;
use crate::model::expr_consts;
use crate::model::expr_err;
use crate::model::expr_ops;
use crate::model::has_name;
use crate::model::insert_name;
use crate::model::link_err;
use crate::model::lookup_offset;
use crate::model::name_slot;
use crate::model::stmt_err;
use crate::model::stmt_ops;
use crate::model::stmts_ops;
use crate::ops::Op;

verus! {

// ---------------------------------------------------------------------------
// Slot stability
// ---------------------------------------------------------------------------

/// A name the scope has seen has a slot inside the table, the table holds
/// that name at that slot, and every earlier slot holds another name.
pub proof fn lemma_name_slot_valid(vars: Seq<String>, name: Seq<char>)
    requires
        has_name(vars, name),
    ensures
        0 <= name_slot(vars, name) < vars.len(),
        vars[name_slot(vars, name)]@ == name,
        forall|j: int| 0 <= j < name_slot(vars, name) ==> vars[j]@ != name,
    decreases vars.len(),
{
    if vars[0]@ == name {
    } else {
        let i = choose|i: int| 0 <= i < vars.len() && vars[i]@ == name;
        assert(vars.drop_first()[i - 1]@ == name);
        assert(has_name(vars.drop_first(), name));
        lemma_name_slot_valid(vars.drop_first(), name);
        assert forall|j: int| 0 <= j < name_slot(vars, name) implies vars[j]@ != name by {
            if j > 0 {
                assert(vars.drop_first()[j - 1] == vars[j]);
            }
        }
    }
}

/// Law: the n-th distinct variable name a scope encounters is assigned
/// slot n-1 — allocating a slot for an unseen name appends it, and its
/// slot is the table's previous length.
pub proof fn lemma_new_name_gets_next_slot(vars: Seq<String>, name: String)
    requires
        !has_name(vars, name@),
    ensures
        insert_name(vars, name) == vars.push(name),
        name_slot(insert_name(vars, name), name@) == vars.len(),
{
    crate::model::lemma_name_slot(vars.push(name), name@, vars.len() as int);
}

/// Law: allocating a slot for a name the scope has already seen reuses its
/// existing slot and leaves the table untouched.
pub proof fn lemma_seen_name_reuses_slot(vars: Seq<String>, name: String)
    requires
        has_name(vars, name@),
    ensures
        insert_name(vars, name) == vars,
        0 <= name_slot(vars, name@) < vars.len(),
        vars[name_slot(vars, name@)]@ == name@,
{
    lemma_name_slot_valid(vars, name@);
}

/// Law: a slot, once given, is stable — allocating any further name never
/// moves an existing name's slot.
pub proof fn lemma_slot_stable_under_insert(vars: Seq<String>, name: Seq<char>, other: String)
    requires
        has_name(vars, name),
    ensures
        has_name(insert_name(vars, other), name),
        name_slot(insert_name(vars, other), name) == name_slot(vars, name),
{
    lemma_name_slot_valid(vars, name);
    let s = name_slot(vars, name);
    if !has_name(vars, other@) {
        assert(vars.push(other)[s]@ == name);
        assert forall|j: int| 0 <= j < s implies vars.push(other)[j]@ != name by {
            assert(vars.push(other)[j] == vars[j]);
        }
        crate::model::lemma_name_slot(vars.push(other), name, s);
    }
}

// ---------------------------------------------------------------------------
// Stack balance
// ---------------------------------------------------------------------------

/// How one instruction moves the machine's value stack: how many values it
/// pushes minus how many it pops. Every binary operator consumes exactly
/// two values and produces one.
pub open spec fn op_stack_delta(op: Op) -> int {
    match op {
        Op::Constant(_) => 1,
        Op::LoadVariable(_) => 1,
        Op::CallFunction(_) => 1,
        Op::Add => -1,
        Op::Subtract => -1,
        Op::Multiply => -1,
        Op::Divide => -1,
        Op::Modulo => -1,
        Op::IsGreaterThan => -1,
        Op::IsLessThan => -1,
        Op::IsEqual => -1,
        Op::And => -1,
        Op::Or => -1,
        Op::Not => 0,
        Op::Echo => -1,
        Op::SetVariable(_) => -1,
        Op::JumpIf(_) => -1,
        Op::Goto(_) => 0,
        Op::Return => 0,
    }
}

/// The net stack movement of a whole instruction sequence.
pub open spec fn stack_delta(ops: Seq<Op>) -> int
    decreases ops,
{
    if ops.len() == 0 {
        0
    } else {
        op_stack_delta(ops[0]) + stack_delta(ops.drop_first())
    }
}

/// Net stack movement adds up over concatenation.
pub proof fn lemma_stack_delta_concat(a: Seq<Op>, b: Seq<Op>)
    ensures
        stack_delta(a + b) == stack_delta(a) + stack_delta(b),
    decreases a,
{
    if a.len() == 0 {
        assert(a + b =~= b);
    } else {
        assert((a + b).drop_first() =~= a.drop_first() + b);
        lemma_stack_delta_concat(a.drop_first(), b);
        assert((a + b)[0] == a[0]);
    }
}

/// The net stack movement of one instruction alone.
pub proof fn lemma_stack_delta_single(op: Op)
    ensures
        stack_delta(seq![op]) == op_stack_delta(op),
{
    assert(seq![op][0] == op);
    assert(seq![op].drop_first() =~= Seq::<Op>::empty());
    assert(stack_delta(Seq::<Op>::empty()) == 0);
}

/// Law: every expression that compiles leaves exactly one more value on
/// the stack than it found.
pub proof fn lemma_expr_stack_balance(e: Expression, vars: Seq<String>, c0: int)
    requires
        expr_err(e, vars) is None,
    ensures
        stack_delta(expr_ops(e, vars, c0)) == 1,
    decreases e,
{
    match e {
        Expression::Number(_) => {
            lemma_stack_delta_single(Op::Constant(c0 as usize));
        },
        Expression::Ident(name) => {
            lemma_stack_delta_single(Op::LoadVariable(name_slot(vars, name@) as usize));
        },
        Expression::FunctionCall(name) => {
            lemma_stack_delta_single(Op::CallFunction(name));
        },
        Expression::Not(a) => {
            lemma_expr_stack_balance(*a, vars, c0);
            lemma_stack_delta_concat(expr_ops(*a, vars, c0), seq![Op::Not]);
            lemma_stack_delta_single(Op::Not);
        },
        Expression::Add(a, b) => {
            lemma_expr_stack_balance(*a, vars, c0);
            lemma_expr_stack_balance(*b, vars, c0 + expr_consts(*a).len());
            lemma_stack_delta_concat(
                expr_ops(*a, vars, c0),
                expr_ops(*b, vars, c0 + expr_consts(*a).len()),
            );
            lemma_stack_delta_concat(
                expr_ops(*a, vars, c0) + expr_ops(*b, vars, c0 + expr_consts(*a).len()),
                seq![Op::Add],
            );
            lemma_stack_delta_single(Op::Add);
        },
        Expression::Or(a, b) => {
            lemma_expr_stack_balance(*a, vars, c0);
            lemma_expr_stack_balance(*b, vars, c0 + expr_consts(*a).len());
            lemma_stack_delta_concat(
                expr_ops(*a, vars, c0),
                expr_ops(*b, vars, c0 + expr_consts(*a).len()),
            );
            lemma_stack_delta_concat(
                expr_ops(*a, vars, c0) + expr_ops(*b, vars, c0 + expr_consts(*a).len()),
                seq![Op::Or],
            );
            lemma_stack_delta_single(Op::Or);
        },
        Expression::And(a, b) => {
            lemma_expr_stack_balance(*a, vars, c0);
            lemma_expr_stack_balance(*b, vars, c0 + expr_consts(*a).len());
            lemma_stack_delta_concat(
                expr_ops(*a, vars, c0),
                expr_ops(*b, vars, c0 + expr_consts(*a).len()),
            );
            lemma_stack_delta_concat(
                expr_ops(*a, vars, c0) + expr_ops(*b, vars, c0 + expr_consts(*a).len()),
                seq![Op::And],
            );
            lemma_stack_delta_single(Op::And);
        },
        Expression::Subtract(a, b) => {
            lemma_expr_stack_balance(*a, vars, c0);
            lemma_expr_stack_balance(*b, vars, c0 + expr_consts(*a).len());
            lemma_stack_delta_concat(
                expr_ops(*a, vars, c0),
                expr_ops(*b, vars, c0 + expr_consts(*a).len()),
            );
            lemma_stack_delta_concat(
                expr_ops(*a, vars, c0) + expr_ops(*b, vars, c0 + expr_consts(*a).len()),
                seq![Op::Subtract],
            );
            lemma_stack_delta_single(Op::Subtract);
        },
        Expression::Divide(a, b) => {
            lemma_expr_stack_balance(*a, vars, c0);
            lemma_expr_stack_balance(*b, vars, c0 + expr_consts(*a).len());
            lemma_stack_delta_concat(
                expr_ops(*a, vars, c0),
                expr_ops(*b, vars, c0 + expr_consts(*a).len()),
            );
            lemma_stack_delta_concat(
                expr_ops(*a, vars, c0) + expr_ops(*b, vars, c0 + expr_consts(*a).len()),
                seq![Op::Divide],
            );
            lemma_stack_delta_single(Op::Divide);
        },
        Expression::Multiply(a, b) => {
            lemma_expr_stack_balance(*a, vars, c0);
            lemma_expr_stack_balance(*b, vars, c0 + expr_consts(*a).len());
            lemma_stack_delta_concat(
                expr_ops(*a, vars, c0),
                expr_ops(*b, vars, c0 + expr_consts(*a).len()),
            );
            lemma_stack_delta_concat(
                expr_ops(*a, vars, c0) + expr_ops(*b, vars, c0 + expr_consts(*a).len()),
                seq![Op::Multiply],
            );
            lemma_stack_delta_single(Op::Multiply);
        },
        Expression::Modulo(a, b) => {
            lemma_expr_stack_balance(*a, vars, c0);
            lemma_expr_stack_balance(*b, vars, c0 + expr_consts(*a).len());
            lemma_stack_delta_concat(
                expr_ops(*a, vars, c0),
                expr_ops(*b, vars, c0 + expr_consts(*a).len()),
            );
            lemma_stack_delta_concat(
                expr_ops(*a, vars, c0) + expr_ops(*b, vars, c0 + expr_consts(*a).len()),
                seq![Op::Modulo],
            );
            lemma_stack_delta_single(Op::Modulo);
        },
        Expression::IsGreaterThan(a, b) => {
            lemma_expr_stack_balance(*a, vars, c0);
            lemma_expr_stack_balance(*b, vars, c0 + expr_consts(*a).len());
            lemma_stack_delta_concat(
                expr_ops(*a, vars, c0),
                expr_ops(*b, vars, c0 + expr_consts(*a).len()),
            );
            lemma_stack_delta_concat(
                expr_ops(*a, vars, c0) + expr_ops(*b, vars, c0 + expr_consts(*a).len()),
                seq![Op::IsGreaterThan],
            );
            lemma_stack_delta_single(Op::IsGreaterThan);
        },
        Expression::IsLessThan(a, b) => {
            lemma_expr_stack_balance(*a, vars, c0);
            lemma_expr_stack_balance(*b, vars, c0 + expr_consts(*a).len());
            lemma_stack_delta_concat(
                expr_ops(*a, vars, c0),
                expr_ops(*b, vars, c0 + expr_consts(*a).len()),
            );
            lemma_stack_delta_concat(
                expr_ops(*a, vars, c0) + expr_ops(*b, vars, c0 + expr_consts(*a).len()),
                seq![Op::IsLessThan],
            );
            lemma_stack_delta_single(Op::IsLessThan);
        },
        Expression::IsEqual(a, b) => {
            lemma_expr_stack_balance(*a, vars, c0);
            lemma_expr_stack_balance(*b, vars, c0 + expr_consts(*a).len());
            lemma_stack_delta_concat(
                expr_ops(*a, vars, c0),
                expr_ops(*b, vars, c0 + expr_consts(*a).len()),
            );
            lemma_stack_delta_concat(
                expr_ops(*a, vars, c0) + expr_ops(*b, vars, c0 + expr_consts(*a).len()),
                seq![Op::IsEqual],
            );
            lemma_stack_delta_single(Op::IsEqual);
        },
    }
}

// ---------------------------------------------------------------------------
// Control shapes
// ---------------------------------------------------------------------------

/// How many `JumpIf` instructions a sequence holds.
pub open spec fn count_jump_ifs(ops: Seq<Op>) -> int
    decreases ops,
{
    if ops.len() == 0 {
        0
    } else {
        (if ops[0] is JumpIf {
            1int
        } else {
            0int
        }) + count_jump_ifs(ops.drop_first())
    }
}

/// How many `Goto` instructions a sequence holds.
pub open spec fn count_gotos(ops: Seq<Op>) -> int
    decreases ops,
{
    if ops.len() == 0 {
        0
    } else {
        (if ops[0] is Goto {
            1int
        } else {
            0int
        }) + count_gotos(ops.drop_first())
    }
}

/// Jump counts add up over concatenation.
pub proof fn lemma_counts_concat(a: Seq<Op>, b: Seq<Op>)
    ensures
        count_jump_ifs(a + b) == count_jump_ifs(a) + count_jump_ifs(b),
        count_gotos(a + b) == count_gotos(a) + count_gotos(b),
    decreases a,
{
    if a.len() == 0 {
        assert(a + b =~= b);
    } else {
        assert((a + b).drop_first() =~= a.drop_first() + b);
        lemma_counts_concat(a.drop_first(), b);
        assert((a + b)[0] == a[0]);
    }
}

/// The jump counts of one instruction alone.
pub proof fn lemma_counts_single(op: Op)
    ensures
        count_jump_ifs(seq![op]) == if op is JumpIf {
            1int
        } else {
            0int
        },
        count_gotos(seq![op]) == if op is Goto {
            1int
        } else {
            0int
        },
{
    assert(seq![op][0] == op);
    assert(seq![op].drop_first() =~= Seq::<Op>::empty());
    assert(count_jump_ifs(Seq::<Op>::empty()) == 0);
    assert(count_gotos(Seq::<Op>::empty()) == 0);
}

/// Expressions compile to straight-line code: no `JumpIf`, no `Goto`.
pub proof fn lemma_expr_emits_no_jumps(e: Expression, vars: Seq<String>, c0: int)
    ensures
        count_jump_ifs(expr_ops(e, vars, c0)) == 0,
        count_gotos(expr_ops(e, vars, c0)) == 0,
    decreases e,
{
    match e {
        Expression::Number(_) => {
            lemma_counts_single(Op::Constant(c0 as usize));
        },
        Expression::Ident(name) => {
            lemma_counts_single(Op::LoadVariable(name_slot(vars, name@) as usize));
        },
        Expression::FunctionCall(name) => {
            lemma_counts_single(Op::CallFunction(name));
        },
        Expression::Not(a) => {
            lemma_expr_emits_no_jumps(*a, vars, c0);
            lemma_counts_concat(expr_ops(*a, vars, c0), seq![Op::Not]);
            lemma_counts_single(Op::Not);
        },
        Expression::Add(a, b) => {
            lemma_expr_emits_no_jumps(*a, vars, c0);
            lemma_expr_emits_no_jumps(*b, vars, c0 + expr_consts(*a).len());
            lemma_counts_concat(
                expr_ops(*a, vars, c0),
                expr_ops(*b, vars, c0 + expr_consts(*a).len()),
            );
            lemma_counts_concat(
                expr_ops(*a, vars, c0) + expr_ops(*b, vars, c0 + expr_consts(*a).len()),
                seq![Op::Add],
            );
            lemma_counts_single(Op::Add);
        },
        Expression::Or(a, b) => {
            lemma_expr_emits_no_jumps(*a, vars, c0);
            lemma_expr_emits_no_jumps(*b, vars, c0 + expr_consts(*a).len());
            lemma_counts_concat(
                expr_ops(*a, vars, c0),
                expr_ops(*b, vars, c0 + expr_consts(*a).len()),
            );
            lemma_counts_concat(
                expr_ops(*a, vars, c0) + expr_ops(*b, vars, c0 + expr_consts(*a).len()),
                seq![Op::Or],
            );
            lemma_counts_single(Op::Or);
        },
        Expression::And(a, b) => {
            lemma_expr_emits_no_jumps(*a, vars, c0);
            lemma_expr_emits_no_jumps(*b, vars, c0 + expr_consts(*a).len());
            lemma_counts_concat(
                expr_ops(*a, vars, c0),
                expr_ops(*b, vars, c0 + expr_consts(*a).len()),
            );
            lemma_counts_concat(
                expr_ops(*a, vars, c0) + expr_ops(*b, vars, c0 + expr_consts(*a).len()),
                seq![Op::And],
            );
            lemma_counts_single(Op::And);
        },
        Expression::Subtract(a, b) => {
            lemma_expr_emits_no_jumps(*a, vars, c0);
            lemma_expr_emits_no_jumps(*b, vars, c0 + expr_consts(*a).len());
            lemma_counts_concat(
                expr_ops(*a, vars, c0),
                expr_ops(*b, vars, c0 + expr_consts(*a).len()),
            );
            lemma_counts_concat(
                expr_ops(*a, vars, c0) + expr_ops(*b, vars, c0 + expr_consts(*a).len()),
                seq![Op::Subtract],
            );
            lemma_counts_single(Op::Subtract);
        },
        Expression::Divide(a, b) => {
            lemma_expr_emits_no_jumps(*a, vars, c0);
            lemma_expr_emits_no_jumps(*b, vars, c0 + expr_consts(*a).len());
            lemma_counts_concat(
                expr_ops(*a, vars, c0),
                expr_ops(*b, vars, c0 + expr_consts(*a).len()),
            );
            lemma_counts_concat(
                expr_ops(*a, vars, c0) + expr_ops(*b, vars, c0 + expr_consts(*a).len()),
                seq![Op::Divide],
            );
            lemma_counts_single(Op::Divide);
        },
        Expression::Multiply(a, b) => {
            lemma_expr_emits_no_jumps(*a, vars, c0);
            lemma_expr_emits_no_jumps(*b, vars, c0 + expr_consts(*a).len());
            lemma_counts_concat(
                expr_ops(*a, vars, c0),
                expr_ops(*b, vars, c0 + expr_consts(*a).len()),
            );
            lemma_counts_concat(
                expr_ops(*a, vars, c0) + expr_ops(*b, vars, c0 + expr_consts(*a).len()),
                seq![Op::Multiply],
            );
            lemma_counts_single(Op::Multiply);
        },
        Expression::Modulo(a, b) => {
            lemma_expr_emits_no_jumps(*a, vars, c0);
            lemma_expr_emits_no_jumps(*b, vars, c0 + expr_consts(*a).len());
            lemma_counts_concat(
                expr_ops(*a, vars, c0),
                expr_ops(*b, vars, c0 + expr_consts(*a).len()),
            );
            lemma_counts_concat(
                expr_ops(*a, vars, c0) + expr_ops(*b, vars, c0 + expr_consts(*a).len()),
                seq![Op::Modulo],
            );
            lemma_counts_single(Op::Modulo);
        },
        Expression::IsGreaterThan(a, b) => {
            lemma_expr_emits_no_jumps(*a, vars, c0);
            lemma_expr_emits_no_jumps(*b, vars, c0 + expr_consts(*a).len());
            lemma_counts_concat(
                expr_ops(*a, vars, c0),
                expr_ops(*b, vars, c0 + expr_consts(*a).len()),
            );
            lemma_counts_concat(
                expr_ops(*a, vars, c0) + expr_ops(*b, vars, c0 + expr_consts(*a).len()),
                seq![Op::IsGreaterThan],
            );
            lemma_counts_single(Op::IsGreaterThan);
        },
        Expression::IsLessThan(a, b) => {
            lemma_expr_emits_no_jumps(*a, vars, c0);
            lemma_expr_emits_no_jumps(*b, vars, c0 + expr_consts(*a).len());
            lemma_counts_concat(
                expr_ops(*a, vars, c0),
                expr_ops(*b, vars, c0 + expr_consts(*a).len()),
            );
            lemma_counts_concat(
                expr_ops(*a, vars, c0) + expr_ops(*b, vars, c0 + expr_consts(*a).len()),
                seq![Op::IsLessThan],
            );
            lemma_counts_single(Op::IsLessThan);
        },
        Expression::IsEqual(a, b) => {
            lemma_expr_emits_no_jumps(*a, vars, c0);
            lemma_expr_emits_no_jumps(*b, vars, c0 + expr_consts(*a).len());
            lemma_counts_concat(
                expr_ops(*a, vars, c0),
                expr_ops(*b, vars, c0 + expr_consts(*a).len()),
            );
            lemma_counts_concat(
                expr_ops(*a, vars, c0) + expr_ops(*b, vars, c0 + expr_consts(*a).len()),
                seq![Op::IsEqual],
            );
            lemma_counts_single(Op::IsEqual);
        },
    }
}

/// Law: `If(cond, body)` adds exactly one `JumpIf` and one `Goto` of its
/// own. The `JumpIf` stands right after the condition and jumps two ahead,
/// over the `Goto`, exactly onto the first body instruction; the `Goto`
/// stands right after it and lands exactly at the end of the construct, so
/// a false condition skips the whole body.
pub proof fn lemma_if_shape(
    condition: Expression,
    body: Vec<Statement>,
    vars: Seq<String>,
    c0: int,
    top: bool,
)
    requires
        stmt_err(Statement::If(condition, body), vars, c0, top) is None,
    ensures
        ({
            let co = expr_ops(condition, vars, c0);
            let bo = stmts_ops(body@, vars, c0 + expr_consts(condition).len());
            let o = stmt_ops(Statement::If(condition, body), vars, c0);
            &&& o == co + seq![Op::JumpIf(2), Op::Goto((bo.len() + 1) as isize)] + bo
            &&& o.len() == co.len() + 2 + bo.len()
            &&& count_jump_ifs(o) == count_jump_ifs(bo) + 1
            &&& count_gotos(o) == count_gotos(bo) + 1
            &&& o[co.len() as int] == Op::JumpIf(2)
            &&& co.len() + 2 == o.len() - bo.len()
            &&& o[co.len() as int + 1] == Op::Goto((bo.len() + 1) as isize)
            &&& (co.len() + 1) + (bo.len() + 1) == o.len()
            &&& 0 < bo.len() + 1 <= isize::MAX as int
        }),
{
    let co = expr_ops(condition, vars, c0);
    let bo = stmts_ops(body@, vars, c0 + expr_consts(condition).len());
    let mid = seq![Op::JumpIf(2), Op::Goto((bo.len() + 1) as isize)];
    let o = stmt_ops(Statement::If(condition, body), vars, c0);
    lemma_expr_emits_no_jumps(condition, vars, c0);
    lemma_counts_concat(co, mid);
    lemma_counts_concat(co + mid, bo);
    lemma_counts_single(Op::JumpIf(2));
    lemma_counts_single(Op::Goto((bo.len() + 1) as isize));
    assert(mid =~= seq![Op::JumpIf(2)] + seq![Op::Goto((bo.len() + 1) as isize)]);
    lemma_counts_concat(seq![Op::JumpIf(2)], seq![Op::Goto((bo.len() + 1) as isize)]);
    assert(o[co.len() as int] == mid[0]);
    assert(o[co.len() as int + 1] == mid[1]);
}

/// Law: `While(cond, body)` adds exactly one `JumpIf` and one `Goto` of
/// its own. The `JumpIf` guards loop exit: it stands right after the
/// negated condition and lands exactly at the end of the construct. The
/// `Goto` is the single backward edge: it is the last instruction, its
/// offset is negative, and it lands exactly on the first instruction of
/// the condition.
pub proof fn lemma_while_shape(
    condition: Expression,
    body: Vec<Statement>,
    vars: Seq<String>,
    c0: int,
    top: bool,
)
    requires
        stmt_err(Statement::While(condition, body), vars, c0, top) is None,
    ensures
        ({
            let co = expr_ops(condition, vars, c0);
            let bo = stmts_ops(body@, vars, c0 + expr_consts(condition).len());
            let o = stmt_ops(Statement::While(condition, body), vars, c0);
            let back = (-(co.len() + 2 + bo.len())) as isize;
            &&& o == co + seq![Op::Not, Op::JumpIf((bo.len() + 2) as isize)] + bo + seq![
                Op::Goto(back),
            ]
            &&& o.len() == co.len() + 3 + bo.len()
            &&& count_jump_ifs(o) == count_jump_ifs(bo) + 1
            &&& count_gotos(o) == count_gotos(bo) + 1
            &&& o[co.len() as int + 1] == Op::JumpIf((bo.len() + 2) as isize)
            &&& (co.len() + 1) + (bo.len() + 2) == o.len()
            &&& o.last() == Op::Goto(back)
            &&& back < 0
            &&& (o.len() - 1) + back == 0
        }),
{
    let co = expr_ops(condition, vars, c0);
    let bo = stmts_ops(body@, vars, c0 + expr_consts(condition).len());
    let back = (-(co.len() + 2 + bo.len())) as isize;
    let mid = seq![Op::Not, Op::JumpIf((bo.len() + 2) as isize)];
    let o = stmt_ops(Statement::While(condition, body), vars, c0);
    assert(co.len() + 2 + bo.len() <= isize::MAX as int);
    assert(back as int == -(co.len() + 2 + bo.len()));
    lemma_expr_emits_no_jumps(condition, vars, c0);
    lemma_counts_concat(co, mid);
    lemma_counts_concat(co + mid, bo);
    lemma_counts_concat(co + mid + bo, seq![Op::Goto(back)]);
    lemma_counts_single(Op::Goto(back));
    assert(mid =~= seq![Op::Not] + seq![Op::JumpIf((bo.len() + 2) as isize)]);
    lemma_counts_concat(seq![Op::Not], seq![Op::JumpIf((bo.len() + 2) as isize)]);
    lemma_counts_single(Op::Not);
    lemma_counts_single(Op::JumpIf((bo.len() + 2) as isize));
    assert(o[co.len() as int + 1] == mid[1]);
    assert(o.last() == Op::Goto(back));
}

// ---------------------------------------------------------------------------
// Failures of unresolved names
// ---------------------------------------------------------------------------

/// Does an expression read a name that has no slot in the scope?
pub open spec fn expr_reads_unbound(e: Expression, vars: Seq<String>) -> bool
    decreases e,
{
    match e {
        Expression::Number(_) => false,
        Expression::Ident(name) => !has_name(vars, name@),
        Expression::FunctionCall(_) => false,
        Expression::Not(a) => expr_reads_unbound(*a, vars),
        Expression::Add(a, b) => expr_reads_unbound(*a, vars) || expr_reads_unbound(*b, vars),
        Expression::Or(a, b) => expr_reads_unbound(*a, vars) || expr_reads_unbound(*b, vars),
        Expression::And(a, b) => expr_reads_unbound(*a, vars) || expr_reads_unbound(*b, vars),
        Expression::Subtract(a, b) => expr_reads_unbound(*a, vars) || expr_reads_unbound(*b, vars),
        Expression::Divide(a, b) => expr_reads_unbound(*a, vars) || expr_reads_unbound(*b, vars),
        Expression::Multiply(a, b) => expr_reads_unbound(*a, vars) || expr_reads_unbound(*b, vars),
        Expression::Modulo(a, b) => expr_reads_unbound(*a, vars) || expr_reads_unbound(*b, vars),
        Expression::IsGreaterThan(a, b) => expr_reads_unbound(*a, vars) || expr_reads_unbound(
            *b,
            vars,
        ),
        Expression::IsLessThan(a, b) => expr_reads_unbound(*a, vars) || expr_reads_unbound(
            *b,
            vars,
        ),
        Expression::IsEqual(a, b) => expr_reads_unbound(*a, vars) || expr_reads_unbound(*b, vars),
    }
}

/// Law: compiling an expression fails exactly when it reads a name never
/// assigned in its scope, and what it fails with is that name.
pub proof fn lemma_unbound_read_fails(e: Expression, vars: Seq<String>)
    ensures
        expr_reads_unbound(e, vars) <==> expr_err(e, vars) is Some,
        match expr_err(e, vars) {
            Some(name) => !has_name(vars, name@),
            None => true,
        },
    decreases e,
{
    match e {
        Expression::Not(a) => {
            lemma_unbound_read_fails(*a, vars);
        },
        Expression::Add(a, b) => {
            lemma_unbound_read_fails(*a, vars);
            lemma_unbound_read_fails(*b, vars);
        },
        Expression::Or(a, b) => {
            lemma_unbound_read_fails(*a, vars);
            lemma_unbound_read_fails(*b, vars);
        },
        Expression::And(a, b) => {
            lemma_unbound_read_fails(*a, vars);
            lemma_unbound_read_fails(*b, vars);
        },
        Expression::Subtract(a, b) => {
            lemma_unbound_read_fails(*a, vars);
            lemma_unbound_read_fails(*b, vars);
        },
        Expression::Divide(a, b) => {
            lemma_unbound_read_fails(*a, vars);
            lemma_unbound_read_fails(*b, vars);
        },
        Expression::Multiply(a, b) => {
            lemma_unbound_read_fails(*a, vars);
            lemma_unbound_read_fails(*b, vars);
        },
        Expression::Modulo(a, b) => {
            lemma_unbound_read_fails(*a, vars);
            lemma_unbound_read_fails(*b, vars);
        },
        Expression::IsGreaterThan(a, b) => {
            lemma_unbound_read_fails(*a, vars);
            lemma_unbound_read_fails(*b, vars);
        },
        Expression::IsLessThan(a, b) => {
            lemma_unbound_read_fails(*a, vars);
            lemma_unbound_read_fails(*b, vars);
        },
        Expression::IsEqual(a, b) => {
            lemma_unbound_read_fails(*a, vars);
            lemma_unbound_read_fails(*b, vars);
        },
        _ => {},
    }
}

// ---------------------------------------------------------------------------
// Layout
// ---------------------------------------------------------------------------

/// The layout pass records each function in order: entry i of the layout
/// names the i-th function, its offset lies at or past `base`, and the
/// function's chunk occupies exactly the instructions starting at that
/// offset in the laid-out stream.
pub proof fn lemma_layout_positions(funcs: Seq<(String, Seq<Op>)>, base: int, i: int)
    requires
        0 <= i < funcs.len(),
    ensures
        crate::model::layout_offsets(funcs, base).len() == funcs.len(),
        crate::model::layout_offsets(funcs, base)[i].0 == funcs[i].0,
        base <= crate::model::layout_offsets(funcs, base)[i].1,
        crate::model::layout_offsets(funcs, base)[i].1 - base + funcs[i].1.len()
            <= crate::model::funcs_flat(funcs).len(),
        forall|j: int|
            0 <= j < funcs[i].1.len() ==> crate::model::funcs_flat(funcs)[crate::model::layout_offsets(
                funcs,
                base,
            )[i].1 - base + j] == funcs[i].1[j],
    decreases funcs,
{
    let offs = crate::model::layout_offsets(funcs, base);
    let flat = crate::model::funcs_flat(funcs);
    let rest = funcs.drop_first();
    if funcs.len() == 1 {
        assert(crate::model::funcs_flat(rest) =~= Seq::<Op>::empty());
        assert(crate::model::layout_offsets(rest, base + funcs[0].1.len()) =~= Seq::<
            (String, int),
        >::empty());
        assert(flat =~= funcs[0].1);
    } else if i == 0 {
        lemma_layout_positions(rest, base + funcs[0].1.len(), 0);
        assert forall|j: int| 0 <= j < funcs[0].1.len() implies flat[j] == funcs[0].1[j] by {
            assert(flat == funcs[0].1 + crate::model::funcs_flat(rest));
        }
    } else {
        lemma_layout_positions(rest, base + funcs[0].1.len(), i - 1);
        let rest_offs = crate::model::layout_offsets(rest, base + funcs[0].1.len());
        assert(offs[i] == rest_offs[i - 1]);
        assert(funcs[i] == rest[i - 1]);
        let start = rest_offs[i - 1].1 - (base + funcs[0].1.len());
        assert forall|j: int| 0 <= j < funcs[i].1.len() implies flat[offs[i].1 - base + j]
            == funcs[i].1[j] by {
            assert(flat == funcs[0].1 + crate::model::funcs_flat(rest));
            assert(crate::model::funcs_flat(rest)[start + j] == rest[i - 1].1[j]);
            assert(flat[funcs[0].1.len() + (start + j)] == crate::model::funcs_flat(rest)[start
                + j]);
        }
    }
}

/// Law: in the final linked program every function's chunk stands exactly
/// at its recorded absolute offset — past the main program's end, within
/// bounds, instruction for instruction.
pub proof fn lemma_functions_stand_at_their_offsets(prog: Seq<Statement>, i: int)
    requires
        0 <= i < crate::model::program_funcs(prog).len(),
    ensures
        ({
            let funcs = crate::model::program_funcs(prog);
            let offs = crate::model::program_offsets(prog);
            &&& offs.len() == funcs.len()
            &&& offs[i].0 == funcs[i].0
            &&& crate::model::main_ops(prog).len() <= offs[i].1
            &&& offs[i].1 + funcs[i].1.len() <= crate::model::program_ops(prog).len()
            &&& forall|j: int|
                0 <= j < funcs[i].1.len() ==> crate::model::program_ops(prog)[offs[i].1 + j]
                    == funcs[i].1[j]
        }),
{
    let funcs = crate::model::program_funcs(prog);
    let offs = crate::model::program_offsets(prog);
    let main = crate::model::main_ops(prog);
    let flat = crate::model::funcs_flat(funcs);
    lemma_layout_positions(funcs, main.len() as int, i);
    assert forall|j: int| 0 <= j < funcs[i].1.len() implies crate::model::program_ops(
        prog,
    )[offs[i].1 + j] == funcs[i].1[j] by {
        assert(crate::model::program_ops(prog) == main + flat);
        assert(flat[offs[i].1 - main.len() + j] == funcs[i].1[j]);
        assert((main + flat)[main.len() + (offs[i].1 - main.len() + j)] == flat[offs[i].1
            - main.len() + j]);
    }
}

/// Is this instruction a call whose target the offset table cannot
/// resolve?
pub open spec fn call_unresolved(op: Op, offsets: Seq<(String, int)>) -> bool {
    match op {
        Op::CallFunction(name) => lookup_offset(offsets, name@) is None,
        _ => false,
    }
}

/// Law: a program whose final instruction stream holds a call to a name
/// that no definition declares fails to link, and what it fails with is an
/// `UndefinedFunction` error naming an undeclared function.
pub proof fn lemma_undefined_function_fails(ops: Seq<Op>, offsets: Seq<(String, int)>)
    requires
        exists|i: int| 0 <= i < ops.len() && #[trigger] call_unresolved(ops[i], offsets),
    ensures
        match link_err(ops, offsets) {
            Some(e) => match e {
                CompileError::UndefinedFunction(name) => lookup_offset(offsets, name@) is None,
                _ => false,
            },
            None => false,
        },
    decreases ops,
{
    let i = choose|i: int| 0 <= i < ops.len() && #[trigger] call_unresolved(ops[i], offsets);
    if call_unresolved(ops[0], offsets) {
    } else {
        assert(i > 0);
        assert(call_unresolved(ops.drop_first()[i - 1], offsets));
        lemma_undefined_function_fails(ops.drop_first(), offsets);
    }
}

} // verus!
