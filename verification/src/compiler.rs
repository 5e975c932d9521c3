//! The compiler: one scope at a time into instruction sequences, then a
//! linking pass that lays the function chunks out after the main program and
//! resolves every call placeholder, then the textual encoding.
//!
//! Every function is proved to produce exactly what the model in
//! [`crate::model`] describes.

use vstd::prelude::*;

use crate::ast::Expression;
use crate::ast::Statement;
use crate::model;
use crate::model::expr_consts;
use crate::model::expr_err;
use crate::model::expr_ops;
use crate::model::has_name;
use crate::model::insert_name;
use crate::model::name_slot;
use crate::model::table_view;
use crate::ops::Op;

verus! {

/// Why a compilation was refused. Compilation is all-or-nothing: any of
/// these aborts it with no partial output.
#[derive(Debug, PartialEq, Eq)]
pub enum CompileError {
    /// The source text is malformed; the payload is the index of the token
    /// (or, before tokens exist, the byte) where reading gave up.
    ParseError(usize),
    /// An identifier was read before any assignment to it in its scope.
    UndefinedVariable(String),
    /// A call names a function that no definition in the program declares.
    UndefinedFunction(String),
    /// A function definition stands inside another function's body. A
    /// nested definition's chunk could not be reached by the linker, so it
    /// is rejected outright rather than silently dropped.
    NestedFunction(String),
    /// A jump would span more instructions than a relative offset can hold.
    ProgramTooLarge,
}

/// The growing state of one scope under compilation: its instructions, its
/// constant pool, its variable table (names in first-use order; a name's
/// position is its slot) and its function table. `top` marks the top-level
/// program's scope, the only one in which functions may be defined.
///
/// A function body's scope starts with the enclosing pool as its own, so
/// that the `Constant` indices it emits point into the merged pool.
pub struct StatementChunk {
    pub constants: Vec<i64>,
    pub ops: Vec<Op>,
    pub variables: Vec<String>,
    pub symbol_table: Vec<(String, Vec<Op>)>,
    pub top: bool,
}

/// A finished chunk: what remains of a scope once its statements are
/// compiled and its variable table has served its purpose.
pub struct CompiledChunk {
    pub constants: Vec<i64>,
    pub ops: Vec<Op>,
    pub symbol_table: Vec<(String, Vec<Op>)>,
}

impl StatementChunk {
    /// A fresh scope for the top-level program.
    pub fn new() -> (r: StatementChunk)
        ensures
            r.constants@ == Seq::<i64>::empty(),
            r.ops@ == Seq::<Op>::empty(),
            r.variables@ == Seq::<String>::empty(),
            r.symbol_table@ == Seq::<(String, Vec<Op>)>::empty(),
            r.top == true,
    {
        StatementChunk {
            ops: Vec::new(),
            constants: Vec::new(),
            variables: Vec::new(),
            symbol_table: Vec::new(),
            top: true,
        }
    }

    /// A fresh, isolated scope for one function body. It takes over the
    /// enclosing pool so its constants continue it.
    fn function_scope(constants: Vec<i64>) -> (r: StatementChunk)
        ensures
            r.constants == constants,
            r.ops@ == Seq::<Op>::empty(),
            r.variables@ == Seq::<String>::empty(),
            r.symbol_table@ == Seq::<(String, Vec<Op>)>::empty(),
            r.top == false,
    {
        StatementChunk {
            ops: Vec::new(),
            constants,
            variables: Vec::new(),
            symbol_table: Vec::new(),
            top: false,
        }
    }

    /// The slot of a name, when the scope has seen it.
    fn find_variable(&self, name: &String) -> (r: Option<usize>)
        ensures
            match r {
                Some(i) => has_name(self.variables@, name@) && i < self.variables@.len()
                    && i == name_slot(self.variables@, name@),
                None => !has_name(self.variables@, name@),
            },
    {
        let n = self.variables.len();
        for i in 0..n
            invariant
                n == self.variables@.len(),
                forall|j: int| 0 <= j < i ==> self.variables@[j]@ != name@,
        {
            let candidate: &String = &self.variables[i];
            if candidate.eq(name) {
                proof {
                    assert(candidate == self.variables@[i as int]);
                    model::lemma_name_slot(self.variables@, name@, i as int);
                }
                return Some(i);
            }
        }
        None
    }

    /// The slot of a name, allocating the next free slot when the scope has
    /// not seen it. Slots, once given, never move.
    fn allocate_variable(&mut self, name: String) -> (idx: usize)
        ensures
            final(self).variables@ == insert_name(old(self).variables@, name),
            idx == name_slot(final(self).variables@, name@),
            idx < final(self).variables@.len(),
            final(self).constants == old(self).constants,
            final(self).ops == old(self).ops,
            final(self).symbol_table == old(self).symbol_table,
            final(self).top == old(self).top,
    {
        match self.find_variable(&name) {
            Some(i) => i,
            None => {
                let i = self.variables.len();
                self.variables.push(name);
                proof {
                    model::lemma_name_slot(self.variables@, name@, i as int);
                }
                i
            },
        }
    }

    /// Compiles one expression onto the chunk: its constants onto the pool,
    /// its instructions onto the stream, operands before operators. Fails
    /// with the first undefined variable it reads; the variable table and
    /// the function table are never touched.
    pub fn compile_expression(&mut self, expression: Expression) -> (r: Result<(), CompileError>)
        ensures
            final(self).variables == old(self).variables,
            final(self).symbol_table == old(self).symbol_table,
            final(self).top == old(self).top,
            match r {
                Ok(()) => {
                    &&& expr_err(expression, old(self).variables@) is None
                    &&& final(self).ops@ == old(self).ops@ + expr_ops(
                        expression,
                        old(self).variables@,
                        old(self).constants@.len() as int,
                    )
                    &&& final(self).constants@ == old(self).constants@ + expr_consts(expression)
                },
                Err(e) => match expr_err(expression, old(self).variables@) {
                    Some(name) => e == CompileError::UndefinedVariable(name),
                    None => false,
                },
            },
        decreases expression,
    {
        let ghost e0 = expression;
        let ghost vars0 = self.variables@;
        let ghost c0 = self.constants@.len() as int;
        match expression {
            Expression::Number(value) => {
                self.constants.push(value);
                let index = self.constants.len() - 1;
                self.ops.push(Op::Constant(index));
                proof {
                    assert(self.ops@ =~= old(self).ops@ + expr_ops(e0, vars0, c0));
                    assert(self.constants@ =~= old(self).constants@ + expr_consts(e0));
                }
                Ok(())
            },
            Expression::Ident(name) => {
                match self.find_variable(&name) {
                    Some(index) => {
                        self.ops.push(Op::LoadVariable(index));
                        proof {
                            assert(self.ops@ =~= old(self).ops@ + expr_ops(e0, vars0, c0));
                            assert(self.constants@ =~= old(self).constants@ + expr_consts(e0));
                        }
                        Ok(())
                    },
                    None => Err(CompileError::UndefinedVariable(name)),
                }
            },
            Expression::FunctionCall(name) => {
                self.ops.push(Op::CallFunction(name));
                proof {
                    assert(self.ops@ =~= old(self).ops@ + expr_ops(e0, vars0, c0));
                    assert(self.constants@ =~= old(self).constants@ + expr_consts(e0));
                }
                Ok(())
            },
            Expression::Not(inner) => {
                self.compile_expression(*inner)?;
                self.ops.push(Op::Not);
                proof {
                    assert(self.ops@ =~= old(self).ops@ + expr_ops(e0, vars0, c0));
                    assert(self.constants@ =~= old(self).constants@ + expr_consts(e0));
                }
                Ok(())
            },
            Expression::Add(one, two) => {
                self.compile_expression(*one)?;
                self.compile_expression(*two)?;
                self.ops.push(Op::Add);
                proof {
                    assert(self.ops@ =~= old(self).ops@ + expr_ops(e0, vars0, c0));
                    assert(self.constants@ =~= old(self).constants@ + expr_consts(e0));
                }
                Ok(())
            },
            Expression::Subtract(one, two) => {
                self.compile_expression(*one)?;
                self.compile_expression(*two)?;
                self.ops.push(Op::Subtract);
                proof {
                    assert(self.ops@ =~= old(self).ops@ + expr_ops(e0, vars0, c0));
                    assert(self.constants@ =~= old(self).constants@ + expr_consts(e0));
                }
                Ok(())
            },
            Expression::Multiply(one, two) => {
                self.compile_expression(*one)?;
                self.compile_expression(*two)?;
                self.ops.push(Op::Multiply);
                proof {
                    assert(self.ops@ =~= old(self).ops@ + expr_ops(e0, vars0, c0));
                    assert(self.constants@ =~= old(self).constants@ + expr_consts(e0));
                }
                Ok(())
            },
            Expression::Divide(one, two) => {
                self.compile_expression(*one)?;
                self.compile_expression(*two)?;
                self.ops.push(Op::Divide);
                proof {
                    assert(self.ops@ =~= old(self).ops@ + expr_ops(e0, vars0, c0));
                    assert(self.constants@ =~= old(self).constants@ + expr_consts(e0));
                }
                Ok(())
            },
            Expression::Modulo(one, two) => {
                self.compile_expression(*one)?;
                self.compile_expression(*two)?;
                self.ops.push(Op::Modulo);
                proof {
                    assert(self.ops@ =~= old(self).ops@ + expr_ops(e0, vars0, c0));
                    assert(self.constants@ =~= old(self).constants@ + expr_consts(e0));
                }
                Ok(())
            },
            Expression::IsEqual(one, two) => {
                self.compile_expression(*one)?;
                self.compile_expression(*two)?;
                self.ops.push(Op::IsEqual);
                proof {
                    assert(self.ops@ =~= old(self).ops@ + expr_ops(e0, vars0, c0));
                    assert(self.constants@ =~= old(self).constants@ + expr_consts(e0));
                }
                Ok(())
            },
            Expression::IsGreaterThan(one, two) => {
                self.compile_expression(*one)?;
                self.compile_expression(*two)?;
                self.ops.push(Op::IsGreaterThan);
                proof {
                    assert(self.ops@ =~= old(self).ops@ + expr_ops(e0, vars0, c0));
                    assert(self.constants@ =~= old(self).constants@ + expr_consts(e0));
                }
                Ok(())
            },
            Expression::IsLessThan(one, two) => {
                self.compile_expression(*one)?;
                self.compile_expression(*two)?;
                self.ops.push(Op::IsLessThan);
                proof {
                    assert(self.ops@ =~= old(self).ops@ + expr_ops(e0, vars0, c0));
                    assert(self.constants@ =~= old(self).constants@ + expr_consts(e0));
                }
                Ok(())
            },
            Expression::And(one, two) => {
                self.compile_expression(*one)?;
                self.compile_expression(*two)?;
                self.ops.push(Op::And);
                proof {
                    assert(self.ops@ =~= old(self).ops@ + expr_ops(e0, vars0, c0));
                    assert(self.constants@ =~= old(self).constants@ + expr_consts(e0));
                }
                Ok(())
            },
            Expression::Or(one, two) => {
                self.compile_expression(*one)?;
                self.compile_expression(*two)?;
                self.ops.push(Op::Or);
                proof {
                    assert(self.ops@ =~= old(self).ops@ + expr_ops(e0, vars0, c0));
                    assert(self.constants@ =~= old(self).constants@ + expr_consts(e0));
                }
                Ok(())
            },
        }
    }

    /// Compiles an expression and an `Echo` that prints its value.
    pub fn compile_echo(&mut self, expression: Expression) -> (r: Result<(), CompileError>)
        ensures
            final(self).variables == old(self).variables,
            final(self).symbol_table == old(self).symbol_table,
            final(self).top == old(self).top,
            match r {
                Ok(()) => {
                    &&& expr_err(expression, old(self).variables@) is None
                    &&& final(self).ops@ == old(self).ops@ + expr_ops(
                        expression,
                        old(self).variables@,
                        old(self).constants@.len() as int,
                    ) + seq![Op::Echo]
                    &&& final(self).constants@ == old(self).constants@ + expr_consts(expression)
                },
                Err(e) => match expr_err(expression, old(self).variables@) {
                    Some(name) => e == CompileError::UndefinedVariable(name),
                    None => false,
                },
            },
    {
        self.compile_expression(expression)?;
        self.ops.push(Op::Echo);
        Ok(())
    }

    /// Compiles one statement onto the chunk, as the model describes it.
    pub fn compile_statement(&mut self, statement: Statement) -> (r: Result<(), CompileError>)
        ensures
            final(self).top == old(self).top,
            match r {
                Ok(()) => {
                    &&& model::stmt_err(
                        statement,
                        old(self).variables@,
                        old(self).constants@.len() as int,
                        old(self).top,
                    ) is None
                    &&& final(self).variables@ == model::stmt_vars(statement, old(self).variables@)
                    &&& final(self).constants@ == old(self).constants@ + model::stmt_consts(
                        statement,
                    )
                    &&& final(self).ops@ == old(self).ops@ + model::stmt_ops(
                        statement,
                        old(self).variables@,
                        old(self).constants@.len() as int,
                    )
                    &&& table_view(final(self).symbol_table@) == table_view(
                        old(self).symbol_table@,
                    ) + model::stmt_funcs(
                        statement,
                        old(self).variables@,
                        old(self).constants@.len() as int,
                    )
                },
                Err(e) => model::stmt_err(
                    statement,
                    old(self).variables@,
                    old(self).constants@.len() as int,
                    old(self).top,
                ) == Some(e),
            },
        decreases statement, 9int,
    {
        let ghost s0 = statement;
        let ghost vars0 = self.variables@;
        let ghost c0 = self.constants@.len() as int;
        match statement {
            Statement::Expression(expression) => {
                let r = self.compile_expression(expression);
                proof {
                    if r is Ok {
                        assert(self.ops@ =~= old(self).ops@ + model::stmt_ops(s0, vars0, c0));
                        assert(table_view(self.symbol_table@) =~= table_view(
                            old(self).symbol_table@,
                        ) + model::stmt_funcs(s0, vars0, c0));
                    }
                }
                r
            },
            Statement::Echo(expression) => {
                let r = self.compile_echo(expression);
                proof {
                    if r is Ok {
                        assert(self.ops@ =~= old(self).ops@ + model::stmt_ops(s0, vars0, c0));
                        assert(table_view(self.symbol_table@) =~= table_view(
                            old(self).symbol_table@,
                        ) + model::stmt_funcs(s0, vars0, c0));
                    }
                }
                r
            },
            Statement::If(condition, body) => self.compile_if(condition, body),
            Statement::While(condition, body) => self.compile_while(condition, body),
            Statement::Assignment(name, value) => {
                let index = self.allocate_variable(name);
                let r = self.compile_expression(value);
                match r {
                    Err(e) => Err(e),
                    Ok(()) => {
                        self.ops.push(Op::SetVariable(index));
                        proof {
                            assert(self.ops@ =~= old(self).ops@ + model::stmt_ops(s0, vars0, c0));
                            assert(table_view(self.symbol_table@) =~= table_view(
                                old(self).symbol_table@,
                            ) + model::stmt_funcs(s0, vars0, c0));
                        }
                        Ok(())
                    },
                }
            },
            Statement::FunctionDefinition(name, body) => {
                self.compile_function_definition(name, body)
            },
        }
    }

    /// Compiles a statement list onto the chunk, in order, stopping at the
    /// first failure.
    pub fn compile_statements(&mut self, statements: Vec<Statement>) -> (r: Result<
        (),
        CompileError,
    >)
        ensures
            final(self).top == old(self).top,
            match r {
                Ok(()) => {
                    &&& model::stmts_err(
                        statements@,
                        old(self).variables@,
                        old(self).constants@.len() as int,
                        old(self).top,
                    ) is None
                    &&& final(self).variables@ == model::stmts_vars(
                        statements@,
                        old(self).variables@,
                    )
                    &&& final(self).constants@ == old(self).constants@ + model::stmts_consts(
                        statements@,
                    )
                    &&& final(self).ops@ == old(self).ops@ + model::stmts_ops(
                        statements@,
                        old(self).variables@,
                        old(self).constants@.len() as int,
                    )
                    &&& table_view(final(self).symbol_table@) == table_view(
                        old(self).symbol_table@,
                    ) + model::stmts_funcs(
                        statements@,
                        old(self).variables@,
                        old(self).constants@.len() as int,
                    )
                },
                Err(e) => model::stmts_err(
                    statements@,
                    old(self).variables@,
                    old(self).constants@.len() as int,
                    old(self).top,
                ) == Some(e),
            },
        decreases statements@, 2int,
    {
        let ghost ss0 = statements@;
        let ghost vars0 = self.variables@;
        let ghost c0 = self.constants@.len() as int;
        let mut statements = statements;
        if statements.len() == 0 {
            proof {
                assert(self.ops@ =~= old(self).ops@ + model::stmts_ops(ss0, vars0, c0));
                assert(self.constants@ =~= old(self).constants@ + model::stmts_consts(ss0));
                assert(table_view(self.symbol_table@) =~= table_view(old(self).symbol_table@)
                    + model::stmts_funcs(ss0, vars0, c0));
            }
            return Ok(());
        }
        let statement = statements.remove(0);
        self.compile_statement(statement)?;
        proof {
            assert(statements@ =~= ss0.drop_first());
        }
        let r = self.compile_statements(statements);
        proof {
            if r is Ok {
                assert(self.ops@ =~= old(self).ops@ + model::stmts_ops(ss0, vars0, c0));
                assert(self.constants@ =~= old(self).constants@ + model::stmts_consts(ss0));
                assert(table_view(self.symbol_table@) =~= table_view(old(self).symbol_table@)
                    + model::stmts_funcs(ss0, vars0, c0));
            }
        }
        r
    }

    /// Compiles an `If`: condition, a `JumpIf` into the body (over the
    /// `Goto`), a `Goto` past the body, then the body. A true condition
    /// jumps into the body; a false one falls through to the `Goto`.
    pub fn compile_if(&mut self, condition: Expression, body: Vec<Statement>) -> (r: Result<
        (),
        CompileError,
    >)
        ensures
            final(self).top == old(self).top,
            match r {
                Ok(()) => {
                    &&& model::stmt_err(
                        Statement::If(condition, body),
                        old(self).variables@,
                        old(self).constants@.len() as int,
                        old(self).top,
                    ) is None
                    &&& final(self).variables@ == model::stmt_vars(
                        Statement::If(condition, body),
                        old(self).variables@,
                    )
                    &&& final(self).constants@ == old(self).constants@ + model::stmt_consts(
                        Statement::If(condition, body),
                    )
                    &&& final(self).ops@ == old(self).ops@ + model::stmt_ops(
                        Statement::If(condition, body),
                        old(self).variables@,
                        old(self).constants@.len() as int,
                    )
                    &&& table_view(final(self).symbol_table@) == table_view(
                        old(self).symbol_table@,
                    ) + model::stmt_funcs(
                        Statement::If(condition, body),
                        old(self).variables@,
                        old(self).constants@.len() as int,
                    )
                },
                Err(e) => model::stmt_err(
                    Statement::If(condition, body),
                    old(self).variables@,
                    old(self).constants@.len() as int,
                    old(self).top,
                ) == Some(e),
            },
        decreases body@, 3int,
    {
        let ghost s0 = Statement::If(condition, body);
        let ghost vars0 = self.variables@;
        let ghost c0 = self.constants@.len() as int;
        self.compile_expression(condition)?;
        let if_body_jump_index = self.ops.len();
        self.ops.push(Op::JumpIf(0));
        let end_jump_index = self.ops.len();
        self.ops.push(Op::Goto(0));
        let if_body_index = self.ops.len();
        match self.compile_statements(body) {
            Err(e) => {
                return Err(e);
            },
            Ok(()) => {},
        }
        let end_index = self.ops.len();
        let body_len = end_index - if_body_index;
        if body_len >= isize::MAX as usize {
            return Err(CompileError::ProgramTooLarge);
        }
        self.ops.set(if_body_jump_index, Op::JumpIf(2));
        self.ops.set(end_jump_index, Op::Goto((body_len + 1) as isize));
        proof {
            assert(self.ops@ =~= old(self).ops@ + model::stmt_ops(s0, vars0, c0));
            assert(self.constants@ =~= old(self).constants@ + model::stmt_consts(s0));
        }
        Ok(())
    }

    /// Compiles a `While`: condition, `Not`, a `JumpIf` out of the loop,
    /// the body, a backward `Goto` to the condition.
    pub fn compile_while(&mut self, condition: Expression, body: Vec<Statement>) -> (r: Result<
        (),
        CompileError,
    >)
        ensures
            final(self).top == old(self).top,
            match r {
                Ok(()) => {
                    &&& model::stmt_err(
                        Statement::While(condition, body),
                        old(self).variables@,
                        old(self).constants@.len() as int,
                        old(self).top,
                    ) is None
                    &&& final(self).variables@ == model::stmt_vars(
                        Statement::While(condition, body),
                        old(self).variables@,
                    )
                    &&& final(self).constants@ == old(self).constants@ + model::stmt_consts(
                        Statement::While(condition, body),
                    )
                    &&& final(self).ops@ == old(self).ops@ + model::stmt_ops(
                        Statement::While(condition, body),
                        old(self).variables@,
                        old(self).constants@.len() as int,
                    )
                    &&& table_view(final(self).symbol_table@) == table_view(
                        old(self).symbol_table@,
                    ) + model::stmt_funcs(
                        Statement::While(condition, body),
                        old(self).variables@,
                        old(self).constants@.len() as int,
                    )
                },
                Err(e) => model::stmt_err(
                    Statement::While(condition, body),
                    old(self).variables@,
                    old(self).constants@.len() as int,
                    old(self).top,
                ) == Some(e),
            },
        decreases body@, 3int,
    {
        let ghost s0 = Statement::While(condition, body);
        let ghost vars0 = self.variables@;
        let ghost c0 = self.constants@.len() as int;
        let start_index = self.ops.len();
        self.compile_expression(condition)?;
        self.ops.push(Op::Not);
        let end_jump_index = self.ops.len();
        self.ops.push(Op::JumpIf(0));
        match self.compile_statements(body) {
            Err(e) => {
                return Err(e);
            },
            Ok(()) => {},
        }
        let distance = self.ops.len() - start_index;
        if distance > isize::MAX as usize {
            return Err(CompileError::ProgramTooLarge);
        }
        self.ops.push(Op::Goto(-(distance as isize)));
        let end_index = self.ops.len();
        let jump_offset = end_index - end_jump_index;
        self.ops.set(end_jump_index, Op::JumpIf(jump_offset as isize));
        proof {
            assert(self.ops@ =~= old(self).ops@ + model::stmt_ops(s0, vars0, c0));
            assert(self.constants@ =~= old(self).constants@ + model::stmt_consts(s0));
        }
        Ok(())
    }

    /// Compiles a function body as a fresh, isolated chunk. The body's
    /// constants continue the enclosing pool (so its `Constant` indices
    /// point into the merged pool), and the chunk is recorded in the
    /// function table for the linker. Definitions are allowed only in the
    /// top-level scope: one inside a function body is rejected, since its
    /// chunk could never reach the linker.
    pub fn compile_function_definition(&mut self, name: String, body: Vec<Statement>) -> (r: Result<
        (),
        CompileError,
    >)
        ensures
            final(self).top == old(self).top,
            match r {
                Ok(()) => {
                    &&& model::stmt_err(
                        Statement::FunctionDefinition(name, body),
                        old(self).variables@,
                        old(self).constants@.len() as int,
                        old(self).top,
                    ) is None
                    &&& final(self).variables@ == model::stmt_vars(
                        Statement::FunctionDefinition(name, body),
                        old(self).variables@,
                    )
                    &&& final(self).constants@ == old(self).constants@ + model::stmt_consts(
                        Statement::FunctionDefinition(name, body),
                    )
                    &&& final(self).ops@ == old(self).ops@ + model::stmt_ops(
                        Statement::FunctionDefinition(name, body),
                        old(self).variables@,
                        old(self).constants@.len() as int,
                    )
                    &&& table_view(final(self).symbol_table@) == table_view(
                        old(self).symbol_table@,
                    ) + model::stmt_funcs(
                        Statement::FunctionDefinition(name, body),
                        old(self).variables@,
                        old(self).constants@.len() as int,
                    )
                },
                Err(e) => model::stmt_err(
                    Statement::FunctionDefinition(name, body),
                    old(self).variables@,
                    old(self).constants@.len() as int,
                    old(self).top,
                ) == Some(e),
            },
        decreases body@, 4int,
    {
        let ghost s0 = Statement::FunctionDefinition(name, body);
        let ghost vars0 = self.variables@;
        let ghost c0 = self.constants@.len() as int;
        if !self.top {
            return Err(CompileError::NestedFunction(name));
        }
        let mut pool: Vec<i64> = Vec::new();
        core::mem::swap(&mut pool, &mut self.constants);
        let scope = StatementChunk::function_scope(pool);
        match scope.compile(body) {
            Err(e) => Err(e),
            Ok(compiled_chunk) => {
                self.constants = compiled_chunk.constants;
                self.symbol_table.push((name, compiled_chunk.ops));
                proof {
                    model::lemma_table_view_push(
                        old(self).symbol_table@,
                        (name, compiled_chunk.ops),
                    );
                    assert(self.ops@ =~= old(self).ops@ + model::stmt_ops(s0, vars0, c0));
                    assert(table_view(self.symbol_table@) =~= table_view(old(self).symbol_table@)
                        + model::stmt_funcs(s0, vars0, c0));
                }
                Ok(())
            },
        }
    }

    /// Consumes the scope and yields its finished chunk: the statements
    /// compiled in order, closed by a `Return`.
    pub fn compile(self, statements: Vec<Statement>) -> (r: Result<CompiledChunk, CompileError>)
        ensures
            match r {
                Ok(cc) => {
                    &&& model::stmts_err(
                        statements@,
                        self.variables@,
                        self.constants@.len() as int,
                        self.top,
                    ) is None
                    &&& cc.ops@ == self.ops@ + model::stmts_ops(
                        statements@,
                        self.variables@,
                        self.constants@.len() as int,
                    ) + seq![Op::Return]
                    &&& cc.constants@ == self.constants@ + model::stmts_consts(statements@)
                    &&& table_view(cc.symbol_table@) == table_view(self.symbol_table@)
                        + model::stmts_funcs(
                        statements@,
                        self.variables@,
                        self.constants@.len() as int,
                    )
                },
                Err(e) => model::stmts_err(
                    statements@,
                    self.variables@,
                    self.constants@.len() as int,
                    self.top,
                ) == Some(e),
            },
        decreases statements@, 3int,
    {
        let mut this = self;
        this.compile_statements(statements)?;
        this.ops.push(Op::Return);
        Ok(
            CompiledChunk {
                constants: this.constants,
                ops: this.ops,
                symbol_table: this.symbol_table,
            },
        )
    }
}

/// The two artifacts of a successful compilation, for an external virtual
/// machine to consume: the constant list and the instruction stream, both
/// space-separated with a trailing space.
#[derive(Debug)]
pub struct Program {
    pub constants: String,
    pub text: String,
}

/// The absolute offset recorded for `name`, scanning the offset table from
/// its newest entry (a later definition of the same name wins).
#[verifier::loop_isolation(false)]
fn lookup_function_offset(offsets: &Vec<(String, usize)>, name: &String) -> (r: Option<usize>)
    ensures
        match r {
            Some(o) => model::lookup_offset(model::offsets_view(offsets@), name@) == Some(o as int),
            None => model::lookup_offset(model::offsets_view(offsets@), name@) is None,
        },
{
    let n = offsets.len();
    let mut i = n;
    proof {
        assert(offsets@.take(n as int) =~= offsets@);
    }
    while i > 0
        invariant
            i <= n,
            n == offsets@.len(),
            model::lookup_offset(model::offsets_view(offsets@), name@) == model::lookup_offset(
                model::offsets_view(offsets@.take(i as int)),
                name@,
            ),
        decreases i,
    {
        i = i - 1;
        if offsets[i].0.eq(name) {
            proof {
                assert(model::offsets_view(offsets@.take(i as int + 1)).last() == (
                    offsets@[i as int].0,
                    offsets@[i as int].1 as int,
                ));
            }
            return Some(offsets[i].1);
        }
        proof {
            assert(model::offsets_view(offsets@.take(i as int + 1)).drop_last() =~= model::offsets_view(
                offsets@.take(i as int),
            ));
            assert(model::offsets_view(offsets@.take(i as int + 1)).last() == (
                offsets@[i as int].0,
                offsets@[i as int].1 as int,
            ));
        }
    }
    proof {
        assert(offsets@.take(0) =~= Seq::<(String, usize)>::empty());
    }
    None
}

/// Appends the token of one instruction to the output text; for a call,
/// the token carries the resolved absolute offset, and an unresolvable
/// target is the link error.
fn append_op_token(text: &mut String, op: &Op, offsets: &Vec<(String, usize)>) -> (r: Result<
    (),
    CompileError,
>)
    ensures
        match r {
            Ok(()) => final(text)@ == old(text)@ + model::op_token(
                *op,
                model::offsets_view(offsets@),
            ) && match *op {
                Op::CallFunction(name) => model::lookup_offset(
                    model::offsets_view(offsets@),
                    name@,
                ) is Some,
                _ => true,
            },
            Err(e) => match *op {
                Op::CallFunction(name) => model::lookup_offset(
                    model::offsets_view(offsets@),
                    name@,
                ) is None && e == CompileError::UndefinedFunction(name),
                _ => false,
            },
        },
{
    proof {
        reveal_strlit("c/");
        reveal_strlit("s/");
        reveal_strlit("v/");
        reveal_strlit("j/");
        reveal_strlit("g/");
        reveal_strlit("k/");
        reveal_strlit("e ");
        reveal_strlit("+ ");
        reveal_strlit("- ");
        reveal_strlit("* ");
        reveal_strlit("÷ ");
        reveal_strlit("% ");
        reveal_strlit("> ");
        reveal_strlit("< ");
        reveal_strlit("= ");
        reveal_strlit("& ");
        reveal_strlit("| ");
        reveal_strlit("! ");
        reveal_strlit("r ");
        reveal_strlit(" ");
    }
    let ghost t0 = text@;
    let ghost ow = model::offsets_view(offsets@);
    match op {
        Op::Echo => {
            text.append("e ");
        },
        Op::Constant(index) => {
            text.append("c/");
            let digits = crate::numfmt::usize_text(*index);
            text.append(digits.as_str());
            text.append(" ");
        },
        Op::Add => {
            text.append("+ ");
        },
        Op::Subtract => {
            text.append("- ");
        },
        Op::Multiply => {
            text.append("* ");
        },
        Op::Divide => {
            text.append("÷ ");
        },
        Op::Modulo => {
            text.append("% ");
        },
        Op::IsGreaterThan => {
            text.append("> ");
        },
        Op::IsLessThan => {
            text.append("< ");
        },
        Op::IsEqual => {
            text.append("= ");
        },
        Op::And => {
            text.append("& ");
        },
        Op::Or => {
            text.append("| ");
        },
        Op::Not => {
            text.append("! ");
        },
        Op::SetVariable(index) => {
            text.append("s/");
            let digits = crate::numfmt::usize_text(*index);
            text.append(digits.as_str());
            text.append(" ");
        },
        Op::LoadVariable(index) => {
            text.append("v/");
            let digits = crate::numfmt::usize_text(*index);
            text.append(digits.as_str());
            text.append(" ");
        },
        Op::JumpIf(offset) => {
            text.append("j/");
            let digits = crate::numfmt::isize_text(*offset);
            text.append(digits.as_str());
            text.append(" ");
        },
        Op::Goto(offset) => {
            text.append("g/");
            let digits = crate::numfmt::isize_text(*offset);
            text.append(digits.as_str());
            text.append(" ");
        },
        Op::Return => {
            text.append("r ");
        },
        Op::CallFunction(name) => {
            match lookup_function_offset(offsets, name) {
                Some(offset) => {
                    text.append("k/");
                    let digits = crate::numfmt::usize_text(offset);
                    text.append(digits.as_str());
                    text.append(" ");
                },
                None => {
                    return Err(CompileError::UndefinedFunction(name.clone()));
                },
            }
        },
    }
    proof {
        assert(text@ =~= t0 + model::op_token(*op, ow));
    }
    Ok(())
}

/// Compiles a whole program: the statements into the main chunk, every
/// function into its own chunk; then the link pass lays the function
/// chunks after the main program, records each function's absolute
/// starting offset, and renders the instruction stream with every call
/// resolved; the constant pool is rendered alongside.
///
/// Returns exactly the artifacts the model describes, or the model's first
/// error: an undefined variable or misplaced definition while compiling, a
/// call to an undefined function while linking.
#[verifier::loop_isolation(false)]
#[verifier::rlimit(80)]
pub fn compile(statements: Vec<Statement>) -> (r: Result<Program, CompileError>)
    ensures
        match r {
            Ok(p) => {
                &&& model::program_err(statements@) is None
                &&& p.text@ == model::program_text(statements@)
                &&& p.constants@ == model::program_consts_text(statements@)
            },
            Err(e) => model::program_err(statements@) == Some(e),
        },
{
    let ghost prog = statements@;
    let compiled = match StatementChunk::new().compile(statements) {
        Ok(c) => c,
        Err(e) => {
            return Err(e);
        },
    };
    proof {
        assert(compiled.ops@ =~= model::main_ops(prog));
        assert(compiled.constants@ =~= model::stmts_consts(prog));
        assert(table_view(compiled.symbol_table@) =~= model::program_funcs(prog));
    }
    let ghost funcs = model::program_funcs(prog);
    let ghost main_len = model::main_ops(prog).len() as int;

    // Layout pass: record each function's starting offset, then lay its
    // chunk after what is already placed.
    let mut program_ops = compiled.ops;
    let mut offsets: Vec<(String, usize)> = Vec::new();
    let mut table = compiled.symbol_table;
    let ghost total = funcs.len();
    proof {
        assert(table_view(table@).len() == table@.len());
        assert(table@.len() == total);
        assert(funcs.skip(0) =~= funcs);
        assert(funcs.take(0) =~= Seq::<(String, Seq<Op>)>::empty());
        assert(model::funcs_flat(Seq::<(String, Seq<Op>)>::empty()) =~= Seq::<Op>::empty());
        assert(model::layout_offsets(Seq::<(String, Seq<Op>)>::empty(), main_len) =~= Seq::<
            (String, int),
        >::empty());
        assert(model::offsets_view(offsets@) =~= Seq::<(String, int)>::empty());
        assert(program_ops@ =~= model::main_ops(prog) + Seq::<Op>::empty());
    }
    while table.len() > 0
        invariant
            table_view(table@) =~= funcs.skip(total - table@.len()),
            table@.len() <= total,
            program_ops@ == model::main_ops(prog) + model::funcs_flat(
                funcs.take(total - table@.len()),
            ),
            model::offsets_view(offsets@) == model::layout_offsets(
                funcs.take(total - table@.len()),
                main_len,
            ),
        decreases table@.len(),
    {
        let ghost t_pre = table@;
        let ghost i = total - t_pre.len();
        proof {
            assert(0 <= i < total);
            assert(table_view(t_pre)[0] == funcs.skip(i)[0]);
            assert(funcs.skip(i)[0] == funcs[i]);
        }
        let (name, mut ops) = table.remove(0);
        proof {
            assert(table_view(t_pre)[0] == (t_pre[0].0, t_pre[0].1@));
            assert(name == funcs[i].0 && ops@ == funcs[i].1);
            assert(table@ =~= t_pre.drop_first());
            assert forall|j: int| 0 <= j < table@.len() implies table_view(table@)[j]
                == funcs.skip(i + 1)[j] by {
                assert(table_view(table@)[j] == (table@[j].0, table@[j].1@));
                assert(table@[j] == t_pre[j + 1]);
                assert(table_view(t_pre)[j + 1] == (t_pre[j + 1].0, t_pre[j + 1].1@));
                assert(table_view(t_pre)[j + 1] == funcs.skip(i)[j + 1]);
                assert(funcs.skip(i)[j + 1] == funcs[i + j + 1]);
                assert(funcs.skip(i + 1)[j] == funcs[i + 1 + j]);
            }
            assert(table_view(table@) =~= funcs.skip(i + 1));
            assert(funcs.take(i + 1) =~= funcs.take(i) + seq![funcs[i]]);
            model::lemma_layout_offsets_concat(funcs.take(i), seq![funcs[i]], main_len);
            assert(seq![funcs[i]].drop_first() =~= Seq::<(String, Seq<Op>)>::empty());
            assert(model::funcs_flat(seq![funcs[i]]) =~= funcs[i].1 + model::funcs_flat(
                Seq::<(String, Seq<Op>)>::empty(),
            ));
            assert(model::funcs_flat(seq![funcs[i]]) =~= funcs[i].1);
            assert(model::layout_offsets(
                Seq::<(String, Seq<Op>)>::empty(),
                main_len + model::funcs_flat(funcs.take(i)).len() + funcs[i].1.len(),
            ) =~= Seq::<(String, int)>::empty());
            assert(model::layout_offsets(seq![funcs[i]], main_len + model::funcs_flat(
                funcs.take(i),
            ).len()) =~= seq![
                (funcs[i].0, main_len + model::funcs_flat(funcs.take(i)).len()),
            ]);
        }
        let position = program_ops.len();
        proof {
            model::lemma_offsets_view_push(offsets@, (name, position));
        }
        offsets.push((name, position));
        program_ops.append(&mut ops);
        proof {
            assert(program_ops@ =~= model::main_ops(prog) + model::funcs_flat(funcs.take(i + 1)));
            assert(model::offsets_view(offsets@) =~= model::layout_offsets(
                funcs.take(i + 1),
                main_len,
            ));
        }
    }
    proof {
        assert(funcs.take(total as int) =~= funcs);
        assert(program_ops@ == model::program_ops(prog));
        assert(model::offsets_view(offsets@) == model::program_offsets(prog));
    }

    // Resolution and encoding pass: one token per instruction, calls
    // rewritten to their absolute offsets.
    let ghost ow = model::program_offsets(prog);
    let mut text = String::new();
    let op_count = program_ops.len();
    for idx in 0..op_count
        invariant
            op_count == program_ops@.len(),
            model::offsets_view(offsets@) == ow,
            ow == model::program_offsets(prog),
            program_ops@ == model::program_ops(prog),
            model::stmts_err(prog, Seq::empty(), 0, true) is None,
            text@ == model::ops_text(program_ops@.take(idx as int), ow),
            model::link_err(program_ops@.take(idx as int), ow) is None,
    {
        let r = append_op_token(&mut text, &program_ops[idx], &offsets);
        proof {
            assert(program_ops@.take(idx + 1) =~= program_ops@.take(idx as int) + seq![
                program_ops@[idx as int],
            ]);
            model::lemma_ops_text_concat(
                program_ops@.take(idx as int),
                seq![program_ops@[idx as int]],
                ow,
            );
            model::lemma_link_err_concat(
                program_ops@.take(idx as int),
                seq![program_ops@[idx as int]],
                ow,
            );
        }
        match r {
            Ok(()) => {
                proof {
                    assert(seq![program_ops@[idx as int]].drop_first() =~= Seq::<Op>::empty());
                    assert(model::ops_text(Seq::<Op>::empty(), ow) =~= Seq::<char>::empty());
                    assert(model::ops_text(seq![program_ops@[idx as int]], ow) =~= model::op_token(
                        program_ops@[idx as int],
                        ow,
                    ));
                    assert(model::link_err(Seq::<Op>::empty(), ow) is None);
                    assert(model::link_err(seq![program_ops@[idx as int]], ow) is None);
                }
            },
            Err(e) => {
                proof {
                    assert(program_ops@.take(op_count as int) =~= program_ops@);
                    model::lemma_link_err_concat(
                        program_ops@.take(idx as int),
                        program_ops@.skip(idx as int),
                        ow,
                    );
                    assert(program_ops@.take(idx as int) + program_ops@.skip(idx as int)
                        =~= program_ops@);
                    assert(program_ops@.skip(idx as int)[0] == program_ops@[idx as int]);
                }
                return Err(e);
            },
        }
    }
    proof {
        assert(program_ops@.take(op_count as int) =~= program_ops@);
    }

    // The constant pool, in decimal.
    let constants_vec = compiled.constants;
    let mut constants_text = String::new();
    let const_count = constants_vec.len();
    for idx in 0..const_count
        invariant
            const_count == constants_vec@.len(),
            constants_vec@ == model::stmts_consts(prog),
            constants_text@ == model::consts_text(constants_vec@.take(idx as int)),
    {
        proof {
            reveal_strlit(" ");
        }
        let digits = crate::numfmt::i64_text(constants_vec[idx]);
        constants_text.append(digits.as_str());
        constants_text.append(" ");
        proof {
            assert(constants_vec@.take(idx + 1) =~= constants_vec@.take(idx as int) + seq![
                constants_vec@[idx as int],
            ]);
            model::lemma_consts_text_concat(
                constants_vec@.take(idx as int),
                seq![constants_vec@[idx as int]],
            );
            assert(seq![constants_vec@[idx as int]].drop_first() =~= Seq::<i64>::empty());
            assert(model::consts_text(Seq::<i64>::empty()) =~= Seq::<char>::empty());
            assert(model::consts_text(seq![constants_vec@[idx as int]])
                =~= crate::numfmt::dec_int(constants_vec@[idx as int] as int) + seq![' ']);
            assert(constants_text@ =~= model::consts_text(constants_vec@.take(idx + 1)));
        }
    }
    proof {
        assert(constants_vec@.take(const_count as int) =~= constants_vec@);
    }

    Ok(Program { text, constants: constants_text })
}

} // verus!
