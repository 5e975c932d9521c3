use plasma::ast::Expression;
use plasma::ast::Statement;
use plasma::compiler::compile;
use plasma::compiler::CompileError;

fn num(n: i64) -> Expression {
    Expression::Number(n)
}

fn ident(name: &str) -> Expression {
    Expression::Ident(String::from(name))
}

fn assign(name: &str, value: Expression) -> Statement {
    Statement::Assignment(String::from(name), value)
}

#[test]
fn scenario_sequencing() {
    let statements = vec![assign("x", num(5)), Statement::Echo(ident("x"))];
    let program = compile(statements).unwrap();
    assert_eq!(program.constants.as_str(), "5 ");
    assert_eq!(program.text.as_str(), "c/0 s/0 v/0 e r ");
}

#[test]
fn scenario_if_linking_of_offsets() {
    let statements = vec![
        assign("x", num(1)),
        Statement::If(
            Expression::IsGreaterThan(Box::new(ident("x")), Box::new(num(0))),
            vec![Statement::Echo(ident("x"))],
        ),
    ];
    let program = compile(statements).unwrap();
    assert_eq!(program.constants.as_str(), "1 0 ");
    assert_eq!(program.text.as_str(), "c/0 s/0 v/0 c/1 > j/2 g/3 v/0 e r ");
}

#[test]
fn scenario_function_call_linking() {
    let statements = vec![
        Statement::FunctionDefinition(
            String::from("f"),
            vec![Statement::Echo(num(42))],
        ),
        Statement::Expression(Expression::FunctionCall(String::from("f"))),
    ];
    let program = compile(statements).unwrap();
    assert_eq!(program.constants.as_str(), "42 ");
    assert_eq!(program.text.as_str(), "k/2 r c/0 e r ");
}

#[test]
fn empty_program_is_a_bare_return() {
    let program = compile(Vec::new()).unwrap();
    assert_eq!(program.constants.as_str(), "");
    assert_eq!(program.text.as_str(), "r ");
}

#[test]
fn reassigned_name_reuses_its_slot() {
    let statements = vec![
        assign("x", num(1)),
        assign("y", num(2)),
        assign("x", num(3)),
    ];
    let program = compile(statements).unwrap();
    assert_eq!(program.constants.as_str(), "1 2 3 ");
    assert_eq!(program.text.as_str(), "c/0 s/0 c/1 s/1 c/2 s/0 r ");
}

#[test]
fn while_compiles_to_negated_test_and_backward_goto() {
    let statements = vec![
        assign("x", num(0)),
        Statement::While(
            Expression::IsLessThan(Box::new(ident("x")), Box::new(num(3))),
            vec![assign("x", Expression::Add(Box::new(ident("x")), Box::new(num(1))))],
        ),
    ];
    let program = compile(statements).unwrap();
    assert_eq!(program.constants.as_str(), "0 3 1 ");
    assert_eq!(
        program.text.as_str(),
        "c/0 s/0 v/0 c/1 < ! j/6 v/0 c/2 + s/0 g/-9 r "
    );
}

#[test]
fn every_operator_has_its_token() {
    let statements = vec![
        assign("a", num(1)),
        Statement::Echo(Expression::Add(Box::new(ident("a")), Box::new(num(2)))),
        Statement::Echo(Expression::Subtract(Box::new(ident("a")), Box::new(num(2)))),
        Statement::Echo(Expression::Multiply(Box::new(ident("a")), Box::new(num(2)))),
        Statement::Echo(Expression::Divide(Box::new(ident("a")), Box::new(num(2)))),
        Statement::Echo(Expression::Modulo(Box::new(ident("a")), Box::new(num(2)))),
        Statement::Echo(Expression::IsEqual(Box::new(ident("a")), Box::new(num(2)))),
        Statement::Echo(Expression::And(Box::new(ident("a")), Box::new(num(2)))),
        Statement::Echo(Expression::Or(Box::new(ident("a")), Box::new(num(2)))),
        Statement::Echo(Expression::Not(Box::new(ident("a")))),
    ];
    let program = compile(statements).unwrap();
    assert_eq!(program.constants.as_str(), "1 2 2 2 2 2 2 2 2 ");
    assert_eq!(
        program.text.as_str(),
        "c/0 s/0 v/0 c/1 + e v/0 c/2 - e v/0 c/3 * e v/0 c/4 ÷ e v/0 c/5 % e \
         v/0 c/6 = e v/0 c/7 & e v/0 c/8 | e v/0 ! e r "
    );
}

#[test]
fn negative_and_extreme_constants_render_in_decimal() {
    let statements = vec![
        Statement::Echo(num(-7)),
        Statement::Echo(num(i64::MIN)),
        Statement::Echo(num(i64::MAX)),
        Statement::Echo(num(0)),
    ];
    let program = compile(statements).unwrap();
    assert_eq!(
        program.constants.as_str(),
        "-7 -9223372036854775808 9223372036854775807 0 "
    );
    assert_eq!(program.text.as_str(), "c/0 e c/1 e c/2 e c/3 e r ");
}

#[test]
fn function_constants_continue_the_enclosing_pool() {
    let statements = vec![
        assign("x", num(1)),
        Statement::FunctionDefinition(
            String::from("f"),
            vec![Statement::Echo(num(42))],
        ),
        Statement::Expression(Expression::FunctionCall(String::from("f"))),
    ];
    let program = compile(statements).unwrap();
    assert_eq!(program.constants.as_str(), "1 42 ");
    assert_eq!(program.text.as_str(), "c/0 s/0 k/4 r c/1 e r ");
}

#[test]
fn functions_are_laid_out_in_definition_order() {
    let statements = vec![
        Statement::FunctionDefinition(String::from("f"), Vec::new()),
        Statement::FunctionDefinition(String::from("g"), Vec::new()),
        Statement::Expression(Expression::FunctionCall(String::from("f"))),
        Statement::Expression(Expression::FunctionCall(String::from("g"))),
    ];
    let program = compile(statements).unwrap();
    assert_eq!(program.constants.as_str(), "");
    assert_eq!(program.text.as_str(), "k/3 k/4 r r r ");
}

#[test]
fn later_definition_of_a_name_wins() {
    let statements = vec![
        Statement::FunctionDefinition(
            String::from("f"),
            vec![Statement::Echo(num(1))],
        ),
        Statement::FunctionDefinition(
            String::from("f"),
            vec![Statement::Echo(num(2))],
        ),
        Statement::Expression(Expression::FunctionCall(String::from("f"))),
    ];
    let program = compile(statements).unwrap();
    assert_eq!(program.constants.as_str(), "1 2 ");
    assert_eq!(program.text.as_str(), "k/5 r c/0 e r c/1 e r ");
}

#[test]
fn definitions_inside_if_bodies_share_the_top_scope() {
    let statements = vec![
        Statement::If(
            num(1),
            vec![Statement::FunctionDefinition(
                String::from("f"),
                vec![Statement::Echo(num(9))],
            )],
        ),
        Statement::Expression(Expression::FunctionCall(String::from("f"))),
    ];
    let program = compile(statements).unwrap();
    assert_eq!(program.constants.as_str(), "1 9 ");
    // main: c/0 j/2 g/1 k/? r  (the if body emits no instructions)
    assert_eq!(program.text.as_str(), "c/0 j/2 g/1 k/5 r c/1 e r ");
}

#[test]
fn reading_an_unassigned_name_is_an_undefined_variable_error() {
    let statements = vec![Statement::Echo(ident("y"))];
    let err = compile(statements).unwrap_err();
    assert_eq!(err, CompileError::UndefinedVariable(String::from("y")));
}

#[test]
fn a_name_assigned_in_one_scope_is_unknown_in_another() {
    let statements = vec![
        assign("x", num(1)),
        Statement::FunctionDefinition(
            String::from("f"),
            vec![Statement::Echo(ident("x"))],
        ),
    ];
    let err = compile(statements).unwrap_err();
    assert_eq!(err, CompileError::UndefinedVariable(String::from("x")));
}

#[test]
fn assignment_binds_its_own_name_before_the_value_is_compiled() {
    let statements = vec![assign("x", ident("x")), Statement::Echo(ident("x"))];
    let program = compile(statements).unwrap();
    assert_eq!(program.constants.as_str(), "");
    assert_eq!(program.text.as_str(), "v/0 s/0 v/0 e r ");
}

#[test]
fn calling_an_undefined_function_is_a_link_error() {
    let statements = vec![Statement::Expression(Expression::FunctionCall(
        String::from("g"),
    ))];
    let err = compile(statements).unwrap_err();
    assert_eq!(err, CompileError::UndefinedFunction(String::from("g")));
}

#[test]
fn a_definition_inside_a_function_body_is_rejected() {
    let statements = vec![Statement::FunctionDefinition(
        String::from("f"),
        vec![Statement::FunctionDefinition(String::from("g"), Vec::new())],
    )];
    let err = compile(statements).unwrap_err();
    assert_eq!(err, CompileError::NestedFunction(String::from("g")));
}

#[test]
fn compile_errors_before_link_errors() {
    // The undefined variable is found while compiling, before the
    // unresolvable call could reach the linker.
    let statements = vec![
        Statement::Expression(Expression::FunctionCall(String::from("g"))),
        Statement::Echo(ident("y")),
    ];
    let err = compile(statements).unwrap_err();
    assert_eq!(err, CompileError::UndefinedVariable(String::from("y")));
}

#[test]
fn a_chunk_closes_with_a_return() {
    let chunk = plasma::compiler::StatementChunk::new()
        .compile(vec![Statement::Echo(num(1))])
        .unwrap();
    assert_eq!(chunk.constants, vec![1]);
    assert_eq!(chunk.ops.len(), 3);
    assert!(matches!(chunk.ops[0], plasma::ops::Op::Constant(0)));
    assert!(matches!(chunk.ops[1], plasma::ops::Op::Echo));
    assert!(matches!(chunk.ops[2], plasma::ops::Op::Return));
    assert!(chunk.symbol_table.is_empty());
}
