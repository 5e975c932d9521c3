use plasma::ast::Expression;
use plasma::ast::Statement;
use plasma::compiler::compile;
use plasma::compiler::CompileError;
use plasma::parser::parse;

#[test]
fn parses_assignment_and_echo() {
    let statements = parse(String::from("x = 5 echo x")).unwrap();
    assert_eq!(statements.len(), 2);
    match &statements[0] {
        Statement::Assignment(name, Expression::Number(5)) => assert_eq!(name.as_str(), "x"),
        other => panic!("unexpected statement: {:?}", other),
    }
    match &statements[1] {
        Statement::Echo(Expression::Ident(name)) => assert_eq!(name.as_str(), "x"),
        other => panic!("unexpected statement: {:?}", other),
    }
}

#[test]
fn parsed_source_compiles_to_the_sequencing_scenario() {
    let statements = parse(String::from("x = 5\necho x\n")).unwrap();
    let program = compile(statements).unwrap();
    assert_eq!(program.constants.as_str(), "5 ");
    assert_eq!(program.text.as_str(), "c/0 s/0 v/0 e r ");
}

#[test]
fn parsed_source_compiles_to_the_if_scenario() {
    let statements = parse(String::from("x = 1\nif x > 0 {\n  echo x\n}\n")).unwrap();
    let program = compile(statements).unwrap();
    assert_eq!(program.constants.as_str(), "1 0 ");
    assert_eq!(program.text.as_str(), "c/0 s/0 v/0 c/1 > j/2 g/3 v/0 e r ");
}

#[test]
fn parsed_source_compiles_to_the_function_scenario() {
    let statements = parse(String::from("def f {\n  echo 42\n}\nf()\n")).unwrap();
    let program = compile(statements).unwrap();
    assert_eq!(program.constants.as_str(), "42 ");
    assert_eq!(program.text.as_str(), "k/2 r c/0 e r ");
}

#[test]
fn parsed_while_loop_compiles_to_its_shape() {
    let statements = parse(String::from("x = 0 while x < 3 { x = x + 1 }")).unwrap();
    let program = compile(statements).unwrap();
    assert_eq!(program.constants.as_str(), "0 3 1 ");
    assert_eq!(
        program.text.as_str(),
        "c/0 s/0 v/0 c/1 < ! j/6 v/0 c/2 + s/0 g/-9 r "
    );
}

#[test]
fn parses_every_infix_operator() {
    let source = "a = 1 echo a + 1 echo a - 1 echo a * 1 echo a / 1 echo a % 1 \
                  echo a > 1 echo a < 1 echo a == 1 echo a | 1 echo a & 1";
    let statements = parse(String::from(source)).unwrap();
    assert_eq!(statements.len(), 11);
    assert!(matches!(
        statements[1],
        Statement::Echo(Expression::Add(_, _))
    ));
    assert!(matches!(
        statements[2],
        Statement::Echo(Expression::Subtract(_, _))
    ));
    assert!(matches!(
        statements[3],
        Statement::Echo(Expression::Multiply(_, _))
    ));
    assert!(matches!(
        statements[4],
        Statement::Echo(Expression::Divide(_, _))
    ));
    assert!(matches!(
        statements[5],
        Statement::Echo(Expression::Modulo(_, _))
    ));
    assert!(matches!(
        statements[6],
        Statement::Echo(Expression::IsGreaterThan(_, _))
    ));
    assert!(matches!(
        statements[7],
        Statement::Echo(Expression::IsLessThan(_, _))
    ));
    assert!(matches!(
        statements[8],
        Statement::Echo(Expression::IsEqual(_, _))
    ));
    assert!(matches!(
        statements[9],
        Statement::Echo(Expression::Or(_, _))
    ));
    assert!(matches!(
        statements[10],
        Statement::Echo(Expression::And(_, _))
    ));
}

#[test]
fn parses_negation_and_parentheses() {
    let statements = parse(String::from("x = 0 echo !(x == 1)")).unwrap();
    match &statements[1] {
        Statement::Echo(Expression::Not(inner)) => {
            assert!(matches!(**inner, Expression::IsEqual(_, _)));
        },
        other => panic!("unexpected statement: {:?}", other),
    }
}

#[test]
fn an_unknown_character_is_a_parse_error() {
    let err = parse(String::from("x = $")).unwrap_err();
    assert!(matches!(err, CompileError::ParseError(_)));
}

#[test]
fn a_stray_closing_brace_is_a_parse_error() {
    let err = parse(String::from("echo 1 }")).unwrap_err();
    assert!(matches!(err, CompileError::ParseError(_)));
}

#[test]
fn a_number_beyond_i64_is_a_parse_error() {
    let err = parse(String::from("echo 99999999999999999999")).unwrap_err();
    assert!(matches!(err, CompileError::ParseError(_)));
}

#[test]
fn non_ascii_source_is_a_parse_error() {
    let err = parse(String::from("écho 1")).unwrap_err();
    assert!(matches!(err, CompileError::ParseError(_)));
}

#[test]
fn a_missing_block_is_a_parse_error() {
    let err = parse(String::from("if 1 echo 2")).unwrap_err();
    assert!(matches!(err, CompileError::ParseError(_)));
}

#[test]
fn keywords_are_not_identifiers() {
    let err = parse(String::from("echo = 5")).unwrap_err();
    assert!(matches!(err, CompileError::ParseError(_)));
}

#[test]
fn largest_number_literal_parses() {
    let statements = parse(String::from("echo 9223372036854775807")).unwrap();
    let program = compile(statements).unwrap();
    assert_eq!(program.constants.as_str(), "9223372036854775807 ");
}
