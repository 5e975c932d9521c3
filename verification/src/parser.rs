//! A recursive-descent parser from source text to the AST.
//!
//! The concrete syntax, on ASCII source text:
//!
//! ```text
//! program    :=  statement*
//! statement  :=  "if" expression block
//!             |  "while" expression block
//!             |  "echo" expression
//!             |  "def" ident block
//!             |  ident "=" expression
//!             |  expression
//! block      :=  "{" statement* "}"
//! expression :=  term (infix_op term)?
//! term       :=  number  |  ident "(" ")"  |  ident
//!             |  "!" expression  |  "(" expression ")"
//! infix_op   :=  "+" | "-" | "*" | "/" | "%" | ">" | "<" | "==" | "|" | "&"
//! number     :=  digit+
//! ident      :=  (letter | "_") (letter | digit | "_")*
//! ```
//!
//! Binary operators take exactly two terms; parentheses nest further
//! expressions. Any malformed text is refused with a `ParseError` carrying
//! the position where reading gave up.

use vstd::prelude::*;
use vstd::string::StrSliceExecFns;
use vstd::string::StringExecFns;
use vstd::string::StringSliceAdditionalSpecFns;

use crate::ast::Expression;
use crate::ast::Statement;
use crate::compiler::CompileError;

verus! {

/// One lexical token of the source text.
enum Token {
    Number(i64),
    Ident(String),
    KeywordIf,
    KeywordWhile,
    KeywordEcho,
    KeywordDef,
    Assign,
    LBrace,
    RBrace,
    LParen,
    RParen,
    Bang,
    Plus,
    Minus,
    Star,
    Slash,
    Percent,
    Greater,
    Less,
    EqEq,
    Pipe,
    Amp,
}

/// Is this byte a space, tab, carriage return or newline?
fn is_space_byte(b: u8) -> (r: bool)
    ensures
        r == (b == 32 || b == 9 || b == 10 || b == 13),
{
    b == 32 || b == 9 || b == 10 || b == 13
}

/// Is this byte an ASCII decimal digit?
fn is_digit_byte(b: u8) -> (r: bool)
    ensures
        r == (48 <= b && b <= 57),
{
    48 <= b && b <= 57
}

/// Is this byte an ASCII letter or underscore?
fn is_ident_start_byte(b: u8) -> (r: bool)
    ensures
        r == ((97 <= b && b <= 122) || (65 <= b && b <= 90) || b == 95),
{
    (97 <= b && b <= 122) || (65 <= b && b <= 90) || b == 95
}

/// Is this byte an ASCII letter, digit or underscore?
fn is_ident_byte(b: u8) -> (r: bool)
    ensures
        r == ((97 <= b && b <= 122) || (65 <= b && b <= 90) || b == 95 || (48 <= b && b <= 57)),
{
    is_ident_start_byte(b) || is_digit_byte(b)
}

/// Cuts the source text into tokens. Only ASCII text is accepted; an
/// unexpected byte, or a number literal beyond `i64`, is refused with the
/// byte position.
fn tokenize(code: &String) -> (r: Result<Vec<Token>, CompileError>) {
    let text = code.as_str();
    if !text.is_ascii() {
        return Err(CompileError::ParseError(0));
    }
    let bytes = text.as_bytes_vec();
    let n = bytes.len();
    proof {
        broadcast use vstd::string::is_ascii_spec_bytes;

        assert(text.spec_bytes().len() == text@.len());
    }
    let mut tokens: Vec<Token> = Vec::new();
    let mut i: usize = 0;
    while i < n
        invariant
            i <= n,
            n == bytes@.len(),
            n == text@.len(),
            vstd::string::is_ascii(text),
        decreases n - i,
    {
        let b: u8 = bytes[i];
        if is_space_byte(b) {
            i = i + 1;
        } else if is_digit_byte(b) {
            let mut value: u64 = (b - 48) as u64;
            let mut overflow = false;
            let ghost i_entry = i as int;
            i = i + 1;
            while i < n && is_digit_byte(bytes[i])
                invariant
                    i_entry < i <= n,
                    n == bytes@.len(),
                decreases n - i,
            {
                let digit: u64 = (bytes[i] - 48) as u64;
                match value.checked_mul(10) {
                    None => {
                        overflow = true;
                    },
                    Some(v10) => {
                        match v10.checked_add(digit) {
                            None => {
                                overflow = true;
                            },
                            Some(v) => {
                                value = v;
                            },
                        }
                    },
                }
                i = i + 1;
            }
            if overflow || value > 9223372036854775807u64 {
                return Err(CompileError::ParseError(i));
            }
            tokens.push(Token::Number(value as i64));
        } else if is_ident_start_byte(b) {
            let start: usize = i;
            i = i + 1;
            while i < n && is_ident_byte(bytes[i])
                invariant
                    start < i <= n,
                    n == bytes@.len(),
                decreases n - i,
            {
                i = i + 1;
            }
            let length: usize = i - start;
            if length == 2 && bytes[start] == 105 && bytes[start + 1] == 102 {
                tokens.push(Token::KeywordIf);
            } else if length == 5 && bytes[start] == 119 && bytes[start + 1] == 104
                && bytes[start + 2] == 105 && bytes[start + 3] == 108 && bytes[start + 4] == 101 {
                tokens.push(Token::KeywordWhile);
            } else if length == 4 && bytes[start] == 101 && bytes[start + 1] == 99
                && bytes[start + 2] == 104 && bytes[start + 3] == 111 {
                tokens.push(Token::KeywordEcho);
            } else if length == 3 && bytes[start] == 100 && bytes[start + 1] == 101
                && bytes[start + 2] == 102 {
                tokens.push(Token::KeywordDef);
            } else {
                let word = text.substring_ascii(start, i);
                tokens.push(Token::Ident(String::from_str(word)));
            }
        } else if b == 61 {
            if i + 1 < n && bytes[i + 1] == 61 {
                tokens.push(Token::EqEq);
                i = i + 2;
            } else {
                tokens.push(Token::Assign);
                i = i + 1;
            }
        } else {
            let token = if b == 123 {
                Token::LBrace
            } else if b == 125 {
                Token::RBrace
            } else if b == 40 {
                Token::LParen
            } else if b == 41 {
                Token::RParen
            } else if b == 33 {
                Token::Bang
            } else if b == 43 {
                Token::Plus
            } else if b == 45 {
                Token::Minus
            } else if b == 42 {
                Token::Star
            } else if b == 47 {
                Token::Slash
            } else if b == 37 {
                Token::Percent
            } else if b == 62 {
                Token::Greater
            } else if b == 60 {
                Token::Less
            } else if b == 124 {
                Token::Pipe
            } else if b == 38 {
                Token::Amp
            } else {
                return Err(CompileError::ParseError(i));
            };
            tokens.push(token);
            i = i + 1;
        }
    }
    Ok(tokens)
}

/// Parses statements until the end of the tokens or a closing brace.
fn parse_statements(tokens: &Vec<Token>, pos: usize) -> (r: Result<
    (Vec<Statement>, usize),
    CompileError,
>)
    requires
        pos <= tokens@.len(),
    ensures
        r matches Ok(p) ==> pos <= p.1 <= tokens@.len(),
    decreases tokens@.len() - pos, 9int,
{
    if pos >= tokens.len() {
        return Ok((Vec::new(), pos));
    }
    let stop = match &tokens[pos] {
        Token::RBrace => true,
        _ => false,
    };
    if stop {
        return Ok((Vec::new(), pos));
    }
    let (statement, next) = parse_statement(tokens, pos)?;
    let (mut rest, end) = parse_statements(tokens, next)?;
    rest.insert(0, statement);
    Ok((rest, end))
}

/// Parses one statement, dispatching on its first token.
fn parse_statement(tokens: &Vec<Token>, pos: usize) -> (r: Result<
    (Statement, usize),
    CompileError,
>)
    requires
        pos < tokens@.len(),
    ensures
        r matches Ok(p) ==> pos < p.1 <= tokens@.len(),
    decreases tokens@.len() - pos, 8int,
{
    let n: usize = tokens.len();
    let is_assignment = match &tokens[pos] {
        Token::Ident(_) => pos + 1 < n && (match &tokens[pos + 1] {
            Token::Assign => true,
            _ => false,
        }),
        _ => false,
    };
    if is_assignment {
        return parse_assignment(tokens, pos);
    }
    match &tokens[pos] {
        Token::KeywordIf => parse_if(tokens, pos),
        Token::KeywordWhile => parse_while(tokens, pos),
        Token::KeywordEcho => parse_echo(tokens, pos),
        Token::KeywordDef => parse_function_definition(tokens, pos),
        _ => {
            let (expression, next) = parse_expression(tokens, pos)?;
            Ok((Statement::Expression(expression), next))
        },
    }
}

/// Parses `ident "=" expression`.
fn parse_assignment(tokens: &Vec<Token>, pos: usize) -> (r: Result<
    (Statement, usize),
    CompileError,
>)
    requires
        pos < tokens@.len(),
    ensures
        r matches Ok(p) ==> pos < p.1 <= tokens@.len(),
    decreases tokens@.len() - pos, 7int,
{
    let n: usize = tokens.len();
    let name = match &tokens[pos] {
        Token::Ident(s) => s.clone(),
        _ => {
            return Err(CompileError::ParseError(pos));
        },
    };
    if pos + 1 >= n {
        return Err(CompileError::ParseError(pos + 1));
    }
    match &tokens[pos + 1] {
        Token::Assign => {},
        _ => {
            return Err(CompileError::ParseError(pos + 1));
        },
    }
    let (value, next) = parse_expression(tokens, pos + 2)?;
    Ok((Statement::Assignment(name, value), next))
}

/// Parses `"{" statement* "}"`.
fn parse_block(tokens: &Vec<Token>, pos: usize) -> (r: Result<
    (Vec<Statement>, usize),
    CompileError,
>)
    requires
        pos <= tokens@.len(),
    ensures
        r matches Ok(p) ==> pos < p.1 <= tokens@.len(),
    decreases tokens@.len() - pos, 7int,
{
    if pos >= tokens.len() {
        return Err(CompileError::ParseError(pos));
    }
    match &tokens[pos] {
        Token::LBrace => {},
        _ => {
            return Err(CompileError::ParseError(pos));
        },
    }
    let (statements, next) = parse_statements(tokens, pos + 1)?;
    if next >= tokens.len() {
        return Err(CompileError::ParseError(next));
    }
    match &tokens[next] {
        Token::RBrace => {},
        _ => {
            return Err(CompileError::ParseError(next));
        },
    }
    Ok((statements, next + 1))
}

/// Parses `"if" expression block`.
fn parse_if(tokens: &Vec<Token>, pos: usize) -> (r: Result<(Statement, usize), CompileError>)
    requires
        pos < tokens@.len(),
    ensures
        r matches Ok(p) ==> pos < p.1 <= tokens@.len(),
    decreases tokens@.len() - pos, 7int,
{
    let n: usize = tokens.len();
    let (condition, after_condition) = parse_expression(tokens, pos + 1)?;
    let (body, next) = parse_block(tokens, after_condition)?;
    Ok((Statement::If(condition, body), next))
}

/// Parses `"while" expression block`.
fn parse_while(tokens: &Vec<Token>, pos: usize) -> (r: Result<(Statement, usize), CompileError>)
    requires
        pos < tokens@.len(),
    ensures
        r matches Ok(p) ==> pos < p.1 <= tokens@.len(),
    decreases tokens@.len() - pos, 7int,
{
    let n: usize = tokens.len();
    let (condition, after_condition) = parse_expression(tokens, pos + 1)?;
    let (body, next) = parse_block(tokens, after_condition)?;
    Ok((Statement::While(condition, body), next))
}

/// Parses `"echo" expression`.
fn parse_echo(tokens: &Vec<Token>, pos: usize) -> (r: Result<(Statement, usize), CompileError>)
    requires
        pos < tokens@.len(),
    ensures
        r matches Ok(p) ==> pos < p.1 <= tokens@.len(),
    decreases tokens@.len() - pos, 7int,
{
    let n: usize = tokens.len();
    let (expression, next) = parse_expression(tokens, pos + 1)?;
    Ok((Statement::Echo(expression), next))
}

/// Parses `"def" ident block`.
fn parse_function_definition(tokens: &Vec<Token>, pos: usize) -> (r: Result<
    (Statement, usize),
    CompileError,
>)
    requires
        pos < tokens@.len(),
    ensures
        r matches Ok(p) ==> pos < p.1 <= tokens@.len(),
    decreases tokens@.len() - pos, 7int,
{
    let n: usize = tokens.len();
    if pos + 1 >= n {
        return Err(CompileError::ParseError(pos + 1));
    }
    let name = match &tokens[pos + 1] {
        Token::Ident(s) => s.clone(),
        _ => {
            return Err(CompileError::ParseError(pos + 1));
        },
    };
    let (body, next) = parse_block(tokens, pos + 2)?;
    Ok((Statement::FunctionDefinition(name, body), next))
}

/// Parses one expression: a term, optionally followed by one infix
/// operator and a second term.
fn parse_expression(tokens: &Vec<Token>, pos: usize) -> (r: Result<
    (Expression, usize),
    CompileError,
>)
    requires
        pos <= tokens@.len(),
    ensures
        r matches Ok(p) ==> pos < p.1 <= tokens@.len(),
    decreases tokens@.len() - pos, 3int,
{
    let n: usize = tokens.len();
    let (left, after_left) = parse_non_infix_expression(tokens, pos)?;
    if after_left < n {
        let is_operator = match &tokens[after_left] {
            Token::Plus => true,
            Token::Minus => true,
            Token::Star => true,
            Token::Slash => true,
            Token::Percent => true,
            Token::Greater => true,
            Token::Less => true,
            Token::EqEq => true,
            Token::Pipe => true,
            Token::Amp => true,
            _ => false,
        };
        if is_operator {
            return parse_infix_expression(tokens, after_left, left);
        }
    }
    Ok((left, after_left))
}

/// Parses the operator and right term of an infix expression, `left`
/// already parsed.
fn parse_infix_expression(tokens: &Vec<Token>, pos: usize, left: Expression) -> (r: Result<
    (Expression, usize),
    CompileError,
>)
    requires
        pos < tokens@.len(),
    ensures
        r matches Ok(p) ==> pos < p.1 <= tokens@.len(),
    decreases tokens@.len() - pos, 2int,
{
    let n: usize = tokens.len();
    let (right, next) = parse_non_infix_expression(tokens, pos + 1)?;
    let one = Box::new(left);
    let two = Box::new(right);
    let expression = match &tokens[pos] {
        Token::Plus => Expression::Add(one, two),
        Token::Minus => Expression::Subtract(one, two),
        Token::Star => Expression::Multiply(one, two),
        Token::Slash => Expression::Divide(one, two),
        Token::Percent => Expression::Modulo(one, two),
        Token::Greater => Expression::IsGreaterThan(one, two),
        Token::Less => Expression::IsLessThan(one, two),
        Token::EqEq => Expression::IsEqual(one, two),
        Token::Pipe => Expression::Or(one, two),
        Token::Amp => Expression::And(one, two),
        _ => {
            return Err(CompileError::ParseError(pos));
        },
    };
    Ok((expression, next))
}

/// Parses a term: a number, a call, an identifier, a negation, or a
/// parenthesized expression.
fn parse_non_infix_expression(tokens: &Vec<Token>, pos: usize) -> (r: Result<
    (Expression, usize),
    CompileError,
>)
    requires
        pos <= tokens@.len(),
    ensures
        r matches Ok(p) ==> pos < p.1 <= tokens@.len(),
    decreases tokens@.len() - pos, 2int,
{
    if pos >= tokens.len() {
        return Err(CompileError::ParseError(pos));
    }
    match &tokens[pos] {
        Token::Number(_) => parse_num_literal(tokens, pos),
        Token::Bang => parse_not(tokens, pos),
        Token::LParen => {
            let (inner, next) = parse_expression(tokens, pos + 1)?;
            if next >= tokens.len() {
                return Err(CompileError::ParseError(next));
            }
            match &tokens[next] {
                Token::RParen => Ok((inner, next + 1)),
                _ => Err(CompileError::ParseError(next)),
            }
        },
        Token::Ident(name) => {
            let is_call = pos + 1 < tokens.len() && (match &tokens[pos + 1] {
                Token::LParen => true,
                _ => false,
            });
            if is_call {
                parse_func_call(tokens, pos)
            } else {
                Ok((Expression::Ident(name.clone()), pos + 1))
            }
        },
        _ => Err(CompileError::ParseError(pos)),
    }
}

/// Parses a number literal token.
fn parse_num_literal(tokens: &Vec<Token>, pos: usize) -> (r: Result<
    (Expression, usize),
    CompileError,
>)
    requires
        pos < tokens@.len(),
    ensures
        r matches Ok(p) ==> pos < p.1 <= tokens@.len(),
{
    let n: usize = tokens.len();
    match &tokens[pos] {
        Token::Number(value) => Ok((Expression::Number(*value), pos + 1)),
        _ => Err(CompileError::ParseError(pos)),
    }
}

/// Parses `"!" expression`.
fn parse_not(tokens: &Vec<Token>, pos: usize) -> (r: Result<(Expression, usize), CompileError>)
    requires
        pos < tokens@.len(),
    ensures
        r matches Ok(p) ==> pos < p.1 <= tokens@.len(),
    decreases tokens@.len() - pos, 1int,
{
    let n: usize = tokens.len();
    let (inner, next) = parse_expression(tokens, pos + 1)?;
    Ok((Expression::Not(Box::new(inner)), next))
}

/// Parses `ident "(" ")"`: a zero-argument call by name.
fn parse_func_call(tokens: &Vec<Token>, pos: usize) -> (r: Result<
    (Expression, usize),
    CompileError,
>)
    requires
        pos < tokens@.len(),
    ensures
        r matches Ok(p) ==> pos < p.1 <= tokens@.len(),
{
    let n: usize = tokens.len();
    let name = match &tokens[pos] {
        Token::Ident(s) => s.clone(),
        _ => {
            return Err(CompileError::ParseError(pos));
        },
    };
    if n - pos < 3 {
        return Err(CompileError::ParseError(pos + 1));
    }
    match &tokens[pos + 1] {
        Token::LParen => {},
        _ => {
            return Err(CompileError::ParseError(pos + 1));
        },
    }
    match &tokens[pos + 2] {
        Token::RParen => {},
        _ => {
            return Err(CompileError::ParseError(pos + 2));
        },
    }
    Ok((Expression::FunctionCall(name), pos + 3))
}

/// Parses whole source text into the statement list of a program. Fails
/// with `ParseError` on any text the grammar above does not cover.
pub fn parse(code: String) -> (r: Result<Vec<Statement>, CompileError>) {
    let tokens = tokenize(&code)?;
    let (statements, end) = parse_statements(&tokens, 0)?;
    if end != tokens.len() {
        return Err(CompileError::ParseError(end));
    }
    Ok(statements)
}

} // verus!
