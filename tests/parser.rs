use minicomp::ast::{parse, parse_expr, ASTError, Expression, Statement};
use minicomp::lexer::{lex_file, Token};
use minicomp::source::Source;

fn tokens_of(text: &str) -> Vec<Token> {
    lex_file(Source::new(text)).unwrap()
}

fn num(value: u64, here: usize) -> Expression {
    Expression::Number { value, here, len: 1 }
}

fn bin(left: Expression, op: Token, right: Expression) -> Expression {
    Expression::Binary { left: Box::new(left), op, right: Box::new(right) }
}

#[test]
fn ast_empty() {
    let tokens = vec![];
    assert_eq!(parse(&tokens), Ok(vec![]));
}

#[test]
fn number_expr() {
    let tokens = vec![Token::Number { value: 0, here: 0, len: 1 }];
    let empty: &[Token] = &[];
    let (rest, expr) = parse_expr(&tokens).unwrap();
    assert_eq!(rest, empty);
    assert_eq!(expr, Expression::Number { value: 0, here: 0, len: 1 });
}

#[test]
fn binary_expr() {
    let tokens = vec![
        Token::Number { value: 1, here: 0, len: 1 },
        Token::Plus { here: 1 },
        Token::Number { value: 1, here: 2, len: 1 },
    ];
    let empty: &[Token] = &[];
    let (rest, expr) = parse_expr(&tokens).unwrap();
    assert_eq!(rest, empty);
    assert_eq!(
        expr,
        Expression::Binary {
            left: Box::new(Expression::Number { value: 1, here: 0, len: 1 }),
            op: Token::Plus { here: 1 },
            right: Box::new(Expression::Number { value: 1, here: 2, len: 1 }),
        }
    );
}

#[test]
fn statement_return() {
    let tokens = vec![
        Token::Return { here: 0 },
        Token::Number { value: 0, here: 7, len: 1 },
        Token::Semicolon { here: 8 },
    ];
    assert_eq!(
        parse(&tokens),
        Ok(vec![Statement::Return(Expression::Number { value: 0, here: 7, len: 1 })])
    );
}

#[test]
fn statement_var() {
    let tokens = vec![
        Token::Var { here: 0 },
        Token::Ident { value: String::from("hello"), here: 1 },
        Token::Equal { here: 2 },
        Token::Number { value: 0, len: 1, here: 3 },
        Token::Semicolon { here: 4 },
    ];
    assert_eq!(
        parse(&tokens),
        Ok(vec![Statement::DefineVar {
            name: String::from("hello"),
            value: Expression::Number { value: 0, len: 1, here: 3 }
        }])
    );
}

#[test]
fn multiplication_binds_tighter() {
    let tokens = tokens_of("2 + 3 * 4");
    let (rest, expr) = parse_expr(&tokens).unwrap();
    assert!(rest.is_empty());
    assert_eq!(
        expr,
        bin(num(2, 0), Token::Plus { here: 2 }, bin(num(3, 4), Token::Star { here: 6 }, num(4, 8)))
    );
}

#[test]
fn addition_is_left_associative() {
    let tokens = tokens_of("1 + 2 - 3");
    let (rest, expr) = parse_expr(&tokens).unwrap();
    assert!(rest.is_empty());
    assert_eq!(
        expr,
        bin(bin(num(1, 0), Token::Plus { here: 2 }, num(2, 4)), Token::Minus { here: 6 }, num(3, 8))
    );
}

#[test]
fn parentheses_reset_precedence() {
    let tokens = tokens_of("(1 + 2) * 3");
    let (rest, expr) = parse_expr(&tokens).unwrap();
    assert!(rest.is_empty());
    assert_eq!(
        expr,
        bin(bin(num(1, 1), Token::Plus { here: 3 }, num(2, 5)), Token::Star { here: 8 }, num(3, 10))
    );
}

#[test]
fn return_zero_program() {
    let tokens = tokens_of("return 0;");
    assert_eq!(parse(&tokens), Ok(vec![Statement::Return(num(0, 7))]));
}

#[test]
fn var_with_mixed_operators() {
    let tokens = tokens_of("var a = 5 * 2 + 1;");
    assert_eq!(
        parse(&tokens),
        Ok(vec![Statement::DefineVar {
            name: String::from("a"),
            value: bin(
                bin(num(5, 8), Token::Star { here: 10 }, num(2, 12)),
                Token::Plus { here: 14 },
                num(1, 16)
            ),
        }])
    );
}

#[test]
fn missing_semicolon_is_eof() {
    let tokens = tokens_of("return 1 + 2");
    assert_eq!(parse(&tokens), Err(ASTError::UnexpectedEOF));
}

#[test]
fn parsing_twice_gives_the_same_statements() {
    let tokens = tokens_of("var x = 1; return x * (2 + x);");
    let first = parse(&tokens);
    let second = parse(&tokens);
    assert!(first.is_ok());
    assert_eq!(first, second);
}

#[test]
fn variable_reference_parses() {
    let tokens = tokens_of("return x;");
    assert_eq!(
        parse(&tokens),
        Ok(vec![Statement::Return(Expression::Variable { name: String::from("x"), here: 7 })])
    );
}

#[test]
fn var_without_name() {
    let tokens = tokens_of("var 5 = 1;");
    assert_eq!(
        parse(&tokens),
        Err(ASTError::UnexpectedToken {
            got: Token::Number { value: 5, here: 4, len: 1 },
            expected: Token::Ident { value: String::from("any"), here: 0 },
        })
    );
}

#[test]
fn var_without_equal() {
    let tokens = tokens_of("var a 1;");
    assert_eq!(
        parse(&tokens),
        Err(ASTError::UnexpectedToken {
            got: Token::Number { value: 1, here: 6, len: 1 },
            expected: Token::Equal { here: 0 },
        })
    );
}

#[test]
fn statement_cannot_start_with_operator() {
    let tokens = tokens_of("+ 1;");
    assert_eq!(
        parse(&tokens),
        Err(ASTError::UnexpectedToken { got: Token::Plus { here: 0 }, expected: Token::Return { here: 0 } })
    );
}

#[test]
fn unclosed_parenthesis() {
    assert_eq!(parse(&tokens_of("return (1")), Err(ASTError::UnexpectedEOF));
    assert_eq!(
        parse(&tokens_of("return (1;")),
        Err(ASTError::UnexpectedToken {
            got: Token::Semicolon { here: 9 },
            expected: Token::CloseParen { here: 0 },
        })
    );
}

#[test]
fn missing_operand() {
    assert_eq!(
        parse(&tokens_of("return ;")),
        Err(ASTError::UnexpectedToken {
            got: Token::Semicolon { here: 7 },
            expected: Token::OpenParen { here: 0 },
        })
    );
}

#[test]
fn wrong_token_after_expression() {
    assert_eq!(
        parse(&tokens_of("return 1 2;")),
        Err(ASTError::UnexpectedToken {
            got: Token::Number { value: 2, here: 9, len: 1 },
            expected: Token::Semicolon { here: 0 },
        })
    );
}

#[test]
fn parse_error_messages() {
    assert_eq!(ASTError::UnexpectedEOF.render(), "Unexpected EOF found");
    let e = ASTError::UnexpectedToken { got: Token::Number { value: 42, here: 0, len: 2 }, expected: Token::Semicolon { here: 0 } };
    assert_eq!(e.render(), "Unexpected token. Got: 42, expected: ;");
}
