use minicomp::lexer::{lex_file, LexerError, NumberLexError, Token};
use minicomp::source::Source;

#[test]
fn lexer_empty() {
    let src = Source::new("");
    assert_eq!(lex_file(src), Ok(vec![]));
}

#[test]
fn numbers() {
    let src = Source::new("69 123 0");
    assert_eq!(
        lex_file(src),
        Ok(vec![
            Token::Number { value: 69, here: 0, len: 2 },
            Token::Number { value: 123, here: 3, len: 3 },
            Token::Number { value: 0, here: 7, len: 1 },
        ])
    );
}

#[test]
fn keywords() {
    let src = Source::new("return var");
    assert_eq!(lex_file(src), Ok(vec![Token::Return { here: 0 }, Token::Var { here: 7 }]));
}

#[test]
fn punctuation_and_identifiers() {
    let src = Source::new("var _a1 = (x+y)*{z};-");
    assert_eq!(
        lex_file(src),
        Ok(vec![
            Token::Var { here: 0 },
            Token::Ident { value: String::from("_a1"), here: 4 },
            Token::Equal { here: 8 },
            Token::OpenParen { here: 10 },
            Token::Ident { value: String::from("x"), here: 11 },
            Token::Plus { here: 12 },
            Token::Ident { value: String::from("y"), here: 13 },
            Token::CloseParen { here: 14 },
            Token::Star { here: 15 },
            Token::OpenCurly { here: 16 },
            Token::Ident { value: String::from("z"), here: 17 },
            Token::CloseCurly { here: 18 },
            Token::Semicolon { here: 19 },
            Token::Minus { here: 20 },
        ])
    );
}

#[test]
fn keyword_prefix_is_identifier() {
    let src = Source::new("returns variable");
    assert_eq!(
        lex_file(src),
        Ok(vec![
            Token::Ident { value: String::from("returns"), here: 0 },
            Token::Ident { value: String::from("variable"), here: 8 },
        ])
    );
}

#[test]
fn number_touching_letters() {
    let src = Source::new("123abc");
    assert_eq!(
        lex_file(src),
        Err(LexerError::Number(NumberLexError::Letter { file: None, line_number: 1, column_number: 1 }))
    );
}

#[test]
fn number_error_names_its_file() {
    let src = Source::named("var a =\n  7x;", "prog.txt");
    assert_eq!(
        lex_file(src),
        Err(LexerError::Number(NumberLexError::Letter {
            file: Some(String::from("prog.txt")),
            line_number: 2,
            column_number: 3,
        }))
    );
}

#[test]
fn largest_number() {
    let src = Source::new("18446744073709551615");
    assert_eq!(
        lex_file(src),
        Ok(vec![Token::Number { value: u64::MAX, here: 0, len: 20 }])
    );
}

#[test]
fn number_too_large() {
    let src = Source::new("18446744073709551616");
    assert_eq!(
        lex_file(src),
        Err(LexerError::Number(NumberLexError::Overflow { file: None, line_number: 1, column_number: 1 }))
    );
}

#[test]
fn unexpected_character() {
    let src = Source::new("return 1 #");
    assert_eq!(
        lex_file(src),
        Err(LexerError::UnexpectedChar { file: None, line_number: 1, column_number: 10, c: '#' })
    );
}

#[test]
fn trailing_whitespace_is_eof() {
    let src = Source::new("return 1;\n");
    assert_eq!(
        lex_file(src),
        Err(LexerError::UnexpectedEOF { file: None, line_number: 2, column_number: 1 })
    );
}

#[test]
fn unicode_identifier() {
    let src = Source::new("héllo");
    assert_eq!(lex_file(src), Ok(vec![Token::Ident { value: String::from("héllo"), here: 0 }]));
}

#[test]
fn rendered_tokens_lex_to_the_same_kinds() {
    let tokens = vec![
        Token::Var { here: 3 },
        Token::Ident { value: String::from("total"), here: 9 },
        Token::Equal { here: 20 },
        Token::Number { value: 1234, here: 22, len: 6 },
        Token::Star { here: 30 },
        Token::OpenParen { here: 31 },
        Token::Number { value: 0, here: 32, len: 1 },
        Token::Minus { here: 33 },
        Token::CloseParen { here: 34 },
        Token::Return { here: 40 },
        Token::OpenCurly { here: 50 },
        Token::CloseCurly { here: 51 },
        Token::Plus { here: 52 },
        Token::Semicolon { here: 60 },
    ];
    let text: Vec<String> = tokens.iter().map(|t| t.text()).collect();
    let relexed = lex_file(Source::new(&text.join(" "))).unwrap();
    assert_eq!(relexed.len(), tokens.len());
    for (a, b) in tokens.iter().zip(relexed.iter()) {
        assert_eq!(std::mem::discriminant(a), std::mem::discriminant(b));
        assert_eq!(a.text(), b.text());
    }
}

#[test]
fn token_texts() {
    assert_eq!(Token::Number { value: 9087, here: 0, len: 4 }.text(), "9087");
    assert_eq!(Token::Number { value: 0, here: 0, len: 1 }.text(), "0");
    assert_eq!(Token::Return { here: 0 }.text(), "return");
    assert_eq!(Token::OpenCurly { here: 0 }.text(), "{");
    assert_eq!(Token::Ident { value: String::from("abc"), here: 0 }.text(), "abc");
}

#[test]
fn lexer_error_messages() {
    let eof = LexerError::UnexpectedEOF { file: None, line_number: 2, column_number: 1 };
    assert_eq!(eof.render(), "./<input>:2:1 \nUnexpected EOF\n");
    let c = LexerError::UnexpectedChar { file: Some(String::from("a.src")), line_number: 1, column_number: 10, c: '#' };
    assert_eq!(c.render(), "./a.src:1:10 \nUnexpected char: #\n");
    let n = LexerError::Number(NumberLexError::Letter { file: None, line_number: 3, column_number: 4 });
    assert_eq!(n.render(), "./<input>:3:4 \nNumbers MUST be separated from letters\n\n");
}
