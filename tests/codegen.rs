use minicomp::ast::{parse, Expression, Statement};
use minicomp::backend::{compile, BackendError};
use minicomp::codegen::{generate, GenError, Instr};
use minicomp::compiler::CompilerError;
use minicomp::lexer::{lex_file, Token};
use minicomp::source::Source;

fn program(text: &str) -> Vec<Statement> {
    parse(&lex_file(Source::new(text)).unwrap()).unwrap()
}

#[test]
fn undefined_variable_is_an_error() {
    let prog = vec![Statement::Return(Expression::Variable { name: String::from("x"), here: 0 })];
    assert_eq!(generate(&prog), Err(GenError::UndefinedVariable(String::from("x"))));
    match compile(&prog) {
        Err(BackendError::Generation(GenError::UndefinedVariable(name))) => assert_eq!(name, "x"),
        other => panic!("unexpected result: {:?}", other),
    }
}

#[test]
fn steps_for_a_program() {
    let prog = program("var a = 2; return a * 3 - 1;");
    assert_eq!(
        generate(&prog),
        Ok(vec![
            Instr::Const { value: 2 },
            Instr::Alloca { slot: 0, name: String::from("a") },
            Instr::Store { slot: 0 },
            Instr::Load { slot: 0, name: String::from("a") },
            Instr::Const { value: 3 },
            Instr::Mul,
            Instr::Const { value: 1 },
            Instr::Sub,
            Instr::Return,
        ])
    );
}

#[test]
fn latest_declaration_wins() {
    let prog = program("var a = 1; var b = a; var a = b + 1; return a;");
    let steps = generate(&prog).unwrap();
    assert_eq!(steps.last(), Some(&Instr::Return));
    assert_eq!(steps[steps.len() - 2], Instr::Load { slot: 2, name: String::from("a") });
    assert_eq!(steps[3], Instr::Load { slot: 0, name: String::from("a") });
}

#[test]
fn variable_read_in_its_own_declaration() {
    let prog = program("var a = a;");
    assert_eq!(generate(&prog), Err(GenError::UndefinedVariable(String::from("a"))));
}

#[test]
fn invalid_operator_is_an_error() {
    let prog = vec![Statement::Return(Expression::Binary {
        left: Box::new(Expression::Number { value: 1, here: 0, len: 1 }),
        op: Token::Equal { here: 1 },
        right: Box::new(Expression::Number { value: 2, here: 2, len: 1 }),
    })];
    assert_eq!(generate(&prog), Err(GenError::InvalidOperator(Token::Equal { here: 1 })));
    assert_eq!(GenError::InvalidOperator(Token::Equal { here: 1 }).render(), "Invalid operator: =");
}

#[test]
fn compiles_to_an_object() {
    let prog = program("var a = 6; return a * 7;");
    let bytes = compile(&prog).unwrap();
    assert!(bytes.len() > 4);
}

#[test]
fn missing_return_fails_verification() {
    let prog = program("var a = 6;");
    match compile(&prog) {
        Err(BackendError::IRVerification(msg)) => assert!(!msg.is_empty()),
        other => panic!("unexpected result: {:?}", other),
    }
}

#[test]
fn compiler_error_reports() {
    let e = CompilerError::Backend(BackendError::Generation(GenError::UndefinedVariable(String::from("x"))));
    assert_eq!(e.render(), "Codegen failure\nCode generation failed: Undefined variable: x\n");
    let io = CompilerError::IO(String::from("no such file"));
    assert_eq!(io.render(), "IO error\nno such file\n");
    let ast = CompilerError::Ast(minicomp::ast::ASTError::UnexpectedEOF);
    assert_eq!(ast.render(), "Ast parsing failed\nUnexpected EOF found\n");
}
