//! Translation of statements into a flat sequence of IR-building steps.
//!
//! The steps work on a stack of 64-bit values and on numbered storage
//! slots: `Const` and `Load` push a value, `Add`, `Sub` and `Mul` replace
//! the two topmost values by one, `Store` and `Return` consume one, and
//! `Alloca` opens the next slot.

use vstd::prelude::*;

use crate::ast::{Expression, Statement};
use crate::lexer::{copy_token, token_text, Token};
use crate::text::{push_str, string_of};

verus! {

#[derive(Debug, PartialEq)]
pub enum Instr {
    Const { value: u64 },
    Load { slot: usize, name: String },
    Add,
    Sub,
    Mul,
    Alloca { slot: usize, name: String },
    Store { slot: usize },
    Return,
}

/// Why a program cannot be translated.
#[derive(Debug, PartialEq)]
pub enum GenError {
    /// A variable is read before any `var` declares it.
    UndefinedVariable(String),
    /// A binary node whose operator is not `+`, `-` or `*`.
    InvalidOperator(Token),
}

pub open spec fn gen_error_text(e: GenError) -> Seq<char> {
    match e {
        GenError::UndefinedVariable(name) => "Undefined variable: "@ + name@,
        GenError::InvalidOperator(op) => "Invalid operator: "@ + token_text(op@),
    }
}

impl GenError {
    /// The message for this error.
    pub fn render(&self) -> (r: String)
        ensures
            r@ == gen_error_text(*self),
    {
        let mut out: Vec<char> = Vec::new();
        match self {
            GenError::UndefinedVariable(name) => {
                push_str(&mut out, "Undefined variable: ");
                push_str(&mut out, name.as_str());
            },
            GenError::InvalidOperator(op) => {
                push_str(&mut out, "Invalid operator: ");
                push_str(&mut out, op.text().as_str());
            },
        }
        string_of(out.as_slice())
    }
}

/// The slot that `name` refers to: the one of its latest declaration.
pub open spec fn lookup(names: Seq<String>, name: Seq<char>) -> Option<nat>
    decreases names.len(),
{
    if names.len() == 0 {
        None
    } else if names.last()@ == name {
        Some((names.len() - 1) as nat)
    } else {
        lookup(names.drop_last(), name)
    }
}

pub open spec fn operator(op: Token) -> Option<Instr> {
    match op {
        Token::Plus { .. } => Some(Instr::Add),
        Token::Minus { .. } => Some(Instr::Sub),
        Token::Star { .. } => Some(Instr::Mul),
        _ => None,
    }
}

/// Steps that push the value of `e`, with `names[i]` declared in slot `i`.
pub open spec fn expr_code(e: Expression, names: Seq<String>) -> Result<Seq<Instr>, GenError>
    decreases e,
{
    match e {
        Expression::Number { value, .. } => Ok(seq![Instr::Const { value }]),
        Expression::Variable { name, .. } => match lookup(names, name@) {
            Some(slot) => Ok(seq![Instr::Load { slot: slot as usize, name }]),
            None => Err(GenError::UndefinedVariable(name)),
        },
        Expression::Binary { left, op, right } => match expr_code(*left, names) {
            Err(err) => Err(err),
            Ok(a) => match expr_code(*right, names) {
                Err(err) => Err(err),
                Ok(b) => match operator(op) {
                    Some(i) => Ok(a + b + seq![i]),
                    None => Err(GenError::InvalidOperator(op)),
                },
            },
        },
    }
}

/// Steps for the statements `sts`, in order, with `names` declared so far.
pub open spec fn statements_code(sts: Seq<Statement>, names: Seq<String>) -> Result<
    Seq<Instr>,
    GenError,
>
    decreases sts.len(),
{
    if sts.len() == 0 {
        Ok(Seq::empty())
    } else {
        match sts[0] {
            Statement::Return(e) => match expr_code(e, names) {
                Err(err) => Err(err),
                Ok(c) => match statements_code(sts.drop_first(), names) {
                    Err(err) => Err(err),
                    Ok(rest) => Ok(c + seq![Instr::Return] + rest),
                },
            },
            Statement::DefineVar { name, value } => match expr_code(value, names) {
                Err(err) => Err(err),
                Ok(c) => match statements_code(sts.drop_first(), names.push(name)) {
                    Err(err) => Err(err),
                    Ok(rest) => Ok(
                        c + seq![
                            Instr::Alloca { slot: names.len() as usize, name },
                            Instr::Store { slot: names.len() as usize },
                        ] + rest,
                    ),
                },
            },
        }
    }
}

/// Steps for a whole program.
pub open spec fn program_code(sts: Seq<Statement>) -> Result<Seq<Instr>, GenError> {
    statements_code(sts, Seq::empty())
}

/// The steps can run from `depth` values on the stack and `slots` open
/// slots: nothing pops an empty stack, and every slot used is open.
pub open spec fn runs(code: Seq<Instr>, depth: nat, slots: nat) -> bool
    decreases code.len(),
{
    if code.len() == 0 {
        true
    } else {
        let rest = code.drop_first();
        match code[0] {
            Instr::Const { .. } => runs(rest, depth + 1, slots),
            Instr::Load { slot, .. } => slot < slots && runs(rest, depth + 1, slots),
            Instr::Add | Instr::Sub | Instr::Mul => depth >= 2 && runs(rest, (depth - 1) as nat, slots),
            Instr::Alloca { slot, .. } => slot == slots && runs(rest, depth, slots + 1),
            Instr::Store { slot } => depth >= 1 && slot < slots && runs(rest, (depth - 1) as nat, slots),
            Instr::Return => depth >= 1 && runs(rest, (depth - 1) as nat, slots),
        }
    }
}

proof fn lemma_lookup_bound(names: Seq<String>, name: Seq<char>)
    ensures
        lookup(names, name) matches Some(i) ==> i < names.len(),
    decreases names.len(),
{
    if names.len() > 0 {
        lemma_lookup_bound(names.drop_last(), name);
    }
}

/// An expression's steps leave exactly one more value on the stack.
proof fn lemma_expr_runs(e: Expression, names: Seq<String>, rest: Seq<Instr>, depth: nat, slots: nat)
    requires
        expr_code(e, names) is Ok,
        names.len() <= slots,
        names.len() <= usize::MAX,
    ensures
        runs(expr_code(e, names)->Ok_0 + rest, depth, slots) == runs(rest, depth + 1, slots),
    decreases e,
{
    let c = expr_code(e, names)->Ok_0;
    match e {
        Expression::Number { .. } => {
            assert((c + rest).drop_first() == rest);
        },
        Expression::Variable { name, .. } => {
            lemma_lookup_bound(names, name@);
            assert((c + rest).drop_first() == rest);
        },
        Expression::Binary { left, op, right } => {
            let a = expr_code(*left, names)->Ok_0;
            let b = expr_code(*right, names)->Ok_0;
            let i = operator(op)->Some_0;
            let tail = seq![i] + rest;
            assert(c + rest == a + (b + tail));
            lemma_expr_runs(*left, names, b + tail, depth, slots);
            lemma_expr_runs(*right, names, tail, depth + 1, slots);
            assert(tail.drop_first() == rest);
        },
    }
}

/// A program that returns a variable no statement declared is rejected
/// with an error that names the variable.
pub proof fn lemma_undefined_variable(name: String, here: usize)
    ensures
        program_code(seq![Statement::Return(Expression::Variable { name, here })])
            == Err::<Seq<Instr>, GenError>(GenError::UndefinedVariable(name)),
{
    let sts = seq![Statement::Return(Expression::Variable { name, here })];
    assert(lookup(Seq::<String>::empty(), name@) is None);
    assert(expr_code(Expression::Variable { name, here }, Seq::empty()) == Err::<Seq<Instr>, GenError>(
        GenError::UndefinedVariable(name),
    ));
    assert(sts[0] == Statement::Return(Expression::Variable { name, here }));
}

/// Translated statements run from an empty stack with their names' slots open.
proof fn lemma_statements_run(sts: Seq<Statement>, names: Seq<String>)
    requires
        statements_code(sts, names) is Ok,
        names.len() + sts.len() <= usize::MAX,
    ensures
        runs(statements_code(sts, names)->Ok_0, 0, names.len()),
    decreases sts.len(),
{
    if sts.len() > 0 {
        let c = statements_code(sts, names)->Ok_0;
        match sts[0] {
            Statement::Return(e) => {
                let ce = expr_code(e, names)->Ok_0;
                let rest = statements_code(sts.drop_first(), names)->Ok_0;
                lemma_statements_run(sts.drop_first(), names);
                assert(c == ce + (seq![Instr::Return] + rest));
                lemma_expr_runs(e, names, seq![Instr::Return] + rest, 0, names.len());
                assert((seq![Instr::Return] + rest).drop_first() == rest);
                assert(runs(seq![Instr::Return] + rest, 1, names.len()));
            },
            Statement::DefineVar { name, value } => {
                let ce = expr_code(value, names)->Ok_0;
                let rest = statements_code(sts.drop_first(), names.push(name))->Ok_0;
                let slot = names.len() as usize;
                let tail = seq![Instr::Alloca { slot, name }, Instr::Store { slot }] + rest;
                lemma_statements_run(sts.drop_first(), names.push(name));
                assert(c == ce + tail);
                lemma_expr_runs(value, names, tail, 0, names.len());
                let tail1 = seq![Instr::Store { slot }] + rest;
                assert(tail.drop_first() == tail1);
                assert(tail1.drop_first() == rest);
                assert(runs(tail1, 1, names.len() + 1));
                assert(runs(tail, 1, names.len()));
            },
        }
    }
}

pub proof fn lemma_program_runs(sts: Seq<Statement>)
    requires
        program_code(sts) is Ok,
        sts.len() <= usize::MAX,
    ensures
        runs(program_code(sts)->Ok_0, 0, 0),
{
    lemma_statements_run(sts, Seq::empty());
}

/// The slot of the latest declaration of `name`.
fn find_slot(names: &Vec<String>, name: &String) -> (r: Option<usize>)
    ensures
        r matches Some(i) ==> lookup(names@, name@) == Some(i as nat),
        r is None ==> lookup(names@, name@) is None,
{
    let mut i = names.len();
    assert(names@.take(i as int) == names@);
    while i > 0
        invariant
            i <= names@.len(),
            lookup(names@, name@) == lookup(names@.take(i as int), name@),
        decreases i,
    {
        assert(names@.take(i as int).drop_last() == names@.take(i - 1));
        if names[i - 1] == *name {
            return Some(i - 1);
        }
        i = i - 1;
    }
    None
}

/// Appends the steps that push the value of `e`.
fn eval_expression(e: &Expression, names: &Vec<String>, out: &mut Vec<Instr>) -> (r: Result<
    (),
    GenError,
>)
    ensures
        match expr_code(*e, names@) {
            Ok(c) => r is Ok && final(out)@ == old(out)@ + c,
            Err(err) => r == Err::<(), GenError>(err),
        },
    decreases e,
{
    match e {
        Expression::Number { value, .. } => {
            out.push(Instr::Const { value: *value });
            Ok(())
        },
        Expression::Variable { name, .. } => match find_slot(names, name) {
            Some(slot) => {
                out.push(Instr::Load { slot, name: name.clone() });
                Ok(())
            },
            None => Err(GenError::UndefinedVariable(name.clone())),
        },
        Expression::Binary { left, op, right } => {
            let ghost before = out@;
            eval_expression(left, names, out)?;
            let ghost mid = out@;
            eval_expression(right, names, out)?;
            let i = match op {
                Token::Plus { .. } => Instr::Add,
                Token::Minus { .. } => Instr::Sub,
                Token::Star { .. } => Instr::Mul,
                _ => {
                    return Err(GenError::InvalidOperator(copy_token(op)));
                },
            };
            out.push(i);
            proof {
                let a = expr_code(**left, names@)->Ok_0;
                let b = expr_code(**right, names@)->Ok_0;
                assert(out@ == before + (a + b + seq![i]));
            }
            Ok(())
        },
    }
}

/// Appends the steps of `var name = value;` and declares `name` in the next slot.
fn define_variable(
    names: &mut Vec<String>,
    out: &mut Vec<Instr>,
    name: &String,
    value: &Expression,
) -> (r: Result<(), GenError>)
    requires
        old(names)@.len() < usize::MAX,
    ensures
        match expr_code(*value, old(names)@) {
            Ok(c) => {
                &&& r is Ok
                &&& final(out)@ == old(out)@ + c + seq![
                    Instr::Alloca { slot: old(names)@.len() as usize, name: *name },
                    Instr::Store { slot: old(names)@.len() as usize },
                ]
                &&& final(names)@ == old(names)@.push(*name)
            },
            Err(err) => r == Err::<(), GenError>(err),
        },
{
    eval_expression(value, names, out)?;
    let slot = names.len();
    out.push(Instr::Alloca { slot, name: name.clone() });
    out.push(Instr::Store { slot });
    names.push(name.clone());
    Ok(())
}

/// Translates a program into IR-building steps, statement by statement.
pub fn generate(program: &[Statement]) -> (r: Result<Vec<Instr>, GenError>)
    ensures
        match program_code(program@) {
            Ok(c) => r matches Ok(v) && v@ == c,
            Err(err) => r == Err::<Vec<Instr>, GenError>(err),
        },
{
    let mut names: Vec<String> = Vec::new();
    let mut out: Vec<Instr> = Vec::new();
    let mut i: usize = 0;
    assert(program@.skip(0) == program@);
    while i < program.len()
        invariant
            i <= program@.len(),
            names@.len() <= i,
            program_code(program@) == match statements_code(program@.skip(i as int), names@) {
                Ok(rest) => Ok(out@ + rest),
                Err(err) => Err(err),
            },
        decreases program@.len() - i,
    {
        let ghost before = out@;
        assert(program@.skip(i as int).drop_first() == program@.skip(i + 1));
        assert(program@.skip(i as int)[0] == program@[i as int]);
        match &program[i] {
            Statement::Return(e) => {
                eval_expression(e, &names, &mut out)?;
                out.push(Instr::Return);
                proof {
                    let c = expr_code(*e, names@)->Ok_0;
                    if let Ok(rest) = statements_code(program@.skip(i + 1), names@) {
                        assert(before + (c + seq![Instr::Return] + rest) == out@ + rest);
                    }
                }
            },
            Statement::DefineVar { name, value } => {
                let ghost old_names = names@;
                define_variable(&mut names, &mut out, name, value)?;
                proof {
                    let c = expr_code(*value, old_names)->Ok_0;
                    let s = seq![
                        Instr::Alloca { slot: old_names.len() as usize, name: *name },
                        Instr::Store { slot: old_names.len() as usize },
                    ];
                    if let Ok(rest) = statements_code(program@.skip(i + 1), names@) {
                        assert(before + (c + s + rest) == out@ + rest);
                    }
                }
            },
        }
        i = i + 1;
    }
    assert(out@ + Seq::<Instr>::empty() == out@);
    Ok(out)
}

} // verus!
