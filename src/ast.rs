//! Recursive-descent parser from tokens to statements.
//!
//! Grammar, loosest binding first:
//!
//! ```text
//! program   := statement*
//! statement := 'return' expr ';' | 'var' IDENT '=' expr ';'
//! expr      := term (('+' | '-') term)*
//! term      := primary ('*' primary)*
//! primary   := NUMBER | IDENT | '(' expr ')'
//! ```

use vstd::prelude::*;

use crate::lexer::{copy_token, token_text, Token, TokenView};
use crate::text::{push_str, string_of};
use vstd::slice::slice_subrange;

verus! {

#[allow(inconsistent_fields)]
#[derive(Debug, PartialEq)]
pub enum Expression {
    Number { value: u64, here: usize, len: usize },
    Variable { name: String, here: usize },
    Binary { left: Box<Expression>, op: Token, right: Box<Expression> },
}

#[derive(Debug, PartialEq)]
pub enum Statement {
    Return(Expression),
    DefineVar { name: String, value: Expression },
}

#[derive(Debug, PartialEq)]
pub enum ASTError {
    UnexpectedEOF,
    UnexpectedToken { got: Token, expected: Token },
}

pub open spec fn ast_error_text(e: ASTError) -> Seq<char> {
    match e {
        ASTError::UnexpectedEOF => "Unexpected EOF found"@,
        ASTError::UnexpectedToken { got, expected } => "Unexpected token. Got: "@ + token_text(got@)
            + ", expected: "@ + token_text(expected@),
    }
}

impl ASTError {
    /// The message for this error.
    pub fn render(&self) -> (r: String)
        ensures
            r@ == ast_error_text(*self),
    {
        let mut out: Vec<char> = Vec::new();
        match self {
            ASTError::UnexpectedEOF => push_str(&mut out, "Unexpected EOF found"),
            ASTError::UnexpectedToken { got, expected } => {
                push_str(&mut out, "Unexpected token. Got: ");
                push_str(&mut out, got.text().as_str());
                push_str(&mut out, ", expected: ");
                push_str(&mut out, expected.text().as_str());
            },
        }
        string_of(out.as_slice())
    }
}

/// A parse error as a mathematical value.
pub enum ParseError {
    UnexpectedEOF,
    UnexpectedToken { got: TokenView, expected: TokenView },
}

impl View for ASTError {
    type V = ParseError;

    open spec fn view(&self) -> ParseError {
        match self {
            ASTError::UnexpectedEOF => ParseError::UnexpectedEOF,
            ASTError::UnexpectedToken { got, expected } => ParseError::UnexpectedToken {
                got: got@,
                expected: expected@,
            },
        }
    }
}

/// What a parsing step gives: the tokens left over and the value read, or
/// the error that stopped it.
pub type Step<T> = Result<(Seq<Token>, T), ParseError>;

pub open spec fn unexpected(got: Token, expected: TokenView) -> ParseError {
    ParseError::UnexpectedToken { got: got@, expected }
}

pub open spec fn binary(left: Expression, op: Token, right: Expression) -> Expression {
    Expression::Binary { left: Box::new(left), op, right: Box::new(right) }
}

/// `primary := NUMBER | IDENT | '(' expr ')'`
pub open spec fn primary(ts: Seq<Token>) -> Step<Expression>
    decreases ts.len(), 0nat,
{
    if ts.len() == 0 {
        Err(ParseError::UnexpectedEOF)
    } else {
        match ts[0] {
            Token::Number { value, here, len } => Ok(
                (ts.drop_first(), Expression::Number { value, here, len }),
            ),
            Token::Ident { value, here } => Ok(
                (ts.drop_first(), Expression::Variable { name: value, here }),
            ),
            Token::OpenParen { .. } => match expr(ts.drop_first()) {
                Err(e) => Err(e),
                Ok((rest, e)) => if rest.len() == 0 {
                    Err(ParseError::UnexpectedEOF)
                } else if rest[0] is CloseParen {
                    Ok((rest.drop_first(), e))
                } else {
                    Err(unexpected(rest[0], TokenView::CloseParen { here: 0 }))
                },
            },
            _ => Err(unexpected(ts[0], TokenView::OpenParen { here: 0 })),
        }
    }
}

/// `('*' primary)*` after `left`. Every step consumes tokens, so the
/// length test never fails (see `lemma_steps_consume`).
pub open spec fn term_tail(left: Expression, ts: Seq<Token>) -> Step<Expression>
    decreases ts.len(), 1nat,
{
    if ts.len() > 0 && ts[0] is Star {
        match primary(ts.drop_first()) {
            Err(e) => Err(e),
            Ok((rest, right)) => if rest.len() < ts.len() {
                term_tail(binary(left, ts[0], right), rest)
            } else {
                Ok((rest, binary(left, ts[0], right)))
            },
        }
    } else {
        Ok((ts, left))
    }
}

/// `term := primary ('*' primary)*`
pub open spec fn term(ts: Seq<Token>) -> Step<Expression>
    decreases ts.len(), 2nat,
{
    match primary(ts) {
        Err(e) => Err(e),
        Ok((rest, left)) => if rest.len() < ts.len() {
            term_tail(left, rest)
        } else {
            Ok((rest, left))
        },
    }
}

/// `(('+' | '-') term)*` after `left`.
pub open spec fn expr_tail(left: Expression, ts: Seq<Token>) -> Step<Expression>
    decreases ts.len(), 3nat,
{
    if ts.len() > 0 && (ts[0] is Plus || ts[0] is Minus) {
        match term(ts.drop_first()) {
            Err(e) => Err(e),
            Ok((rest, right)) => if rest.len() < ts.len() {
                expr_tail(binary(left, ts[0], right), rest)
            } else {
                Ok((rest, binary(left, ts[0], right)))
            },
        }
    } else {
        Ok((ts, left))
    }
}

/// `expr := term (('+' | '-') term)*`
pub open spec fn expr(ts: Seq<Token>) -> Step<Expression>
    decreases ts.len(), 4nat,
{
    match term(ts) {
        Err(e) => Err(e),
        Ok((rest, left)) => if rest.len() < ts.len() {
            expr_tail(left, rest)
        } else {
            Ok((rest, left))
        },
    }
}

/// Every successful step leaves fewer tokens than it was given, and the
/// tails leave no more than they were given.
pub proof fn lemma_steps_consume(ts: Seq<Token>, left: Expression)
    ensures
        primary(ts) matches Ok((rest, _)) ==> rest.len() < ts.len(),
        term(ts) matches Ok((rest, _)) ==> rest.len() < ts.len(),
        expr(ts) matches Ok((rest, _)) ==> rest.len() < ts.len(),
        term_tail(left, ts) matches Ok((rest, _)) ==> rest.len() <= ts.len(),
        expr_tail(left, ts) matches Ok((rest, _)) ==> rest.len() <= ts.len(),
    decreases ts.len(),
{
    if ts.len() > 0 {
        lemma_steps_consume(ts.drop_first(), left);
        if let Ok((rest, right)) = primary(ts.drop_first()) {
            if rest.len() < ts.len() {
                lemma_steps_consume(rest, binary(left, ts[0], right));
            }
        }
        if let Ok((rest, right)) = term(ts.drop_first()) {
            if rest.len() < ts.len() {
                lemma_steps_consume(rest, binary(left, ts[0], right));
            }
        }
        if let Ok((rest, l)) = primary(ts) {
            if rest.len() < ts.len() {
                lemma_steps_consume(rest, l);
            }
        }
        if let Ok((rest, l)) = term(ts) {
            if rest.len() < ts.len() {
                lemma_steps_consume(rest, l);
            }
        }
    }
}

/// The expression a number or identifier token stands for.
pub open spec fn atom(t: Token) -> Expression {
    match t {
        Token::Number { value, here, len } => Expression::Number { value, here, len },
        Token::Ident { value, here } => Expression::Variable { name: value, here },
        _ => Expression::Number { value: 0, here: 0, len: 0 },
    }
}

pub open spec fn is_atom(t: Token) -> bool {
    t is Number || t is Ident
}

/// `x + y * z` (or `x - y * z`) groups the product first.
pub proof fn lemma_product_binds_tighter(x: Token, op: Token, y: Token, star: Token, z: Token)
    requires
        is_atom(x),
        is_atom(y),
        is_atom(z),
        op is Plus || op is Minus,
        star is Star,
    ensures
        expr(seq![x, op, y, star, z]) == Ok::<(Seq<Token>, Expression), ParseError>(
            (Seq::empty(), binary(atom(x), op, binary(atom(y), star, atom(z)))),
        ),
{
    let ts = seq![x, op, y, star, z];
    reveal_with_fuel(term_tail, 2);
    reveal_with_fuel(expr_tail, 2);
    assert(ts.drop_first() == seq![op, y, star, z]);
    assert(seq![op, y, star, z].drop_first() == seq![y, star, z]);
    assert(seq![y, star, z].drop_first() == seq![star, z]);
    assert(seq![star, z].drop_first() == seq![z]);
    assert(seq![z].drop_first() == Seq::<Token>::empty());
    assert(primary(ts) == Ok::<(Seq<Token>, Expression), ParseError>((seq![op, y, star, z], atom(x))));
    assert(term(ts) == Ok::<(Seq<Token>, Expression), ParseError>((seq![op, y, star, z], atom(x))));
    assert(primary(seq![y, star, z]) == Ok::<(Seq<Token>, Expression), ParseError>((seq![star, z], atom(y))));
    assert(primary(seq![z]) == Ok::<(Seq<Token>, Expression), ParseError>((Seq::empty(), atom(z))));
    assert(term(seq![y, star, z]) == Ok::<(Seq<Token>, Expression), ParseError>(
        (Seq::empty(), binary(atom(y), star, atom(z))),
    ));
}

/// `x op y op' z` with `op`, `op'` each `+` or `-` groups from the left.
pub proof fn lemma_sums_group_left(x: Token, op: Token, y: Token, op2: Token, z: Token)
    requires
        is_atom(x),
        is_atom(y),
        is_atom(z),
        op is Plus || op is Minus,
        op2 is Plus || op2 is Minus,
    ensures
        expr(seq![x, op, y, op2, z]) == Ok::<(Seq<Token>, Expression), ParseError>(
            (Seq::empty(), binary(binary(atom(x), op, atom(y)), op2, atom(z))),
        ),
{
    let ts = seq![x, op, y, op2, z];
    reveal_with_fuel(expr_tail, 3);
    assert(ts.drop_first() == seq![op, y, op2, z]);
    assert(seq![op, y, op2, z].drop_first() == seq![y, op2, z]);
    assert(seq![y, op2, z].drop_first() == seq![op2, z]);
    assert(seq![op2, z].drop_first() == seq![z]);
    assert(seq![z].drop_first() == Seq::<Token>::empty());
    assert(term(ts) == Ok::<(Seq<Token>, Expression), ParseError>((seq![op, y, op2, z], atom(x))));
    assert(term(seq![y, op2, z]) == Ok::<(Seq<Token>, Expression), ParseError>((seq![op2, z], atom(y))));
    assert(term(seq![z]) == Ok::<(Seq<Token>, Expression), ParseError>((Seq::empty(), atom(z))));
    let xy = binary(atom(x), op, atom(y));
    assert(expr_tail(binary(xy, op2, atom(z)), Seq::empty()) == Ok::<
        (Seq<Token>, Expression),
        ParseError,
    >((Seq::empty(), binary(xy, op2, atom(z)))));
    assert(expr_tail(xy, seq![op2, z]) == expr_tail(binary(xy, op2, atom(z)), Seq::empty()));
    assert(expr_tail(atom(x), seq![op, y, op2, z]) == expr_tail(xy, seq![op2, z]));
}

/// Expects `;` to close `st`.
pub open spec fn closed_by_semicolon(ts: Seq<Token>, st: Statement) -> Step<Statement> {
    if ts.len() == 0 {
        Err(ParseError::UnexpectedEOF)
    } else if ts[0] is Semicolon {
        Ok((ts.drop_first(), st))
    } else {
        Err(unexpected(ts[0], TokenView::Semicolon { here: 0 }))
    }
}

pub open spec fn word_any() -> Seq<char> {
    seq!['a', 'n', 'y']
}

/// `statement := 'return' expr ';' | 'var' IDENT '=' expr ';'`
pub open spec fn statement(ts: Seq<Token>) -> Step<Statement> {
    if ts.len() == 0 {
        Err(ParseError::UnexpectedEOF)
    } else {
        match ts[0] {
            Token::Return { .. } => match expr(ts.drop_first()) {
                Err(e) => Err(e),
                Ok((rest, e)) => closed_by_semicolon(rest, Statement::Return(e)),
            },
            Token::Var { here } => if ts.len() < 2 {
                Err(ParseError::UnexpectedEOF)
            } else if !(ts[1] is Ident) {
                Err(unexpected(ts[1], TokenView::Ident { value: word_any(), here: here as nat }))
            } else if ts.len() < 3 {
                Err(ParseError::UnexpectedEOF)
            } else if !(ts[2] is Equal) {
                Err(unexpected(ts[2], TokenView::Equal { here: here as nat }))
            } else {
                match expr(ts.skip(3)) {
                    Err(e) => Err(e),
                    Ok((rest, e)) => closed_by_semicolon(
                        rest,
                        Statement::DefineVar { name: ts[1]->Ident_value, value: e },
                    ),
                }
            },
            _ => Err(unexpected(ts[0], TokenView::Return { here: 0 })),
        }
    }
}

pub proof fn lemma_statement_consumes(ts: Seq<Token>)
    ensures
        statement(ts) matches Ok((rest, _)) ==> rest.len() < ts.len(),
{
    lemma_steps_consume(ts.drop_first(), Expression::Number { value: 0, here: 0, len: 0 });
    lemma_steps_consume(ts.skip(3), Expression::Number { value: 0, here: 0, len: 0 });
}

/// `program := statement*`
pub open spec fn program(ts: Seq<Token>) -> Result<Seq<Statement>, ParseError>
    decreases ts.len(),
{
    if ts.len() == 0 {
        Ok(Seq::empty())
    } else {
        match statement(ts) {
            Err(e) => Err(e),
            Ok((rest, st)) => if rest.len() < ts.len() {
                match program(rest) {
                    Err(e) => Err(e),
                    Ok(sts) => Ok(seq![st] + sts),
                }
            } else {
                Ok(seq![st])
            },
        }
    }
}

/// An executable parsing result seen as a `Step`.
pub open spec fn outcome<'a, T>(r: Result<(&'a [Token], T), ASTError>) -> Step<T> {
    match r {
        Ok((rest, v)) => Ok((rest@, v)),
        Err(e) => Err(e@),
    }
}

/// `r` is the executable form of the parse result `expected`.
pub open spec fn parsed_as(
    r: Result<Vec<Statement>, ASTError>,
    expected: Result<Seq<Statement>, ParseError>,
) -> bool {
    match (r, expected) {
        (Ok(v), Ok(sts)) => v@ == sts,
        (Err(e), Err(pe)) => e@ == pe,
        _ => false,
    }
}

/// Parsing depends on the tokens alone: two results that `parse` may give
/// for the same tokens hold the same statements, or the same error.
pub proof fn lemma_parse_deterministic(
    ts: Seq<Token>,
    first: Result<Vec<Statement>, ASTError>,
    second: Result<Vec<Statement>, ASTError>,
)
    requires
        parsed_as(first, program(ts)),
        parsed_as(second, program(ts)),
    ensures
        first is Ok <==> second is Ok,
        first matches Ok(a) ==> second matches Ok(b) && a@ == b@,
        first matches Err(a) ==> second matches Err(b) && a@ == b@,
{
}

/// Parses the whole token sequence into statements.
pub fn parse(tokens: &[Token]) -> (r: Result<Vec<Statement>, ASTError>)
    ensures
        parsed_as(r, program(tokens@)),
{
    let mut stmts: Vec<Statement> = Vec::new();
    let mut rest = tokens;
    while rest.len() > 0
        invariant
            program(tokens@) == match program(rest@) {
                Ok(sts) => Ok(stmts@ + sts),
                Err(e) => Err(e),
            },
        decreases rest@.len(),
    {
        match parse_statement(rest) {
            Ok((after, stmt)) => {
                proof {
                    let before = stmts@;
                    match program(after@) {
                        Ok(sts) => {
                            assert(before + (seq![stmt] + sts) == before.push(stmt) + sts);
                        },
                        Err(_) => {},
                    }
                }
                stmts.push(stmt);
                rest = after;
            },
            Err(e) => {
                return Err(e);
            },
        }
    }
    assert(stmts@ + Seq::<Statement>::empty() == stmts@);
    Ok(stmts)
}

fn expect_semicolon(tokens: &[Token], st: Statement) -> (r: Result<(&[Token], Statement), ASTError>)
    ensures
        outcome(r) == closed_by_semicolon(tokens@, st),
{
    if tokens.len() == 0 {
        return Err(ASTError::UnexpectedEOF);
    }
    match &tokens[0] {
        Token::Semicolon { .. } => Ok((slice_subrange(tokens, 1, tokens.len()), st)),
        t => Err(ASTError::UnexpectedToken { got: copy_token(t), expected: Token::Semicolon { here: 0 } }),
    }
}

/// Parses one statement from the front of `tokens`.
pub fn parse_statement(tokens: &[Token]) -> (r: Result<(&[Token], Statement), ASTError>)
    ensures
        outcome(r) == statement(tokens@),
        r matches Ok((rest, _)) ==> rest@.len() < tokens@.len(),
{
    proof {
        lemma_statement_consumes(tokens@);
    }
    if tokens.len() == 0 {
        return Err(ASTError::UnexpectedEOF);
    }
    let after = slice_subrange(tokens, 1, tokens.len());
    assert(after@ == tokens@.drop_first());
    match &tokens[0] {
        Token::Return { .. } => {
            let (rest, e) = match parse_expr(after) {
                Ok(p) => p,
                Err(e) => {
                    return Err(e);
                },
            };
            expect_semicolon(rest, Statement::Return(e))
        },
        Token::Var { here } => {
            if tokens.len() < 2 {
                return Err(ASTError::UnexpectedEOF);
            }
            let name = match &tokens[1] {
                Token::Ident { value, .. } => value.clone(),
                t => {
                    let any = "any".to_owned();
                    proof {
                        reveal_strlit("any");
                        assert(any@ =~= word_any());
                    }
                    return Err(
                        ASTError::UnexpectedToken {
                            got: copy_token(t),
                            expected: Token::Ident { value: any, here: *here },
                        },
                    );
                },
            };
            if tokens.len() < 3 {
                return Err(ASTError::UnexpectedEOF);
            }
            match &tokens[2] {
                Token::Equal { .. } => {},
                t => {
                    return Err(
                        ASTError::UnexpectedToken {
                            got: copy_token(t),
                            expected: Token::Equal { here: *here },
                        },
                    );
                },
            }
            let body = slice_subrange(tokens, 3, tokens.len());
            assert(body@ == tokens@.skip(3));
            let (rest, e) = match parse_expr(body) {
                Ok(p) => p,
                Err(e) => {
                    return Err(e);
                },
            };
            expect_semicolon(rest, Statement::DefineVar { name, value: e })
        },
        t => Err(ASTError::UnexpectedToken { got: copy_token(t), expected: Token::Return { here: 0 } }),
    }
}

/// Parses `expr := term (('+' | '-') term)*` from the front of `tokens`.
pub fn parse_expr(tokens: &[Token]) -> (r: Result<(&[Token], Expression), ASTError>)
    ensures
        outcome(r) == expr(tokens@),
        r matches Ok((rest, _)) ==> rest@.len() < tokens@.len(),
    decreases tokens@.len(), 4nat,
{
    proof {
        lemma_steps_consume(tokens@, Expression::Number { value: 0, here: 0, len: 0 });
    }
    let (first_rest, first) = match parse_mult(tokens) {
        Ok(p) => p,
        Err(e) => {
            return Err(e);
        },
    };
    let mut left = first;
    let mut rest = first_rest;
    loop
        invariant
            expr(tokens@) == expr_tail(left, rest@),
            rest@.len() < tokens@.len(),
        decreases rest@.len(),
    {
        if rest.len() == 0 {
            return Ok((rest, left));
        }
        let op = match &rest[0] {
            Token::Plus { here } => Token::Plus { here: *here },
            Token::Minus { here } => Token::Minus { here: *here },
            _ => {
                return Ok((rest, left));
            },
        };
        let after = slice_subrange(rest, 1, rest.len());
        assert(after@ == rest@.drop_first());
        match parse_mult(after) {
            Ok((next_rest, right)) => {
                left = Expression::Binary { left: Box::new(left), op, right: Box::new(right) };
                rest = next_rest;
            },
            Err(e) => {
                return Err(e);
            },
        }
    }
}

/// Parses `term := primary ('*' primary)*` from the front of `tokens`.
pub fn parse_mult(tokens: &[Token]) -> (r: Result<(&[Token], Expression), ASTError>)
    ensures
        outcome(r) == term(tokens@),
        r matches Ok((rest, _)) ==> rest@.len() < tokens@.len(),
    decreases tokens@.len(), 2nat,
{
    let (first_rest, first) = match parse_primary(tokens) {
        Ok(p) => p,
        Err(e) => {
            return Err(e);
        },
    };
    let mut left = first;
    let mut rest = first_rest;
    loop
        invariant
            term(tokens@) == term_tail(left, rest@),
            rest@.len() < tokens@.len(),
        decreases rest@.len(),
    {
        if rest.len() == 0 {
            return Ok((rest, left));
        }
        let op = match &rest[0] {
            Token::Star { here } => Token::Star { here: *here },
            _ => {
                return Ok((rest, left));
            },
        };
        let after = slice_subrange(rest, 1, rest.len());
        assert(after@ == rest@.drop_first());
        match parse_primary(after) {
            Ok((next_rest, right)) => {
                left = Expression::Binary { left: Box::new(left), op, right: Box::new(right) };
                rest = next_rest;
            },
            Err(e) => {
                return Err(e);
            },
        }
    }
}

/// Parses `primary := NUMBER | IDENT | '(' expr ')'` from the front of `tokens`.
pub fn parse_primary(tokens: &[Token]) -> (r: Result<(&[Token], Expression), ASTError>)
    ensures
        outcome(r) == primary(tokens@),
        r matches Ok((rest, _)) ==> rest@.len() < tokens@.len(),
    decreases tokens@.len(), 0nat,
{
    if tokens.len() == 0 {
        return Err(ASTError::UnexpectedEOF);
    }
    let after = slice_subrange(tokens, 1, tokens.len());
    assert(after@ == tokens@.drop_first());
    match &tokens[0] {
        Token::Number { value, here, len } => Ok(
            (after, Expression::Number { value: *value, here: *here, len: *len }),
        ),
        Token::Ident { value, here } => Ok(
            (after, Expression::Variable { here: *here, name: value.clone() }),
        ),
        Token::OpenParen { .. } => {
            let (rest, e) = match parse_expr(after) {
                Ok(p) => p,
                Err(err) => {
                    return Err(err);
                },
            };
            if rest.len() == 0 {
                return Err(ASTError::UnexpectedEOF);
            }
            match &rest[0] {
                Token::CloseParen { .. } => {
                    let inner = slice_subrange(rest, 1, rest.len());
                    assert(inner@ == rest@.drop_first());
                    Ok((inner, e))
                },
                t => Err(
                    ASTError::UnexpectedToken {
                        got: copy_token(t),
                        expected: Token::CloseParen { here: 0 },
                    },
                ),
            }
        },
        t => Err(ASTError::UnexpectedToken { got: copy_token(t), expected: Token::OpenParen { here: 0 } }),
    }
}

} // verus!
