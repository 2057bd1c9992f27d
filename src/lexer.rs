//! Turns a `Source` into tokens.

use vstd::prelude::*;

use crate::error::{diagnostic, display_error};
use crate::source::{position_of, Source};
use crate::text::{
    alphabetic, alphanumeric, decimal, digit_value, digits_value, is_alphabetic,
    is_alphanumeric, is_ascii_letter, is_digit, push_decimal, push_str, same_text, string_of,
};

verus! {

#[allow(inconsistent_fields)]
#[derive(Debug, Clone, PartialEq)]
pub enum Token {
    Number { value: u64, here: usize, len: usize },
    Plus { here: usize },
    Minus { here: usize },
    Star { here: usize },
    OpenParen { here: usize },
    CloseParen { here: usize },
    OpenCurly { here: usize },
    CloseCurly { here: usize },
    Return { here: usize },
    Var { here: usize },
    Semicolon { here: usize },
    Equal { here: usize },
    Ident { value: String, here: usize },
}

/// A token as a mathematical value: positions as `nat`, names as
/// character sequences.
#[allow(inconsistent_fields)]
pub enum TokenView {
    Number { value: u64, here: nat, len: nat },
    Plus { here: nat },
    Minus { here: nat },
    Star { here: nat },
    OpenParen { here: nat },
    CloseParen { here: nat },
    OpenCurly { here: nat },
    CloseCurly { here: nat },
    Return { here: nat },
    Var { here: nat },
    Semicolon { here: nat },
    Equal { here: nat },
    Ident { value: Seq<char>, here: nat },
}

impl View for Token {
    type V = TokenView;

    open spec fn view(&self) -> TokenView {
        match self {
            Token::Number { value, here, len } => TokenView::Number {
                value: *value,
                here: *here as nat,
                len: *len as nat,
            },
            Token::Plus { here } => TokenView::Plus { here: *here as nat },
            Token::Minus { here } => TokenView::Minus { here: *here as nat },
            Token::Star { here } => TokenView::Star { here: *here as nat },
            Token::OpenParen { here } => TokenView::OpenParen { here: *here as nat },
            Token::CloseParen { here } => TokenView::CloseParen { here: *here as nat },
            Token::OpenCurly { here } => TokenView::OpenCurly { here: *here as nat },
            Token::CloseCurly { here } => TokenView::CloseCurly { here: *here as nat },
            Token::Return { here } => TokenView::Return { here: *here as nat },
            Token::Var { here } => TokenView::Var { here: *here as nat },
            Token::Semicolon { here } => TokenView::Semicolon { here: *here as nat },
            Token::Equal { here } => TokenView::Equal { here: *here as nat },
            Token::Ident { value, here } => TokenView::Ident { value: value@, here: *here as nat },
        }
    }
}

pub open spec fn views(ts: Seq<Token>) -> Seq<TokenView> {
    ts.map_values(|t: Token| t@)
}

/// A token with its position forgotten (positions and lengths set to zero).
pub open spec fn kind(t: TokenView) -> TokenView {
    match t {
        TokenView::Number { value, .. } => TokenView::Number { value, here: 0, len: 0 },
        TokenView::Plus { .. } => TokenView::Plus { here: 0 },
        TokenView::Minus { .. } => TokenView::Minus { here: 0 },
        TokenView::Star { .. } => TokenView::Star { here: 0 },
        TokenView::OpenParen { .. } => TokenView::OpenParen { here: 0 },
        TokenView::CloseParen { .. } => TokenView::CloseParen { here: 0 },
        TokenView::OpenCurly { .. } => TokenView::OpenCurly { here: 0 },
        TokenView::CloseCurly { .. } => TokenView::CloseCurly { here: 0 },
        TokenView::Return { .. } => TokenView::Return { here: 0 },
        TokenView::Var { .. } => TokenView::Var { here: 0 },
        TokenView::Semicolon { .. } => TokenView::Semicolon { here: 0 },
        TokenView::Equal { .. } => TokenView::Equal { here: 0 },
        TokenView::Ident { value, .. } => TokenView::Ident { value, here: 0 },
    }
}

pub open spec fn kinds(ts: Seq<TokenView>) -> Seq<TokenView> {
    ts.map_values(|t: TokenView| kind(t))
}

pub open spec fn word_return() -> Seq<char> {
    seq!['r', 'e', 't', 'u', 'r', 'n']
}

pub open spec fn word_var() -> Seq<char> {
    seq!['v', 'a', 'r']
}

/// The canonical text of a token.
pub open spec fn token_text(t: TokenView) -> Seq<char> {
    match t {
        TokenView::Number { value, .. } => decimal(value as nat),
        TokenView::Plus { .. } => seq!['+'],
        TokenView::Minus { .. } => seq!['-'],
        TokenView::Star { .. } => seq!['*'],
        TokenView::OpenParen { .. } => seq!['('],
        TokenView::CloseParen { .. } => seq![')'],
        TokenView::OpenCurly { .. } => seq!['{'],
        TokenView::CloseCurly { .. } => seq!['}'],
        TokenView::Return { .. } => word_return(),
        TokenView::Var { .. } => word_var(),
        TokenView::Semicolon { .. } => seq![';'],
        TokenView::Equal { .. } => seq!['='],
        TokenView::Ident { value, .. } => value,
    }
}

impl Token {
    /// The canonical text of the token.
    pub fn text(&self) -> (r: String)
        ensures
            r@ == token_text(self@),
    {
        let mut out: Vec<char> = Vec::new();
        match self {
            Token::Number { value, .. } => push_decimal(&mut out, *value),
            Token::Plus { .. } => out.push('+'),
            Token::Minus { .. } => out.push('-'),
            Token::Star { .. } => out.push('*'),
            Token::OpenParen { .. } => out.push('('),
            Token::CloseParen { .. } => out.push(')'),
            Token::OpenCurly { .. } => out.push('{'),
            Token::CloseCurly { .. } => out.push('}'),
            Token::Return { .. } => {
                out.push('r');
                out.push('e');
                out.push('t');
                out.push('u');
                out.push('r');
                out.push('n');
            },
            Token::Var { .. } => {
                out.push('v');
                out.push('a');
                out.push('r');
            },
            Token::Semicolon { .. } => out.push(';'),
            Token::Equal { .. } => out.push('='),
            Token::Ident { value, .. } => {
                return value.clone();
            },
        }
        assert(out@ == token_text(self@));
        string_of(out.as_slice())
    }
}

/// A copy of `t`, field by field.
pub(crate) fn copy_token(t: &Token) -> (r: Token)
    ensures
        r == *t,
{
    match t {
        Token::Number { value, here, len } => Token::Number { value: *value, here: *here, len: *len },
        Token::Plus { here } => Token::Plus { here: *here },
        Token::Minus { here } => Token::Minus { here: *here },
        Token::Star { here } => Token::Star { here: *here },
        Token::OpenParen { here } => Token::OpenParen { here: *here },
        Token::CloseParen { here } => Token::CloseParen { here: *here },
        Token::OpenCurly { here } => Token::OpenCurly { here: *here },
        Token::CloseCurly { here } => Token::CloseCurly { here: *here },
        Token::Return { here } => Token::Return { here: *here },
        Token::Var { here } => Token::Var { here: *here },
        Token::Semicolon { here } => Token::Semicolon { here: *here },
        Token::Equal { here } => Token::Equal { here: *here },
        Token::Ident { value, here } => Token::Ident { value: value.clone(), here: *here },
    }
}

#[derive(Debug, PartialEq)]
pub enum NumberLexError {
    /// A digit run runs straight into a letter.
    Letter { file: Option<String>, line_number: usize, column_number: usize },
    /// A digit run spells a number above `u64::MAX`.
    Overflow { file: Option<String>, line_number: usize, column_number: usize },
}

#[derive(Debug, PartialEq)]
pub enum LexerError {
    UnexpectedChar { file: Option<String>, line_number: usize, column_number: usize, c: char },
    UnexpectedEOF { file: Option<String>, line_number: usize, column_number: usize },
    Number(NumberLexError),
}

pub open spec fn name_view(file: Option<String>) -> Option<Seq<char>> {
    match file {
        Some(f) => Some(f@),
        None => None,
    }
}

fn name_str(file: &Option<String>) -> (r: Option<&str>)
    ensures
        match r {
            Some(s) => name_view(*file) == Some(s@),
            None => file is None,
        },
{
    match file {
        Some(f) => Some(f.as_str()),
        None => None,
    }
}

pub open spec fn number_error_text(e: NumberLexError) -> Seq<char> {
    match e {
        NumberLexError::Letter { file, line_number, column_number } => diagnostic(
            name_view(file),
            line_number as nat,
            column_number as nat,
            "Numbers MUST be separated from letters"@,
        ),
        NumberLexError::Overflow { file, line_number, column_number } => diagnostic(
            name_view(file),
            line_number as nat,
            column_number as nat,
            "Numbers MUST fit in 64 bits"@,
        ),
    }
}

pub open spec fn lexer_error_text(e: LexerError) -> Seq<char> {
    match e {
        LexerError::Number(n) => number_error_text(n) + "\n"@,
        LexerError::UnexpectedEOF { file, line_number, column_number } => diagnostic(
            name_view(file),
            line_number as nat,
            column_number as nat,
            "Unexpected EOF"@,
        ),
        LexerError::UnexpectedChar { file, line_number, column_number, c } => diagnostic(
            name_view(file),
            line_number as nat,
            column_number as nat,
            "Unexpected char: "@.push(c),
        ),
    }
}

impl NumberLexError {
    /// The diagnostic for this error.
    pub fn render(&self) -> (r: String)
        ensures
            r@ == number_error_text(*self),
    {
        match self {
            NumberLexError::Letter { file, line_number, column_number } => display_error(
                name_str(file),
                (*line_number, *column_number),
                "Numbers MUST be separated from letters",
            ),
            NumberLexError::Overflow { file, line_number, column_number } => display_error(
                name_str(file),
                (*line_number, *column_number),
                "Numbers MUST fit in 64 bits",
            ),
        }
    }
}

impl LexerError {
    /// The diagnostic for this error.
    pub fn render(&self) -> (r: String)
        ensures
            r@ == lexer_error_text(*self),
    {
        match self {
            LexerError::Number(e) => {
                let mut out: Vec<char> = Vec::new();
                push_str(&mut out, e.render().as_str());
                push_str(&mut out, "\n");
                string_of(out.as_slice())
            },
            LexerError::UnexpectedEOF { file, line_number, column_number } => display_error(
                name_str(file),
                (*line_number, *column_number),
                "Unexpected EOF",
            ),
            LexerError::UnexpectedChar { file, line_number, column_number, c } => {
                let mut text: Vec<char> = Vec::new();
                push_str(&mut text, "Unexpected char: ");
                text.push(*c);
                let message = string_of(text.as_slice());
                display_error(name_str(file), (*line_number, *column_number), message.as_str())
            },
        }
    }
}

/// Why lexing stops, with the offset it is reported at.
pub enum LexFailure {
    UnexpectedChar { at: nat, c: char },
    UnexpectedEOF { at: nat },
    Letter { at: nat },
    Overflow { at: nat },
}

/// End of the run of ASCII digits that starts at `k`.
pub open spec fn digits_end(s: Seq<char>, k: nat) -> nat
    decreases s.len() - k,
{
    if k < s.len() && is_digit(s[k as int]) {
        digits_end(s, k + 1)
    } else {
        k
    }
}

/// End of the run of alphanumeric characters and `_` that starts at `k`.
pub open spec fn word_end(s: Seq<char>, k: nat) -> nat
    decreases s.len() - k,
{
    if k < s.len() && (alphanumeric(s[k as int]) || s[k as int] == '_') {
        word_end(s, k + 1)
    } else {
        k
    }
}

/// The number that starts with the digit at `j`, and where it ends.
pub open spec fn scan_number(s: Seq<char>, j: nat) -> Result<(TokenView, nat), LexFailure> {
    let e = digits_end(s, j);
    if e < s.len() && is_ascii_letter(s[e as int]) {
        Err(LexFailure::Letter { at: j })
    } else if digits_value(s.subrange(j as int, e as int)) > u64::MAX {
        Err(LexFailure::Overflow { at: j })
    } else {
        Ok(
            (
                TokenView::Number {
                    value: digits_value(s.subrange(j as int, e as int)) as u64,
                    here: j,
                    len: (e - j) as nat,
                },
                e,
            ),
        )
    }
}

/// The keyword or identifier that starts at `j`, and where it ends.
pub open spec fn scan_word(s: Seq<char>, j: nat) -> (TokenView, nat) {
    let e = word_end(s, j + 1);
    let w = s.subrange(j as int, e as int);
    if w == word_return() {
        (TokenView::Return { here: j }, e)
    } else if w == word_var() {
        (TokenView::Var { here: j }, e)
    } else {
        (TokenView::Ident { value: w, here: j }, e)
    }
}

/// The single-character token that `c` stands for, if any.
pub open spec fn punctuation(c: char, j: nat) -> Option<TokenView> {
    if c == '+' {
        Some(TokenView::Plus { here: j })
    } else if c == '-' {
        Some(TokenView::Minus { here: j })
    } else if c == '*' {
        Some(TokenView::Star { here: j })
    } else if c == '=' {
        Some(TokenView::Equal { here: j })
    } else if c == ';' {
        Some(TokenView::Semicolon { here: j })
    } else if c == '(' {
        Some(TokenView::OpenParen { here: j })
    } else if c == ')' {
        Some(TokenView::CloseParen { here: j })
    } else if c == '{' {
        Some(TokenView::OpenCurly { here: j })
    } else if c == '}' {
        Some(TokenView::CloseCurly { here: j })
    } else {
        None
    }
}

/// The token that starts at `j` (white space already skipped), and where it ends.
pub open spec fn scan_token(s: Seq<char>, j: nat) -> Result<(TokenView, nat), LexFailure> {
    if j >= s.len() {
        Err(LexFailure::UnexpectedEOF { at: j })
    } else if is_digit(s[j as int]) {
        scan_number(s, j)
    } else if punctuation(s[j as int], j) is Some {
        Ok((punctuation(s[j as int], j)->0, j + 1))
    } else if alphabetic(s[j as int]) || s[j as int] == '_' {
        Ok(scan_word(s, j))
    } else {
        Err(LexFailure::UnexpectedChar { at: j, c: s[j as int] })
    }
}

pub proof fn lemma_digits_end(s: Seq<char>, k: nat)
    ensures
        k <= s.len() ==> k <= digits_end(s, k) <= s.len(),
        k > s.len() ==> digits_end(s, k) == k,
        forall|i: int| k <= i < digits_end(s, k) ==> is_digit(#[trigger] s[i]),
        digits_end(s, k) < s.len() ==> !is_digit(s[digits_end(s, k) as int]),
    decreases s.len() - k,
{
    if k < s.len() && is_digit(s[k as int]) {
        lemma_digits_end(s, k + 1);
    }
}

pub proof fn lemma_word_end(s: Seq<char>, k: nat)
    ensures
        k <= s.len() ==> k <= word_end(s, k) <= s.len(),
        k > s.len() ==> word_end(s, k) == k,
        forall|i: int|
            k <= i < word_end(s, k) ==> alphanumeric(#[trigger] s[i]) || s[i] == '_',
        word_end(s, k) < s.len() ==> !(alphanumeric(s[word_end(s, k) as int]) || s[word_end(
            s,
            k,
        ) as int] == '_'),
    decreases s.len() - k,
{
    if k < s.len() && (alphanumeric(s[k as int]) || s[k as int] == '_') {
        lemma_word_end(s, k + 1);
    }
}

pub proof fn lemma_scan_advances(s: Seq<char>, j: nat)
    ensures
        scan_token(s, j) matches Ok((_, e)) ==> j < e <= s.len(),
{
    lemma_digits_end(s, j);
    lemma_word_end(s, j + 1);
    if j < s.len() && is_digit(s[j as int]) {
        lemma_digits_end(s, j + 1);
    }
}

/// The tokens of `s` from offset `i` on.
pub open spec fn lex_from(s: Seq<char>, i: nat) -> Result<Seq<TokenView>, LexFailure>
    decreases s.len() - i,
{
    if i >= s.len() {
        Ok(Seq::empty())
    } else {
        let j = Source::skip_spaces_from(s, i);
        match scan_token(s, j) {
            Err(f) => Err(f),
            Ok((t, e)) => {
                proof {
                    Source::lemma_skip_spaces(s, i);
                    lemma_scan_advances(s, j);
                }
                match lex_from(s, e) {
                    Err(f) => Err(f),
                    Ok(ts) => Ok(seq![t] + ts),
                }
            },
        }
    }
}

/// The tokens of `s`, or why lexing stops.
pub open spec fn lex(s: Seq<char>) -> Result<Seq<TokenView>, LexFailure> {
    lex_from(s, 0)
}

pub open spec fn same_file(a: Option<String>, b: Option<String>) -> bool {
    match (a, b) {
        (Some(x), Some(y)) => x@ == y@,
        (None, None) => true,
        _ => false,
    }
}

/// `e` reports `f` in the text `s` named `file`.
pub open spec fn reports(e: LexerError, f: LexFailure, s: Seq<char>, file: Option<String>) -> bool {
    match (e, f) {
        (
            LexerError::UnexpectedChar { file: ef, line_number, column_number, c },
            LexFailure::UnexpectedChar { at, c: fc },
        ) => same_file(ef, file) && (line_number as nat, column_number as nat) == position_of(s, at)
            && c == fc,
        (
            LexerError::UnexpectedEOF { file: ef, line_number, column_number },
            LexFailure::UnexpectedEOF { at },
        ) => same_file(ef, file) && (line_number as nat, column_number as nat) == position_of(s, at),
        (LexerError::Number(n), _) => reports_number(n, f, s, file),
        _ => false,
    }
}

pub open spec fn reports_number(
    e: NumberLexError,
    f: LexFailure,
    s: Seq<char>,
    file: Option<String>,
) -> bool {
    match (e, f) {
        (
            NumberLexError::Letter { file: ef, line_number, column_number },
            LexFailure::Letter { at },
        ) => same_file(ef, file) && (line_number as nat, column_number as nat) == position_of(s, at),
        (
            NumberLexError::Overflow { file: ef, line_number, column_number },
            LexFailure::Overflow { at },
        ) => same_file(ef, file) && (line_number as nat, column_number as nat) == position_of(s, at),
        _ => false,
    }
}

/// Ties a lexing outcome to the one `lex` gives.
pub open spec fn lexed_as(
    r: Result<Vec<Token>, LexerError>,
    expected: Result<Seq<TokenView>, LexFailure>,
    s: Seq<char>,
    file: Option<String>,
) -> bool {
    match (r, expected) {
        (Ok(v), Ok(ts)) => views(v@) == ts,
        (Err(e), Err(f)) => reports(e, f, s, file),
        _ => false,
    }
}

pub open spec fn prepend(
    ts: Seq<TokenView>,
    r: Result<Seq<TokenView>, LexFailure>,
) -> Result<Seq<TokenView>, LexFailure> {
    match r {
        Ok(us) => Ok(ts + us),
        Err(f) => Err(f),
    }
}

fn file_of(src: &Source) -> (r: Option<String>)
    ensures
        same_file(r, src.name()),
{
    match src.path() {
        Some(p) => Some(p.to_owned()),
        None => None,
    }
}

/// Splits the text of `source` from its cursor on into tokens, or reports
/// the first thing that is not one.
pub fn lex_file(source: Source) -> (r: Result<Vec<Token>, LexerError>)
    requires
        source.wf(),
    ensures
        lexed_as(r, lex_from(source.chars(), source.cursor()), source.chars(), source.name()),
{
    let mut src = source;
    let ghost s = src.chars();
    let ghost name = src.name();
    let ghost start = src.cursor();
    let mut tokens: Vec<Token> = Vec::new();
    while !src.finished()
        invariant
            src.wf(),
            src.chars() == s,
            src.name() == name,
            s == source.chars(),
            name == source.name(),
            start == source.cursor(),
            lex_from(s, start) == prepend(views(tokens@), lex_from(s, src.cursor())),
        decreases s.len() - src.cursor(),
    {
        let ghost i = src.cursor();
        src.skip_whitespace();
        let here = src.offset();
        let (l, col) = src.get_position(here);
        proof {
            Source::lemma_skip_spaces(s, i);
        }
        let ghost before = tokens@;
        match src.peek() {
            None => {
                return Err(
                    LexerError::UnexpectedEOF {
                        file: file_of(&src),
                        line_number: l,
                        column_number: col,
                    },
                );
            },
            Some(c) => {
                if '0' <= c && c <= '9' {
                    match lex_number(&mut src) {
                        Ok(t) => tokens.push(t),
                        Err(e) => {
                            return Err(LexerError::Number(e));
                        },
                    }
                } else if c == '+' || c == '-' || c == '*' || c == '=' || c == ';' || c == '('
                    || c == ')' || c == '{' || c == '}' {
                    let t = if c == '+' {
                        Token::Plus { here }
                    } else if c == '-' {
                        Token::Minus { here }
                    } else if c == '*' {
                        Token::Star { here }
                    } else if c == '=' {
                        Token::Equal { here }
                    } else if c == ';' {
                        Token::Semicolon { here }
                    } else if c == '(' {
                        Token::OpenParen { here }
                    } else if c == ')' {
                        Token::CloseParen { here }
                    } else if c == '{' {
                        Token::OpenCurly { here }
                    } else {
                        Token::CloseCurly { here }
                    };
                    tokens.push(t);
                    src.next();
                } else if is_alphabetic(c) || c == '_' {
                    let (begin, _len, ident) = lex_ident(&mut src);
                    proof {
                        reveal_strlit("return");
                        reveal_strlit("var");
                        assert("return"@ =~= word_return());
                        assert("var"@ =~= word_var());
                    }
                    if same_text(ident.as_str(), "return") {
                        tokens.push(Token::Return { here: begin });
                    } else if same_text(ident.as_str(), "var") {
                        tokens.push(Token::Var { here: begin });
                    } else {
                        tokens.push(Token::Ident { here: begin, value: ident });
                    }
                } else {
                    return Err(
                        LexerError::UnexpectedChar {
                            file: file_of(&src),
                            line_number: l,
                            column_number: col,
                            c,
                        },
                    );
                }
            },
        }
        proof {
            let t = tokens@.last()@;
            let e = src.cursor();
            lemma_scan_advances(s, here as nat);
            assert(scan_token(s, here as nat) == Ok::<(TokenView, nat), LexFailure>((t, e)));
            assert(lex_from(s, i) == prepend(seq![t], lex_from(s, e)));
            assert(views(tokens@) == views(before) + seq![t]);
            match lex_from(s, e) {
                Ok(us) => {
                    assert(views(before) + (seq![t] + us) == views(tokens@) + us);
                },
                Err(_) => {},
            }
        }
    }
    proof {
        assert(views(tokens@) + Seq::<TokenView>::empty() == views(tokens@));
    }
    Ok(tokens)
}

/// Reads an identifier or keyword starting at the cursor: its offset, its
/// length and its text.
fn lex_ident(src: &mut Source) -> (r: (usize, usize, String))
    requires
        old(src).wf(),
        old(src).cursor() < old(src).chars().len(),
    ensures
        final(src).wf(),
        final(src).chars() == old(src).chars(),
        final(src).name() == old(src).name(),
        r.0 == old(src).cursor(),
        final(src).cursor() == word_end(old(src).chars(), old(src).cursor() + 1),
        r.1 == final(src).cursor() - old(src).cursor(),
        r.2@ == old(src).chars().subrange(r.0 as int, final(src).cursor() as int),
{
    let ghost s = src.chars();
    let begin = src.offset();
    src.next();
    loop
        invariant
            src.wf(),
            src.chars() == s,
            src.name() == old(src).name(),
            begin < src.cursor(),
            word_end(s, src.cursor()) == word_end(s, (begin + 1) as nat),
        ensures
            word_end(s, src.cursor()) == src.cursor(),
        decreases s.len() - src.cursor(),
    {
        match src.peek() {
            Some(c) => {
                if is_alphanumeric(c) || c == '_' {
                    src.next();
                } else {
                    break;
                }
            },
            None => {
                break;
            },
        }
    }
    let end = src.offset();
    let text = string_of(vstd::slice::slice_subrange(src.src(), begin, end));
    (begin, end - begin, text)
}

/// Reads a number starting at the cursor, which stands on a digit.
fn lex_number(src: &mut Source) -> (r: Result<Token, NumberLexError>)
    requires
        old(src).wf(),
        old(src).cursor() < old(src).chars().len(),
        is_digit(old(src).chars()[old(src).cursor() as int]),
    ensures
        final(src).wf(),
        final(src).chars() == old(src).chars(),
        final(src).name() == old(src).name(),
        match (r, scan_number(old(src).chars(), old(src).cursor())) {
            (Ok(t), Ok((tv, e))) => t@ == tv && final(src).cursor() == e,
            (Err(e), Err(f)) => reports_number(e, f, old(src).chars(), old(src).name()),
            _ => false,
        },
{
    let ghost s = src.chars();
    let begin = src.offset();
    loop
        invariant
            src.wf(),
            src.chars() == s,
            src.name() == old(src).name(),
            begin <= src.cursor(),
            digits_end(s, src.cursor()) == digits_end(s, begin as nat),
        ensures
            digits_end(s, src.cursor()) == src.cursor(),
        decreases s.len() - src.cursor(),
    {
        match src.peek() {
            Some(c) => {
                if '0' <= c && c <= '9' {
                    src.next();
                } else {
                    break;
                }
            },
            None => {
                break;
            },
        }
    }
    let end = src.offset();
    if let Some(c) = src.peek() {
        if ('a' <= c && c <= 'z') || ('A' <= c && c <= 'Z') {
            let (l, col) = src.get_position(begin);
            return Err(
                NumberLexError::Letter { file: file_of(src), line_number: l, column_number: col },
            );
        }
    }
    proof {
        lemma_digits_end(s, begin as nat);
        let d = s.subrange(begin as int, end as int);
        assert forall|i: int| 0 <= i < d.len() implies is_digit(#[trigger] d[i]) by {
            assert(d[i] == s[begin + i]);
        }
    }
    match digits_to_u64(vstd::slice::slice_subrange(src.src(), begin, end)) {
        Some(value) => Ok(Token::Number { value, here: begin, len: end - begin }),
        None => {
            let (l, col) = src.get_position(begin);
            Err(NumberLexError::Overflow { file: file_of(src), line_number: l, column_number: col })
        },
    }
}

proof fn lemma_digits_value_grows(d: Seq<char>, k: int)
    requires
        0 <= k <= d.len(),
        forall|i: int| 0 <= i < d.len() ==> is_digit(#[trigger] d[i]),
    ensures
        digits_value(d.take(k)) <= digits_value(d),
    decreases d.len() - k,
{
    if k < d.len() {
        lemma_digits_value_grows(d, k + 1);
        assert(d.take(k + 1).drop_last() == d.take(k));
        assert(digits_value(d.take(k)) <= digits_value(d.take(k + 1)));
    } else {
        assert(d.take(k) == d);
    }
}

/// The value of a run of digits, or `None` when it exceeds `u64::MAX`.
fn digits_to_u64(d: &[char]) -> (r: Option<u64>)
    requires
        forall|i: int| 0 <= i < d@.len() ==> is_digit(#[trigger] d@[i]),
    ensures
        r matches Some(v) ==> v as nat == digits_value(d@),
        r is None ==> digits_value(d@) > u64::MAX,
{
    let mut acc: u64 = 0;
    let mut i: usize = 0;
    while i < d.len()
        invariant
            i <= d@.len(),
            forall|k: int| 0 <= k < d@.len() ==> is_digit(#[trigger] d@[k]),
            acc as nat == digits_value(d@.take(i as int)),
        decreases d@.len() - i,
    {
        let c = d[i];
        assert(d@.take(i + 1).drop_last() == d@.take(i as int));
        assert(d@.take(i + 1).last() == c);
        let dv = (c as u32 - '0' as u32) as u64;
        assert(dv as nat == digit_value(c));
        let next = match acc.checked_mul(10) {
            Some(m) => m.checked_add(dv),
            None => None,
        };
        match next {
            Some(n) => {
                acc = n;
            },
            None => {
                proof {
                    lemma_digits_value_grows(d@, i + 1);
                }
                return None;
            },
        }
        i = i + 1;
    }
    assert(d@.take(d@.len() as int) == d@);
    Some(acc)
}

} // verus!
