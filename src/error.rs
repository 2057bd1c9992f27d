//! Rendering of diagnostics as `./file:line:column` followed by a message.

use vstd::prelude::*;

use crate::text::{decimal, push_decimal, push_str, string_of};

verus! {

/// The text of a diagnostic: a `./name:line:column ` header line, then the
/// message on a line of its own.
pub open spec fn diagnostic(name: Option<Seq<char>>, line: nat, column: nat, message: Seq<char>) -> Seq<
    char,
> {
    let shown = match name {
        Some(n) => n,
        None => "<input>"@,
    };
    "./"@ + shown + ":"@ + decimal(line) + ":"@ + decimal(column) + " \n"@ + message + "\n"@
}

/// Renders a diagnostic for `pos` (line and column) in the input called
/// `input_name`, or `<input>` when it has no name.
pub fn display_error(input_name: Option<&str>, pos: (usize, usize), message: &str) -> (r: String)
    ensures
        r@ == diagnostic(
            match input_name {
                Some(n) => Some(n@),
                None => None,
            },
            pos.0 as nat,
            pos.1 as nat,
            message@,
        ),
{
    let mut out: Vec<char> = Vec::new();
    push_str(&mut out, "./");
    match input_name {
        Some(n) => push_str(&mut out, n),
        None => push_str(&mut out, "<input>"),
    }
    push_str(&mut out, ":");
    push_decimal(&mut out, pos.0 as u64);
    push_str(&mut out, ":");
    push_decimal(&mut out, pos.1 as u64);
    push_str(&mut out, " \n");
    push_str(&mut out, message);
    push_str(&mut out, "\n");
    string_of(out.as_slice())
}

/// `n` copies of `c`.
pub open spec fn repeat(c: char, n: nat) -> Seq<char> {
    Seq::new(n, |_i: int| c)
}

/// A line that puts `^` under the `len` characters from `column` on (at
/// least one).
pub open spec fn caret_line(column: nat, len: nat) -> Seq<char> {
    repeat(' ', if column > 0 { (column - 1) as nat } else { 0 }) + repeat(
        '^',
        if len > 0 { len } else { 1 },
    )
}

/// A diagnostic followed by the offending source line and a caret line
/// under the span.
pub open spec fn diagnostic_with_source(
    name: Option<Seq<char>>,
    line: nat,
    column: nat,
    message: Seq<char>,
    text: Seq<char>,
    len: nat,
) -> Seq<char> {
    diagnostic(name, line, column, message) + text + "\n"@ + caret_line(column, len) + "\n"@
}

fn push_repeat(out: &mut Vec<char>, c: char, n: usize)
    ensures
        final(out)@ == old(out)@ + repeat(c, n as nat),
{
    let mut i: usize = 0;
    let ghost start = out@;
    while i < n
        invariant
            i <= n,
            out@ == start + repeat(c, i as nat),
        decreases n - i,
    {
        out.push(c);
        i = i + 1;
        assert(out@ =~= start + repeat(c, i as nat));
    }
}

/// Like `display_error`, and then shows `line_text` with carets under the
/// `len` characters that start at the column.
pub fn display_error_with_source(
    input_name: Option<&str>,
    pos: (usize, usize),
    message: &str,
    line_text: &str,
    len: usize,
) -> (r: String)
    ensures
        r@ == diagnostic_with_source(
            match input_name {
                Some(n) => Some(n@),
                None => None,
            },
            pos.0 as nat,
            pos.1 as nat,
            message@,
            line_text@,
            len as nat,
        ),
{
    let head = display_error(input_name, pos, message);
    let mut out: Vec<char> = Vec::new();
    push_str(&mut out, head.as_str());
    push_str(&mut out, line_text);
    push_str(&mut out, "\n");
    let ghost before = out@;
    push_repeat(&mut out, ' ', if pos.1 > 0 { pos.1 - 1 } else { 0 });
    push_repeat(&mut out, '^', if len > 0 { len } else { 1 });
    push_str(&mut out, "\n");
    proof {
        let col = pos.1 as nat;
        let spaces = repeat(' ', if col > 0 { (col - 1) as nat } else { 0 });
        let carets = repeat('^', if len > 0 { len as nat } else { 1 });
        assert(out@ == before + spaces + carets + "\n"@);
    }
    string_of(out.as_slice())
}

} // verus!
