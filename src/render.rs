//! Tokens written back as text, and the law that lexing that text gives
//! the same tokens again.

use vstd::prelude::*;

use crate::lexer::{
    digits_end, kind, kinds, lex, lex_from, punctuation, scan_number, scan_token, scan_word,
    token_text, word_end, word_return, word_var, TokenView,
};
use crate::source::Source;
use crate::text::{
    alphabetic, alphanumeric, decimal, digit_char, digit_value, digits_value, is_digit, is_space,
};

verus! {

/// The canonical texts of `ts`, separated by single spaces.
pub open spec fn render(ts: Seq<TokenView>) -> Seq<char>
    decreases ts.len(),
{
    if ts.len() == 0 {
        Seq::empty()
    } else if ts.len() == 1 {
        token_text(ts[0])
    } else {
        token_text(ts[0]) + seq![' '] + render(ts.drop_first())
    }
}

/// A name the lexer reads back as one identifier: it starts with a
/// letter or `_` that is not white space, goes on with letters, digits or
/// `_`, and is not a keyword.
pub open spec fn valid_ident(v: Seq<char>) -> bool {
    &&& v.len() > 0
    &&& alphabetic(v[0]) || v[0] == '_'
    &&& !is_space(v[0])
    &&& forall|k: int| 1 <= k < v.len() ==> alphanumeric(#[trigger] v[k]) || v[k] == '_'
    &&& v != word_return()
    &&& v != word_var()
}

/// Every token but an identifier has a canonical text; an identifier
/// needs a valid name.
pub open spec fn renderable(t: TokenView) -> bool {
    t matches TokenView::Ident { value, .. } ==> valid_ident(value)
}

proof fn lemma_digit_char(d: nat)
    requires
        d < 10,
    ensures
        is_digit(digit_char(d)),
        digit_value(digit_char(d)) == d,
        !is_space(digit_char(d)),
{
}

proof fn lemma_decimal(n: nat)
    ensures
        decimal(n).len() > 0,
        forall|k: int| 0 <= k < decimal(n).len() ==> is_digit(#[trigger] decimal(n)[k]),
        digits_value(decimal(n)) == n,
    decreases n,
{
    if n < 10 {
        lemma_digit_char(n);
        assert(decimal(n).drop_last() == Seq::<char>::empty());
        assert(digits_value(decimal(n)) == digits_value(Seq::<char>::empty()) * 10 + digit_value(
            digit_char(n),
        ));
    } else {
        lemma_decimal(n / 10);
        lemma_digit_char(n % 10);
        let d = decimal(n / 10);
        assert(decimal(n).drop_last() == d);
        assert(decimal(n).last() == digit_char(n % 10));
        assert(digits_value(decimal(n)) == digits_value(d) * 10 + (n % 10));
        assert((n / 10) * 10 + n % 10 == n);
    }
}

proof fn lemma_digits_end_at(s: Seq<char>, k: nat, e: nat)
    requires
        k <= e <= s.len(),
        forall|m: int| k <= m < e ==> is_digit(#[trigger] s[m]),
        e == s.len() || !is_digit(s[e as int]),
    ensures
        digits_end(s, k) == e,
    decreases e - k,
{
    if k < e {
        lemma_digits_end_at(s, k + 1, e);
    }
}

proof fn lemma_word_end_at(s: Seq<char>, k: nat, e: nat)
    requires
        k <= e <= s.len(),
        forall|m: int| k <= m < e ==> alphanumeric(#[trigger] s[m]) || s[m] == '_',
        e == s.len() || !(alphanumeric(s[e as int]) || s[e as int] == '_'),
    ensures
        word_end(s, k) == e,
    decreases e - k,
{
    if k < e {
        lemma_word_end_at(s, k + 1, e);
    }
}

proof fn lemma_text_nonempty(t: TokenView)
    requires
        renderable(t),
    ensures
        token_text(t).len() > 0,
{
    if let TokenView::Number { value, .. } = t {
        lemma_decimal(value as nat);
    }
}

/// Reads the token whose text stands at `i`, followed by a space or the end.
proof fn lemma_scan_rendered(s: Seq<char>, i: nat, t: TokenView)
    requires
        renderable(t),
        i + token_text(t).len() <= s.len(),
        s.subrange(i as int, (i + token_text(t).len()) as int) == token_text(t),
        i + token_text(t).len() == s.len() || s[(i + token_text(t).len()) as int] == ' ',
    ensures
        token_text(t).len() > 0,
        !is_space(s[i as int]),
        scan_token(s, i) matches Ok((u, e)) && e == i + token_text(t).len() && kind(u) == kind(t),
{
    let w = token_text(t);
    let n = w.len();
    let e = i + n;
    assert forall|k: int| 0 <= k < n implies s[i + k] == w[k] by {
        assert(s.subrange(i as int, e as int)[k] == s[i + k]);
    }
    match t {
        TokenView::Number { value, .. } => {
            lemma_decimal(value as nat);
            assert(s[i as int] == w[0]);
            assert forall|m: int| i <= m < e implies is_digit(#[trigger] s[m]) by {
                assert(s[m] == w[m - i]);
            }
            lemma_digits_end_at(s, i, e);
            assert(scan_token(s, i) == scan_number(s, i));
        },
        TokenView::Ident { value, .. } => {
            assert(s[i as int] == w[0]);
            assert forall|m: int| i + 1 <= m < e implies alphanumeric(#[trigger] s[m]) || s[m]
                == '_' by {
                assert(s[m] == w[m - i]);
            }
            lemma_word_end_at(s, i + 1, e);
            assert(scan_token(s, i) == Ok::<(TokenView, nat), crate::lexer::LexFailure>(scan_word(s, i)));
        },
        TokenView::Return { .. } => {
            assert(s[i as int] == w[0]);
            assert forall|m: int| i + 1 <= m < e implies alphanumeric(#[trigger] s[m]) || s[m]
                == '_' by {
                assert(s[m] == w[m - i]);
            }
            lemma_word_end_at(s, i + 1, e);
        },
        TokenView::Var { .. } => {
            assert(s[i as int] == w[0]);
            assert forall|m: int| i + 1 <= m < e implies alphanumeric(#[trigger] s[m]) || s[m]
                == '_' by {
                assert(s[m] == w[m - i]);
            }
            lemma_word_end_at(s, i + 1, e);
        },
        _ => {
            assert(s[i as int] == w[0]);
        },
    }
}

proof fn lemma_lex_rendered(s: Seq<char>, i: nat, ts: Seq<TokenView>)
    requires
        i <= s.len(),
        s.skip(i as int) == render(ts),
        forall|k: int| 0 <= k < ts.len() ==> renderable(#[trigger] ts[k]),
    ensures
        lex_from(s, i) matches Ok(us) && kinds(us) == kinds(ts),
    decreases ts.len(),
{
    if ts.len() == 0 {
        assert(s.skip(i as int).len() == 0);
        assert(kinds(Seq::<TokenView>::empty()) == kinds(ts));
    } else {
        let t = ts[0];
        let w = token_text(t);
        let n = w.len();
        let rest = ts.drop_first();
        assert(renderable(ts[0]));
        if ts.len() == 1 {
            assert(s.skip(i as int) == w);
        } else {
            assert(s.skip(i as int) == w + (seq![' '] + render(rest)));
        }
        assert(i + n <= s.len());
        assert(s.subrange(i as int, (i + n) as int) == w) by {
            assert forall|k: int| 0 <= k < n implies s.subrange(i as int, (i + n) as int)[k] == w[k] by {
                assert(s.skip(i as int)[k] == s[i + k]);
            }
        }
        if ts.len() > 1 {
            assert(s.skip(i as int)[n as int] == s[(i + n) as int]);
        }
        lemma_scan_rendered(s, i, t);
        assert(Source::skip_spaces_from(s, i) == i);
        let u = scan_token(s, i)->Ok_0.0;
        if ts.len() == 1 {
            assert(lex_from(s, i + n) == Ok::<Seq<TokenView>, crate::lexer::LexFailure>(Seq::empty()));
            assert(lex_from(s, i) == Ok::<Seq<TokenView>, crate::lexer::LexFailure>(seq![u]));
            assert(kinds(seq![u]) == kinds(ts));
        } else {
            let j = i + n + 1;
            assert forall|k: int| 0 <= k < rest.len() implies renderable(#[trigger] rest[k]) by {
                assert(rest[k] == ts[k + 1]);
            }
            assert(s.skip(j as int) == render(rest)) by {
                assert(s.skip(j as int) == s.skip(i as int).skip((n + 1) as int));
                assert((w + (seq![' '] + render(rest))).skip((n + 1) as int) == render(rest));
            }
            lemma_lex_rendered(s, j, rest);
            assert(render(rest).len() > 0) by {
                assert(renderable(rest[0]));
                lemma_text_nonempty(rest[0]);
                if rest.len() > 1 {
                    assert(render(rest) == token_text(rest[0]) + (seq![' '] + render(rest.drop_first())));
                }
            }
            assert(is_space(s[(i + n) as int]));
            assert(Source::skip_spaces_from(s, i + n) == Source::skip_spaces_from(s, j));
            assert(lex_from(s, i + n) == lex_from(s, j));
            let us = lex_from(s, j)->Ok_0;
            assert(lex_from(s, i) == Ok::<Seq<TokenView>, crate::lexer::LexFailure>(seq![u] + us));
            assert(kinds(seq![u] + us) == kinds(ts)) by {
                assert(kinds(seq![u] + us) =~= seq![kind(u)] + kinds(us));
                assert(kinds(ts) =~= seq![kind(t)] + kinds(rest));
            }
        }
    }
}

/// Lexing the rendered text of tokens gives back tokens of the same kinds
/// and values, in the same order; only positions may differ.
pub proof fn lemma_lex_round_trip(ts: Seq<TokenView>)
    requires
        forall|k: int| 0 <= k < ts.len() ==> renderable(#[trigger] ts[k]),
    ensures
        lex(render(ts)) matches Ok(us) && kinds(us) == kinds(ts),
{
    assert(render(ts).skip(0) == render(ts));
    lemma_lex_rendered(render(ts), 0, ts);
}

} // verus!
