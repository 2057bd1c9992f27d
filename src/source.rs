//! A program's text as an indexable sequence of characters with a cursor.

use vstd::prelude::*;

use crate::text::{chars_of, is_space, is_whitespace, string_of};

verus! {

/// Number of newline characters in `s`.
pub open spec fn newlines(s: Seq<char>) -> nat
    decreases s.len(),
{
    if s.len() == 0 {
        0
    } else {
        newlines(s.drop_last()) + if s.last() == '\n' { 1nat } else { 0nat }
    }
}

/// Number of characters after the last newline of `s` (all of them when
/// `s` holds none).
pub open spec fn since_newline(s: Seq<char>) -> nat
    decreases s.len(),
{
    if s.len() == 0 || s.last() == '\n' {
        0
    } else {
        since_newline(s.drop_last()) + 1
    }
}

/// 1-based line and column of the character at `offset`.
pub open spec fn position_of(s: Seq<char>, offset: nat) -> (nat, nat) {
    (newlines(s.take(offset as int)) + 1, since_newline(s.take(offset as int)) + 1)
}

/// Index of the first newline of `s`, or its length when it holds none.
pub open spec fn line_end(s: Seq<char>) -> nat
    decreases s.len(),
{
    if s.len() == 0 || s[0] == '\n' {
        0
    } else {
        line_end(s.drop_first()) + 1
    }
}

/// Text of the 1-based line `k` of `s`, without its newline; empty when
/// `s` has no such line.
pub open spec fn line_text(s: Seq<char>, k: nat) -> Seq<char>
    decreases s.len(),
{
    if k == 0 {
        Seq::empty()
    } else if k == 1 {
        s.take(line_end(s) as int)
    } else if line_end(s) >= s.len() {
        Seq::empty()
    } else {
        line_text(s.skip(line_end(s) + 1 as int), (k - 1) as nat)
    }
}

pub struct Source {
    src: Vec<char>,
    offset: usize,
    path: Option<String>,
}

impl Source {
    /// The characters of the text.
    pub closed spec fn chars(&self) -> Seq<char> {
        self.src@
    }

    /// Where the cursor stands.
    pub closed spec fn cursor(&self) -> nat {
        self.offset as nat
    }

    /// The name the text was read from, if any.
    pub closed spec fn name(&self) -> Option<String> {
        self.path
    }

    /// The cursor never passes the end, and every position up to one past
    /// the end fits in a `usize`.
    pub open spec fn wf(&self) -> bool {
        &&& self.cursor() <= self.chars().len()
        &&& self.chars().len() < usize::MAX
    }

    pub fn new(src: &str) -> (r: Self)
        requires
            src@.len() < usize::MAX,
        ensures
            r.wf(),
            r.chars() == src@,
            r.cursor() == 0,
            r.name() is None,
    {
        Source { offset: 0, src: chars_of(src), path: None }
    }

    /// A source that remembers the name of the file it was read from.
    pub fn named(src: &str, path: &str) -> (r: Self)
        requires
            src@.len() < usize::MAX,
        ensures
            r.wf(),
            r.chars() == src@,
            r.cursor() == 0,
            r.name() matches Some(n) && n@ == path@,
    {
        Source { offset: 0, src: chars_of(src), path: Some(path.to_owned()) }
    }

    pub fn path(&self) -> (r: Option<&str>)
        ensures
            r is None <==> self.name() is None,
            r matches Some(p) ==> self.name() matches Some(n) && p@ == n@,
    {
        match &self.path {
            Some(p) => Some(p.as_str()),
            None => None,
        }
    }

    pub fn finished(&self) -> (r: bool)
        ensures
            r == (self.chars().len() <= self.cursor()),
    {
        self.src.len() <= self.offset
    }

    pub fn offset(&self) -> (r: usize)
        ensures
            r == self.cursor(),
    {
        self.offset
    }

    pub fn src(&self) -> (r: &[char])
        ensures
            r@ == self.chars(),
    {
        self.src.as_slice()
    }

    pub fn as_string(&self) -> (r: String)
        ensures
            r@ == self.chars(),
    {
        string_of(self.src.as_slice())
    }

    /// The character under the cursor, if any.
    pub fn peek(&self) -> (r: Option<char>)
        ensures
            r == self.peek_spec(),
    {
        if self.offset < self.src.len() {
            Some(self.src[self.offset])
        } else {
            None
        }
    }

    /// Returns the character under the cursor and moves past it; past the
    /// end nothing moves.
    pub fn next(&mut self) -> (r: Option<char>)
        requires
            old(self).wf(),
        ensures
            final(self).wf(),
            final(self).chars() == old(self).chars(),
            final(self).name() == old(self).name(),
            r == old(self).peek_spec(),
            final(self).cursor() == if old(self).cursor() < old(self).chars().len() {
                old(self).cursor() + 1
            } else {
                old(self).cursor()
            },
    {
        if self.offset < self.src.len() {
            let c = self.src[self.offset];
            self.offset = self.offset + 1;
            Some(c)
        } else {
            None
        }
    }

    pub open spec fn peek_spec(&self) -> Option<char> {
        if self.cursor() < self.chars().len() {
            Some(self.chars()[self.cursor() as int])
        } else {
            None
        }
    }

    /// Index of the first character at or after `i` that is not white space.
    pub open spec fn skip_spaces_from(s: Seq<char>, i: nat) -> nat
        decreases s.len() - i,
    {
        if i < s.len() && is_space(s[i as int]) {
            Self::skip_spaces_from(s, i + 1)
        } else {
            i
        }
    }

    pub proof fn lemma_skip_spaces(s: Seq<char>, i: nat)
        ensures
            i <= Self::skip_spaces_from(s, i),
            i <= s.len() ==> Self::skip_spaces_from(s, i) <= s.len(),
            forall|k: int| i <= k < Self::skip_spaces_from(s, i) ==> is_space(#[trigger] s[k]),
            Self::skip_spaces_from(s, i) < s.len() ==> !is_space(
                s[Self::skip_spaces_from(s, i) as int],
            ),
        decreases s.len() - i,
    {
        if i < s.len() && is_space(s[i as int]) {
            Self::lemma_skip_spaces(s, i + 1);
        }
    }

    /// Moves the cursor past a maximal run of white space.
    pub fn skip_whitespace(&mut self)
        requires
            old(self).wf(),
        ensures
            final(self).wf(),
            final(self).chars() == old(self).chars(),
            final(self).name() == old(self).name(),
            final(self).cursor() == Self::skip_spaces_from(old(self).chars(), old(self).cursor()),
    {
        while self.offset < self.src.len() && is_whitespace(self.src[self.offset])
            invariant
                self.wf(),
                self.chars() == old(self).chars(),
                self.name() == old(self).name(),
                Self::skip_spaces_from(self.chars(), self.cursor())
                    == Self::skip_spaces_from(old(self).chars(), old(self).cursor()),
            decreases self.chars().len() - self.cursor(),
        {
            self.offset = self.offset + 1;
        }
    }

    /// 1-based line and column of the character at `offset`.
    pub fn get_position(&self, offset: usize) -> (r: (usize, usize))
        requires
            self.wf(),
            offset <= self.chars().len(),
        ensures
            (r.0 as nat, r.1 as nat) == position_of(self.chars(), offset as nat),
    {
        let ghost s = self.chars();
        let mut line: usize = 1;
        let mut column: usize = 1;
        let mut i: usize = 0;
        while i < offset
            invariant
                s == self.chars(),
                self.wf(),
                offset <= s.len(),
                i <= offset,
                (line as nat, column as nat) == position_of(s, i as nat),
                line <= i + 1,
                column <= i + 1,
            decreases offset - i,
        {
            assert(s.take(i + 1).drop_last() == s.take(i as int));
            if self.src[i] == '\n' {
                line = line + 1;
                column = 1;
            } else {
                column = column + 1;
            }
            i = i + 1;
        }
        (line, column)
    }

    /// Text of the 1-based line `line_number`, without its newline; empty
    /// when there is no such line.
    pub fn get_line(&self, line_number: usize) -> (r: String)
        requires
            self.wf(),
        ensures
            r@ == line_text(self.chars(), line_number as nat),
    {
        let ghost s = self.chars();
        if line_number == 0 {
            return String::new();
        }
        let mut current: usize = 1;
        let mut start: usize = 0;
        assert(s.skip(0) == s);
        loop
            invariant
                s == self.chars(),
                self.wf(),
                1 <= current <= line_number,
                start <= s.len(),
                line_text(s, line_number as nat)
                    == line_text(s.skip(start as int), (line_number - current + 1) as nat),
            decreases s.len() - start,
        {
            let mut end: usize = start;
            while end < self.src.len() && self.src[end] != '\n'
                invariant
                    s == self.chars(),
                    start <= end <= s.len(),
                    line_end(s.skip(start as int)) == (end - start) + line_end(s.skip(end as int)),
                decreases s.len() - end,
            {
                assert(s.skip(end as int).drop_first() == s.skip(end + 1));
                end = end + 1;
            }
            assert(line_end(s.skip(end as int)) == 0);
            assert(s.skip(start as int).take((end - start) as int) == s.subrange(start as int, end as int));
            if current == line_number {
                return string_of(vstd::slice::slice_subrange(self.src.as_slice(), start, end));
            }
            if end == self.src.len() {
                return String::new();
            }
            assert(s.skip(start as int).skip((end - start) + 1) == s.skip(end + 1));
            start = end + 1;
            current = current + 1;
        }
    }
}

} // verus!
