//! Lexical primitives: character classes, runs of characters, fixed literals,
//! and a text held for random access.
use vstd::prelude::*;
use vstd::string::*;
use crate::error::{reports, Expected, Outcome, ParseError};

verus! {

/// The character classes of the grammar.
#[derive(Debug, Clone, Copy, PartialEq, Eq)]
pub enum CharClass {
    /// Letters `k` to `z`: the alphabet of change ids.
    ChangeId,
    /// Digits `0` to `9` and letters `a` to `f`: the alphabet of commit ids.
    CommitId,
    /// Anything but `/` and line feed: the characters of a path segment.
    PathSegment,
    /// Space and tab.
    Blank,
    /// Anything but line feed.
    LineText,
}

impl CharClass {
    /// Whether `c` belongs to the class.
    pub open spec fn contains(self, c: char) -> bool {
        match self {
            CharClass::ChangeId => 'k' <= c && c <= 'z',
            CharClass::CommitId => ('0' <= c && c <= '9') || ('a' <= c && c <= 'f'),
            CharClass::PathSegment => c != '/' && c != '\n',
            CharClass::Blank => c == ' ' || c == '\t',
            CharClass::LineText => c != '\n',
        }
    }

    /// Tests whether `c` belongs to the class.
    pub fn accepts(&self, c: char) -> (r: bool)
        ensures
            r == self.contains(c),
    {
        match self {
            CharClass::ChangeId => 'k' <= c && c <= 'z',
            CharClass::CommitId => ('0' <= c && c <= '9') || ('a' <= c && c <= 'f'),
            CharClass::PathSegment => c != '/' && c != '\n',
            CharClass::Blank => c == ' ' || c == '\t',
            CharClass::LineText => c != '\n',
        }
    }
}

/// Every character of `t` belongs to `class`.
pub open spec fn all_in(t: Seq<char>, class: CharClass) -> bool {
    forall|i: int| 0 <= i < t.len() ==> class.contains(#[trigger] t[i])
}

/// The position just behind the longest run of `class` characters that starts
/// at `pos`; `pos` itself where there is none.
pub open spec fn span_end(s: Seq<char>, pos: int, class: CharClass) -> int
    decreases s.len() - pos,
{
    if 0 <= pos < s.len() && class.contains(s[pos]) {
        span_end(s, pos + 1, class)
    } else {
        pos
    }
}

/// A non-empty run of `class` characters at `pos`: the run and its end, or a
/// failure at `pos` that names `missing`.
pub open spec fn spec_run(s: Seq<char>, pos: int, class: CharClass, missing: Expected) -> Outcome<
    Seq<char>,
> {
    let end = span_end(s, pos, class);
    if end > pos {
        Outcome::Accept { value: s.subrange(pos, end), end }
    } else {
        Outcome::Reject { offset: pos, expected: missing }
    }
}

/// `lit` stands in `s` at `pos`.
pub open spec fn has_literal_at(s: Seq<char>, pos: int, lit: Seq<char>) -> bool {
    &&& 0 <= pos
    &&& pos + lit.len() <= s.len()
    &&& s.subrange(pos, pos + lit.len()) == lit
}

/// The run that starts at `pos` lies inside the text, holds only characters of
/// the class, and cannot be extended.
pub proof fn lemma_span_end(s: Seq<char>, pos: int, class: CharClass)
    requires
        0 <= pos <= s.len(),
    ensures
        pos <= span_end(s, pos, class) <= s.len(),
        all_in(s.subrange(pos, span_end(s, pos, class)), class),
        span_end(s, pos, class) < s.len() ==> !class.contains(s[span_end(s, pos, class)]),
    decreases s.len() - pos,
{
    if pos < s.len() && class.contains(s[pos]) {
        lemma_span_end(s, pos + 1, class);
        let e = span_end(s, pos, class);
        assert forall|i: int| 0 <= i < e - pos implies class.contains(
            #[trigger] s.subrange(pos, e)[i],
        ) by {
            if i > 0 {
                assert(s.subrange(pos, e)[i] == s.subrange(pos + 1, e)[i - 1]);
            }
        }
    }
}

/// A run is determined by where it stops: if every character from `pos` up to
/// `end` is in the class and the one at `end` (if any) is not, the run ends at
/// `end`.
pub proof fn lemma_span_end_is(s: Seq<char>, pos: int, end: int, class: CharClass)
    requires
        0 <= pos <= end <= s.len(),
        forall|i: int| pos <= i < end ==> class.contains(#[trigger] s[i]),
        end < s.len() ==> !class.contains(s[end]),
    ensures
        span_end(s, pos, class) == end,
    decreases end - pos,
{
    if pos < end {
        lemma_span_end_is(s, pos + 1, end, class);
    }
}

/// A text held both as the string slice it came from and as its characters,
/// so that a character is read in constant time and a range is copied out as a
/// `String`.
pub struct Source<'a> {
    text: &'a str,
    chars: Vec<char>,
}

impl<'a> View for Source<'a> {
    type V = Seq<char>;

    closed spec fn view(&self) -> Seq<char> {
        self.text@
    }
}

impl<'a> Source<'a> {
    #[verifier::type_invariant]
    spec fn consistent(self) -> bool {
        self.chars@ == self.text@
    }

    /// Holds `text` for parsing.
    pub fn new(text: &'a str) -> (src: Self)
        ensures
            src@ == text@,
    {
        let mut chars: Vec<char> = Vec::new();
        for c in it: text.chars()
            invariant
                it.seq() == text@,
                chars@ == it.seq().take(it.index() as int),
        {
            chars.push(c);
        }
        assert(chars@ == text@);
        Source { text, chars }
    }

    /// The number of characters.
    pub fn len(&self) -> (n: usize)
        ensures
            n == self@.len(),
    {
        proof {
            use_type_invariant(self);
        }
        self.chars.len()
    }

    /// The character at `i`.
    pub fn char_at(&self, i: usize) -> (c: char)
        requires
            i < self@.len(),
        ensures
            c == self@[i as int],
    {
        proof {
            use_type_invariant(self);
        }
        self.chars[i]
    }

    /// Whether the character `c` stands at `pos`. Where it does, `pos + 1` is
    /// a position of the text or its end, and fits.
    pub fn is_char_at(&self, pos: usize, c: char) -> (r: bool)
        ensures
            r == (pos < self@.len() && self@[pos as int] == c),
            r ==> pos < usize::MAX,
    {
        pos < self.len() && self.char_at(pos) == c
    }

    /// The characters from `from` up to `to` as a `String`.
    pub fn copy_range(&self, from: usize, to: usize) -> (r: String)
        requires
            from <= to <= self@.len(),
        ensures
            r@ == self@.subrange(from as int, to as int),
    {
        String::from_str(self.text.substring_char(from, to))
    }

    /// The text from `from` on, borrowed from the slice that is held.
    pub fn remainder(&self, from: usize) -> (r: &'a str)
        requires
            from <= self@.len(),
        ensures
            r@ == self@.skip(from as int),
    {
        proof {
            use_type_invariant(self);
        }
        self.text.substring_char(from, self.chars.len())
    }

    /// The end of the longest run of `class` characters that starts at `pos`.
    pub fn span(&self, pos: usize, class: CharClass) -> (end: usize)
        requires
            pos <= self@.len(),
        ensures
            end as int == span_end(self@, pos as int, class),
            pos <= end <= self@.len(),
    {
        let n = self.len();
        let mut i: usize = pos;
        while i < n && class.accepts(self.char_at(i))
            invariant
                pos <= i <= n,
                n == self@.len(),
                span_end(self@, pos as int, class) == span_end(self@, i as int, class),
            decreases n - i,
        {
            i += 1;
        }
        i
    }

    /// The position just behind `lit`, where `lit` stands at `pos`.
    pub fn after_literal(&self, pos: usize, lit: &str) -> (end: Option<usize>)
        requires
            pos <= self@.len(),
        ensures
            end is Some == has_literal_at(self@, pos as int, lit@),
            end matches Some(e) ==> e == pos + lit@.len(),
    {
        let n = self.len();
        let m = lit.unicode_len();
        if m > n - pos {
            return None;
        }
        let mut i: usize = 0;
        while i < m
            invariant
                i <= m,
                m == lit@.len(),
                n == self@.len(),
                pos + m <= n,
                forall|j: int| 0 <= j < i ==> self@[pos + j] == lit@[j],
            decreases m - i,
        {
            if self.char_at(pos + i) != lit.get_char(i) {
                return None;
            }
            i += 1;
        }
        assert(self@.subrange(pos as int, pos + m) =~= lit@);
        Some(pos + m)
    }

    /// The position just behind one or more blanks that start at `pos`; where
    /// there is none, a failure at `pos` that names the missing blanks.
    pub fn blanks(&self, pos: usize) -> (r: Result<usize, ParseError>)
        requires
            pos <= self@.len(),
        ensures
            r matches Ok(end) ==> end == span_end(self@, pos as int, CharClass::Blank) && pos
                < end <= self@.len(),
            r matches Err(failure) ==> span_end(self@, pos as int, CharClass::Blank) == pos
                && failure == (ParseError { offset: pos, expected: Expected::Whitespace }),
    {
        let end = self.span(pos, CharClass::Blank);
        if end == pos {
            Err(ParseError { offset: pos, expected: Expected::Whitespace })
        } else {
            Ok(end)
        }
    }

    /// A non-empty run of `class` characters that starts at `pos`, and the
    /// position just behind it; where there is none, the failure names
    /// `missing`.
    pub fn run(&self, pos: usize, class: CharClass, missing: Expected) -> (r: Result<
        (String, usize),
        ParseError,
    >)
        requires
            pos <= self@.len(),
        ensures
            reports(r, spec_run(self@, pos as int, class, missing)),
            r matches Ok((_, end)) ==> pos < end <= self@.len(),
    {
        let end = self.span(pos, class);
        if end == pos {
            Err(ParseError { offset: pos, expected: missing })
        } else {
            Ok((self.copy_range(pos, end), end))
        }
    }
}

} // verus!
