//! Position bookkeeping for diagnostics, and line extraction from source
//! text.

use vstd::prelude::*;

verus! {

/// Spec-level counterpart of [`RangedPos`]: 1-based line and column plus
/// the width of the covered span, as unbounded integers.
pub struct SpecPos {
    pub line: int,
    pub char_: int,
    pub width: int,
}

/// A line/column position together with the width of the source span it
/// covers. Lines and columns are 1-based. Used only for diagnostics.
#[derive(Debug, Clone, Copy, PartialEq, Eq, Structural)]
pub struct RangedPos {
    pub line: usize,
    pub char_: usize,
    pub width: usize,
}

impl View for RangedPos {
    type V = SpecPos;

    open spec fn view(&self) -> SpecPos {
        SpecPos { line: self.line as int, char_: self.char_ as int, width: self.width as int }
    }
}

/// A cursor position while scanning: 1-based line and column of the next
/// character to be read.
#[derive(Debug, Clone, Copy, PartialEq, Eq, Structural)]
pub struct Pos {
    pub line: usize,
    pub char_: usize,
}

impl Pos {
    /// Move one character to the right on the current line.
    pub fn advance(&mut self)
        requires
            old(self).char_ < usize::MAX,
        ensures
            final(self).char_ == old(self).char_ + 1,
            final(self).line == old(self).line,
    {
        self.char_ = self.char_ + 1;
    }

    /// Move to the first column of the next line.
    pub fn newline(&mut self)
        requires
            old(self).line < usize::MAX,
        ensures
            final(self).line == old(self).line + 1,
            final(self).char_ == 1,
    {
        self.char_ = 1;
        self.line = self.line + 1;
    }

    /// Produce a diagnostic position for the inclusive character-index
    /// range `start..=end` within the current line: the span starts at
    /// this cursor position and is `end - start + 1` characters wide.
    pub fn into_ranged(&self, start: usize, end: usize) -> (r: RangedPos)
        requires
            start <= end,
            end - start < usize::MAX,
        ensures
            r@ == (SpecPos { line: self.line as int, char_: self.char_ as int, width: end - start + 1 }),
    {
        RangedPos { line: self.line, char_: self.char_, width: end - start + 1 }
    }
}

impl Default for Pos {
    /// The start of a text: line 1, column 1.
    fn default() -> (r: Self)
        ensures
            r.line == 1,
            r.char_ == 1,
    {
        Pos { line: 1, char_: 1 }
    }
}

/// Index of the end of the line that starts at or contains index `i`:
/// the first index `j >= i` holding `'\n'`, or the text length if the
/// rest of the text holds no newline.
pub open spec fn spec_line_end(s: Seq<char>, i: int) -> int
    decreases s.len() - i,
{
    if i < 0 {
        0
    } else if i >= s.len() {
        s.len() as int
    } else if s[i] == '\n' {
        i
    } else {
        spec_line_end(s, i + 1)
    }
}

/// Index of the first character of the 0-based line `n`, when the text
/// is split on `'\n'`. Once past the last line this saturates at one
/// past the text length; line `n` exists exactly when the result is
/// smaller than the text length.
pub open spec fn spec_line_start(s: Seq<char>, n: nat) -> int
    decreases n,
{
    if n == 0 {
        0
    } else {
        spec_line_end(s, spec_line_start(s, (n - 1) as nat)) + 1
    }
}

/// The text of the 0-based line `n`, without its trailing newline.
pub open spec fn spec_line(s: Seq<char>, n: nat) -> Seq<char> {
    s.subrange(spec_line_start(s, n), spec_line_end(s, spec_line_start(s, n)))
}

proof fn lemma_line_end_char(s: Seq<char>, i: int, j: int)
    requires
        0 <= i <= j <= s.len(),
        forall|k: int| i <= k < j ==> s[k] != '\n',
        j == s.len() || s[j] == '\n',
    ensures
        spec_line_end(s, i) == j,
    decreases j - i,
{
    if i < j {
        lemma_line_end_char(s, i + 1, j);
    }
}

proof fn lemma_line_start_saturates(s: Seq<char>, k: nat, n: nat)
    requires
        k <= n,
        spec_line_start(s, k) == s.len() + 1,
    ensures
        spec_line_start(s, n) == s.len() + 1,
    decreases n - k,
{
    if k < n {
        lemma_line_start_saturates(s, (k + 1) as nat, n);
    }
}

/// Scan for the end of the line starting at `start`.
fn line_end_from(s: &str, start: usize, len: usize) -> (e: usize)
    requires
        len == s@.len(),
        start <= len,
    ensures
        e as int == spec_line_end(s@, start as int),
        start <= e <= len,
{
    let mut j: usize = start;
    while j < len && s.get_char(j) != '\n'
        invariant
            start <= j <= len,
            len == s@.len(),
            forall|k: int| start <= k < j ==> s@[k] != '\n',
        decreases len - j,
    {
        j = j + 1;
    }
    proof {
        lemma_line_end_char(s@, start as int, j as int);
    }
    j
}

/// The 0-based line `n` of `s`, as the slice between the surrounding
/// newlines, or `None` when `s` has fewer than `n + 1` lines.
pub fn get_line<'a>(n: usize, s: &'a str) -> (r: Option<&'a str>)
    ensures
        match r {
            Some(t) => spec_line_start(s@, n as nat) < s@.len() && t@ == spec_line(s@, n as nat),
            None => spec_line_start(s@, n as nat) >= s@.len(),
        },
{
    let len = s.unicode_len();
    let mut k: usize = 0;
    let mut start: usize = 0;
    while k < n
        invariant
            k <= n,
            start <= len,
            len == s@.len(),
            start as int == spec_line_start(s@, k as nat),
        decreases n - k,
    {
        let e = line_end_from(s, start, len);
        if e == len {
            proof {
                assert(spec_line_start(s@, (k + 1) as nat) == s@.len() + 1);
                lemma_line_start_saturates(s@, (k + 1) as nat, n as nat);
            }
            return None;
        }
        start = e + 1;
        k = k + 1;
    }
    if start == len {
        return None;
    }
    let e = line_end_from(s, start, len);
    Some(s.substring_char(start, e))
}

} // verus!
