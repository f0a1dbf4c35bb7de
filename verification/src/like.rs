//! Patterns as the index matches them against names: `%` stands for any run
//! of characters, `_` for any one character, and the letters `A` to `Z` and
//! `a` to `z` match without regard to case.

use crate::text::chars_of;
use vstd::prelude::*;

verus! {

/// The code of a character, that of `A` to `Z` moved to `a` to `z`.
pub open spec fn folded(c: char) -> u32 {
    if 'A' <= c <= 'Z' {
        (c as u32 + 32) as u32
    } else {
        c as u32
    }
}

/// Whether a character of a pattern, no `%`, matches a character of a name.
pub open spec fn one_matches(p: char, c: char) -> bool {
    p == '_' || folded(p) == folded(c)
}

/// Whether the whole of `text` matches `pattern`.
pub open spec fn like(pattern: Seq<char>, text: Seq<char>) -> bool
    decreases pattern.len(), text.len(),
{
    if pattern.len() == 0 {
        text.len() == 0
    } else if pattern[0] == '%' {
        like(pattern.drop_first(), text) || (text.len() > 0 && like(pattern, text.drop_first()))
    } else {
        text.len() > 0 && one_matches(pattern[0], text[0]) && like(
            pattern.drop_first(),
            text.drop_first(),
        )
    }
}

fn fold(c: char) -> (n: u32)
    ensures
        n == folded(c),
{
    if 'A' <= c && c <= 'Z' {
        c as u32 + 32
    } else {
        c as u32
    }
}

/// A row of `len` times `false`.
fn blank_row(len: usize) -> (row: Vec<bool>)
    ensures
        row.len() == len,
        forall|k: int| 0 <= k < len ==> !row[k],
{
    let mut row: Vec<bool> = Vec::new();
    while row.len() < len
        invariant
            row.len() <= len,
            forall|k: int| 0 <= k < row.len() ==> !row[k],
        decreases len - row.len(),
    {
        row.push(false);
    }
    row
}

/// Whether the whole of `text` matches `pattern`.
pub fn like_matches(pattern: &str, text: &str) -> (r: bool)
    ensures
        r == like(pattern@, text@),
{
    let p = chars_of(pattern);
    let t = chars_of(text);
    let n = p.len();
    let m = t.len();
    // row[j] tells whether the text from j on matches the pattern from i on,
    // and `end` tells the same of the empty rest of the text.
    let mut row = blank_row(m);
    let mut end = true;
    let mut i: usize = n;
    assert forall|j: int| 0 <= j < m implies row[j] == like(p@.skip(n as int), t@.skip(j)) by {
        assert(p@.skip(n as int).len() == 0);
    }
    assert(end == like(p@.skip(n as int), t@.skip(m as int)));
    while i > 0
        invariant
            p@ == pattern@,
            t@ == text@,
            n == p.len(),
            m == t.len(),
            i <= n,
            row.len() == m,
            forall|j: int| 0 <= j < m ==> row[j] == like(p@.skip(i as int), t@.skip(j)),
            end == like(p@.skip(i as int), t@.skip(m as int)),
        decreases i,
    {
        i -= 1;
        let c = p[i];
        let ghost here = p@.skip(i as int);
        assert(here.drop_first() == p@.skip(i + 1));
        assert(here[0] == c && here.len() > 0);
        assert(t@.skip(m as int).len() == 0);
        let mut next = blank_row(m);
        let next_end = c == '%' && end;
        if c == '%' {
            let mut j: usize = m;
            while j > 0
                invariant
                    j <= m,
                    m == t.len(),
                    next.len() == m,
                    row.len() == m,
                    here == p@.skip(i as int),
                    here.len() > 0,
                    here[0] == '%',
                    here.drop_first() == p@.skip(i + 1),
                    forall|k: int| 0 <= k < m ==> row[k] == like(p@.skip(i + 1), t@.skip(k)),
                    forall|k: int| j <= k < m ==> next[k] == like(here, t@.skip(k)),
                    next_end == like(here, t@.skip(m as int)),
                decreases j,
            {
                j -= 1;
                assert(t@.skip(j as int).drop_first() == t@.skip(j + 1));
                let after = if j + 1 == m {
                    next_end
                } else {
                    next[j + 1]
                };
                let v = row[j] || after;
                next.set(j, v);
            }
        } else {
            let mut j: usize = 0;
            while j < m
                invariant
                    j <= m,
                    m == t.len(),
                    next.len() == m,
                    row.len() == m,
                    here == p@.skip(i as int),
                    here.len() > 0,
                    here[0] == c,
                    c != '%',
                    here.drop_first() == p@.skip(i + 1),
                    forall|k: int| 0 <= k < m ==> row[k] == like(p@.skip(i + 1), t@.skip(k)),
                    end == like(p@.skip(i + 1), t@.skip(m as int)),
                    forall|k: int| 0 <= k < j ==> next[k] == like(here, t@.skip(k)),
                decreases m - j,
            {
                assert(t@.skip(j as int).drop_first() == t@.skip(j + 1));
                assert(t@.skip(j as int)[0] == t[j as int]);
                let after = if j + 1 == m {
                    end
                } else {
                    row[j + 1]
                };
                let v = (c == '_' || fold(c) == fold(t[j])) && after;
                next.set(j, v);
                j += 1;
            }
        }
        row = next;
        end = next_end;
    }
    assert(p@.skip(0) == p@ && t@.skip(0) == t@);
    if m == 0 {
        end
    } else {
        row[0]
    }
}

} // verus!
