//! Text as sequences of characters: trimming, splitting into lines, prefixes.

use vstd::prelude::*;

verus! {

/// White space as Unicode defines it (the property `White_Space`).
pub open spec fn is_white_space(c: char) -> bool {
    let n = c as u32;
    ||| 0x09 <= n <= 0x0D
    ||| n == 0x20
    ||| n == 0x85
    ||| n == 0xA0
    ||| n == 0x1680
    ||| 0x2000 <= n <= 0x200A
    ||| n == 0x2028
    ||| n == 0x2029
    ||| n == 0x202F
    ||| n == 0x205F
    ||| n == 0x3000
}

/// Number of white-space characters at the start of `s`.
pub open spec fn leading_space(s: Seq<char>) -> nat
    decreases s.len(),
{
    if s.len() > 0 && is_white_space(s[0]) {
        1 + leading_space(s.drop_first())
    } else {
        0
    }
}

/// Number of white-space characters at the end of `s`.
pub open spec fn trailing_space(s: Seq<char>) -> nat
    decreases s.len(),
{
    if s.len() > 0 && is_white_space(s.last()) {
        1 + trailing_space(s.drop_last())
    } else {
        0
    }
}

/// `s` without the white space at its start.
pub open spec fn trim_start(s: Seq<char>) -> Seq<char> {
    s.skip(leading_space(s) as int)
}

/// `s` without the white space at its start and at its end.
pub open spec fn trim(s: Seq<char>) -> Seq<char> {
    let t = trim_start(s);
    t.take(t.len() - trailing_space(t))
}

/// Whether `s` begins with `prefix`.
pub open spec fn starts_with(s: Seq<char>, prefix: Seq<char>) -> bool {
    prefix.len() <= s.len() && s.take(prefix.len() as int) == prefix
}

/// Index of the first `c` in `s`, or the length of `s` where there is none.
pub open spec fn find_char(s: Seq<char>, c: char) -> nat
    decreases s.len(),
{
    if s.len() > 0 && s[0] != c {
        1 + find_char(s.drop_first(), c)
    } else {
        0
    }
}

/// The pieces of `s` between its line feeds: one more than there are line feeds.
pub open spec fn split_lines(s: Seq<char>) -> Seq<Seq<char>>
    decreases s.len(),
{
    let k = find_char(s, '\n') as int;
    if k < s.len() {
        seq![s.take(k)] + split_lines(s.skip(k + 1))
    } else {
        seq![s]
    }
}

/// The lines put together again, with a line feed between two of them.
pub open spec fn join_lines(lines: Seq<Seq<char>>) -> Seq<char>
    decreases lines.len(),
{
    if lines.len() == 0 {
        Seq::empty()
    } else if lines.len() == 1 {
        lines[0]
    } else {
        join_lines(lines.drop_last()) + seq!['\n'] + lines.last()
    }
}

/// What `find_char` gives is the index of the first such character.
pub proof fn lemma_find_char_bound(s: Seq<char>, c: char)
    ensures
        find_char(s, c) <= s.len(),
        forall|i: int| 0 <= i < find_char(s, c) ==> #[trigger] s[i] != c,
        find_char(s, c) < s.len() ==> s[find_char(s, c) as int] == c,
    decreases s.len(),
{
    if s.len() > 0 && s[0] != c {
        let t = s.drop_first();
        lemma_find_char_bound(t, c);
        assert forall|i: int| 0 <= i < find_char(s, c) implies #[trigger] s[i] != c by {
            if i > 0 {
                assert(s[i] == t[i - 1]);
            }
        }
        if find_char(s, c) < s.len() {
            assert(s[find_char(s, c) as int] == t[find_char(t, c) as int]);
        }
    }
}

/// Whether `c` is white space.
pub fn is_whitespace(c: char) -> (r: bool)
    ensures
        r == is_white_space(c),
{
    let n: u32 = c as u32;
    (0x09 <= n && n <= 0x0D) || n == 0x20 || n == 0x85 || n == 0xA0 || n == 0x1680 || (0x2000
        <= n && n <= 0x200A) || n == 0x2028 || n == 0x2029 || n == 0x202F || n == 0x205F || n
        == 0x3000
}

/// The characters of `s`.
pub fn chars_of(s: &str) -> (v: Vec<char>)
    ensures
        v@ == s@,
{
    broadcast use vstd::string::group_string_axioms;

    let mut v: Vec<char> = Vec::new();
    for c in it: s.chars()
        invariant
            it.seq() == s@,
            v@ == it.seq().take(it.index() as int),
    {
        assert(it.seq().take(it.index() + 1) == it.seq().take(it.index() as int).push(c));
        v.push(c);
    }
    assert(s@.take(s@.len() as int) == s@);
    v
}

/// The views of a list of strings.
pub open spec fn texts(v: Seq<String>) -> Seq<Seq<char>> {
    Seq::new(v.len(), |i: int| v[i]@)
}

/// An index of the character before which it does not occur is what
/// `find_char` gives.
pub proof fn lemma_find_char_is(s: Seq<char>, c: char, k: int)
    requires
        0 <= k <= s.len(),
        forall|i: int| 0 <= i < k ==> #[trigger] s[i] != c,
        k < s.len() ==> s[k] == c,
    ensures
        find_char(s, c) == k,
{
    lemma_find_char_bound(s, c);
}

/// `s` without the white space around it.
pub fn trim_text(s: &str) -> (r: String)
    ensures
        r@ == trim(s@),
{
    let chars = chars_of(s);
    let n = chars.len();
    let mut start: usize = 0;
    assert(s@.skip(0) == s@);
    while start < n && is_whitespace(chars[start])
        invariant
            n == chars.len(),
            chars@ == s@,
            start <= n,
            leading_space(s@) == start + leading_space(s@.skip(start as int)),
        decreases n - start,
    {
        assert(s@.skip(start as int).drop_first() == s@.skip(start + 1));
        start += 1;
    }
    let ghost t = s@.skip(start as int);
    assert(t == trim_start(s@));
    let mut end: usize = n;
    assert(t.take(n - start) == t);
    while end > start && is_whitespace(chars[end - 1])
        invariant
            n == chars.len(),
            chars@ == s@,
            start <= end <= n,
            t == s@.skip(start as int),
            trailing_space(t) == (n - end) + trailing_space(t.take(end - start)),
        decreases end,
    {
        assert(t.take(end - start).drop_last() == t.take(end - start - 1));
        end -= 1;
    }
    assert(t.take(end - start) == s@.subrange(start as int, end as int));
    String::from_str(s.substring_char(start, end))
}

/// Whether `s` begins with `prefix`.
pub fn has_prefix(s: &str, prefix: &str) -> (r: bool)
    ensures
        r == starts_with(s@, prefix@),
{
    let text = chars_of(s);
    let head = chars_of(prefix);
    if head.len() > text.len() {
        return false;
    }
    let mut i: usize = 0;
    while i < head.len()
        invariant
            text@ == s@,
            head@ == prefix@,
            head.len() <= text.len(),
            i <= head.len(),
            s@.take(i as int) == prefix@.take(i as int),
        decreases head.len() - i,
    {
        if text[i] != head[i] {
            assert(s@.take(prefix@.len() as int)[i as int] != prefix@[i as int]);
            return false;
        }
        assert(s@.take(i + 1) == s@.take(i as int).push(s@[i as int]));
        assert(prefix@.take(i + 1) == prefix@.take(i as int).push(prefix@[i as int]));
        i += 1;
    }
    assert(prefix@.take(prefix@.len() as int) == prefix@);
    true
}

/// The pieces of `s` between its line feeds.
pub fn lines_of(s: &str) -> (lines: Vec<String>)
    ensures
        texts(lines@) == split_lines(s@),
{
    let chars = chars_of(s);
    let n = chars.len();
    let mut lines: Vec<String> = Vec::new();
    let mut start: usize = 0;
    let mut i: usize = 0;
    assert(s@.skip(0) == s@);
    assert(texts(lines@) + split_lines(s@) == split_lines(s@));
    while i < n
        invariant
            n == chars.len(),
            chars@ == s@,
            start <= i <= n,
            forall|k: int| start <= k < i ==> s@[k] != '\n',
            split_lines(s@) == texts(lines@) + split_lines(s@.skip(start as int)),
        decreases n - i,
    {
        if chars[i] == '\n' {
            let piece = String::from_str(s.substring_char(start, i));
            proof {
                let rest = s@.skip(start as int);
                lemma_find_char_is(rest, '\n', i - start);
                assert(rest.take(i - start) == s@.subrange(start as int, i as int));
                assert(rest.skip(i - start + 1) == s@.skip(i + 1));
                assert(texts(lines@.push(piece)) == texts(lines@) + seq![piece@]);
            }
            lines.push(piece);
            start = i + 1;
        }
        i += 1;
    }
    let piece = String::from_str(s.substring_char(start, n));
    proof {
        let rest = s@.skip(start as int);
        lemma_find_char_is(rest, '\n', rest.len() as int);
        assert(rest == s@.subrange(start as int, n as int));
        assert(texts(lines@.push(piece)) == texts(lines@) + seq![piece@]);
    }
    lines.push(piece);
    lines
}

/// The lines put together with a line feed between two of them.
pub fn join(lines: &Vec<String>) -> (r: String)
    ensures
        r@ == join_lines(texts(lines@)),
{
    let mut r = String::new();
    let mut i: usize = 0;
    while i < lines.len()
        invariant
            i <= lines.len(),
            r@ == join_lines(texts(lines@).take(i as int)),
        decreases lines.len() - i,
    {
        proof {
            reveal_strlit("\n");
            let now = texts(lines@).take(i + 1);
            assert(now.drop_last() == texts(lines@).take(i as int));
            assert(now.last() == lines@[i as int]@);
        }
        if i > 0 {
            r.append("\n");
            assert("\n"@ == seq!['\n']);
        }
        r.append(lines[i].as_str());
        i += 1;
    }
    assert(texts(lines@).take(lines.len() as int) == texts(lines@));
    r
}

/// Whether two texts are the same.
pub fn same_text(a: &str, b: &str) -> (same: bool)
    ensures
        same == (a@ == b@),
{
    String::from_str(a) == String::from_str(b)
}

/// `a` followed by `b`.
pub fn append(a: &str, b: &str) -> (joined: String)
    ensures
        joined@ == a@ + b@,
{
    String::from_str(a).concat(b)
}

} // verus!
