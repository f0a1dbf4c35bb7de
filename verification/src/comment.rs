//! The description that a doc comment gives of the declaration below it.

use crate::text::{
    has_prefix, join, join_lines, lines_of, split_lines, starts_with, texts, trim, trim_text,
};
use vstd::prelude::*;

verus! {

/// Whether a trimmed line of a comment is bookkeeping: the opening, the
/// closing, or a tag.
pub open spec fn is_bookkeeping(line: Seq<char>) -> bool {
    starts_with(line, "* @"@) || starts_with(line, "/**"@) || starts_with(line, "*/"@)
}

/// A trimmed line without the comment marker that it begins with.
pub open spec fn without_marker(line: Seq<char>) -> Seq<char> {
    if line.len() > 1 {
        trim(line.skip(1))
    } else {
        Seq::empty()
    }
}

/// The lines of a comment that describe: each line trimmed, the bookkeeping
/// lines left out, the others without their marker.
pub open spec fn body_lines(lines: Seq<Seq<char>>) -> Seq<Seq<char>>
    decreases lines.len(),
{
    if lines.len() == 0 {
        Seq::empty()
    } else {
        let line = trim(lines.last());
        if is_bookkeeping(line) {
            body_lines(lines.drop_last())
        } else {
            body_lines(lines.drop_last()).push(without_marker(line))
        }
    }
}

/// The description that a comment gives.
pub open spec fn description_of(comment: Seq<char>) -> Seq<char> {
    join_lines(body_lines(split_lines(comment)))
}

/// The description that a comment gives: its lines without the opening, the
/// closing and the tags, each without its marker, joined by line feeds.
pub fn describe(comment: &str) -> (description: String)
    ensures
        description@ == description_of(comment@),
{
    let lines = lines_of(comment);
    let mut body: Vec<String> = Vec::new();
    let mut i: usize = 0;
    while i < lines.len()
        invariant
            i <= lines.len(),
            texts(body@) == body_lines(texts(lines@).take(i as int)),
        decreases lines.len() - i,
    {
        proof {
            let now = texts(lines@).take(i + 1);
            assert(now.drop_last() == texts(lines@).take(i as int));
            assert(now.last() == lines@[i as int]@);
        }
        let line = trim_text(lines[i].as_str());
        let bookkeeping = has_prefix(line.as_str(), "* @") || has_prefix(line.as_str(), "/**")
            || has_prefix(line.as_str(), "*/");
        if !bookkeeping {
            let n = line.as_str().unicode_len();
            let rest = if n > 1 {
                assert(line@.subrange(1, n as int) == line@.skip(1));
                trim_text(line.as_str().substring_char(1, n))
            } else {
                String::new()
            };
            let ghost before = texts(body@);
            body.push(rest);
            assert(texts(body@) =~= before.push(rest@));
        }
        i += 1;
    }
    assert(texts(lines@).take(lines.len() as int) == texts(lines@));
    join(&body)
}

} // verus!
