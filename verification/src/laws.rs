//! What holds of the index, of the tables and of patterns, whatever they hold.

use crate::db::{
    has_key, key_position, keys_unique, lemma_key_position, lemma_key_position_is, lemma_max_id,
    lemma_upsert_keeps_keys_unique, max_id, moved, out_of_ids, rows_keyed, stored, upsert,
    ClassRecordView,
};
use crate::indexer::{all_ascii, reindexed, reindexed_from, SourceFile};
use crate::completion::{label_of, member_pattern};
use crate::like::{folded, like};
use crate::resolver::{assigned_type, variable_table};
use crate::syntax::{QueryError, QueryMatchView};
use crate::text::{is_white_space, leading_space, trailing_space, trim, trim_start};
use vstd::prelude::*;

verus! {

/// Among rows whose keys are apart, a name in a document has the one row at
/// its key position, or none.
pub proof fn lemma_one_row_per_key(rows: Seq<ClassRecordView>, fqn: Seq<char>, uri: Seq<char>)
    requires
        keys_unique(rows),
    ensures
        key_position(rows, fqn, uri) < rows.len() ==> rows_keyed(rows, fqn, uri) == seq![
            rows[key_position(rows, fqn, uri) as int],
        ],
        key_position(rows, fqn, uri) >= rows.len() ==> rows_keyed(rows, fqn, uri).len() == 0,
    decreases rows.len(),
{
    reveal(Seq::filter);
    lemma_key_position(rows, fqn, uri);
    if rows.len() > 0 {
        let init = rows.drop_last();
        assert forall|i: int, j: int| 0 <= i < j < init.len() implies !has_key(
            #[trigger] init[i],
            (#[trigger] init[j]).fqn,
            init[j].location.uri,
        ) by {
            assert(init[i] == rows[i] && init[j] == rows[j]);
        }
        lemma_one_row_per_key(init, fqn, uri);
        lemma_key_position(init, fqn, uri);
        if has_key(rows.last(), fqn, uri) {
            assert forall|i: int| 0 <= i < init.len() implies !has_key(
                #[trigger] rows[i],
                fqn,
                uri,
            ) by {
                assert(!has_key(rows[i], rows[rows.len() - 1].fqn, rows[rows.len() - 1].location.uri));
            }
            if key_position(init, fqn, uri) < init.len() {
                assert(init[key_position(init, fqn, uri) as int] == rows[key_position(
                    init,
                    fqn,
                    uri,
                ) as int]);
            }
            lemma_key_position_is(rows, fqn, uri, rows.len() - 1);
            assert(rows_keyed(rows, fqn, uri) =~= seq![rows.last()]);
        } else {
            if key_position(init, fqn, uri) < init.len() {
                let k = key_position(init, fqn, uri) as int;
                assert(init[k] == rows[k]);
                assert forall|i: int| 0 <= i < k implies !has_key(#[trigger] rows[i], fqn, uri) by {
                    assert(rows[i] == init[i]);
                }
                lemma_key_position_is(rows, fqn, uri, k);
            } else {
                assert forall|i: int| 0 <= i < rows.len() implies !has_key(
                    #[trigger] rows[i],
                    fqn,
                    uri,
                ) by {
                    if i < init.len() {
                        assert(rows[i] == init[i]);
                    }
                }
                lemma_key_position_is(rows, fqn, uri, rows.len() as int);
            }
        }
    }
}

/// Saving a record for the same name in the same document a second time
/// adds no row: the second save cannot fail, the index has as many rows as
/// after the first, and the one row for that name in that document is the
/// row of the first save, moved to the second record's place.
pub proof fn lemma_save_twice(
    rows: Seq<ClassRecordView>,
    first: ClassRecordView,
    second: ClassRecordView,
)
    requires
        keys_unique(rows),
        second.fqn == first.fqn,
        second.location.uri == first.location.uri,
        !out_of_ids(rows, first),
    ensures
        !out_of_ids(upsert(rows, first), second),
        upsert(upsert(rows, first), second).len() == upsert(rows, first).len(),
        rows_keyed(upsert(rows, first), first.fqn, first.location.uri).len() == 1,
        rows_keyed(upsert(upsert(rows, first), second), first.fqn, first.location.uri) == seq![
            moved(rows_keyed(upsert(rows, first), first.fqn, first.location.uri)[0], second),
        ],
{
    let fqn = first.fqn;
    let uri = first.location.uri;
    let once = upsert(rows, first);
    let twice = upsert(once, second);
    lemma_key_position(rows, fqn, uri);
    lemma_upsert_keeps_keys_unique(rows, first);
    let k = key_position(rows, fqn, uri) as int;
    assert(has_key(once[k], fqn, uri));
    assert forall|i: int| 0 <= i < k implies !has_key(#[trigger] once[i], fqn, uri) by {
        assert(once[i] == rows[i]);
    }
    lemma_key_position_is(once, fqn, uri, k);
    lemma_one_row_per_key(once, fqn, uri);
    lemma_upsert_keeps_keys_unique(once, second);
    assert(twice == once.update(k, moved(once[k], second)));
    assert(has_key(twice[k], fqn, uri));
    assert forall|i: int| 0 <= i < k implies !has_key(#[trigger] twice[i], fqn, uri) by {
        assert(twice[i] == rows[i]);
    }
    lemma_key_position_is(twice, fqn, uri, k);
    lemma_one_row_per_key(twice, fqn, uri);
}

/// Building an index anew a second time, from documents that are found to
/// declare the same as the first time, leaves the rows of the first time:
/// the same names, ids and places. What the index held before does not
/// matter.
pub proof fn lemma_reindex_is_idempotent(
    before: Seq<ClassRecordView>,
    other: Seq<ClassRecordView>,
    declared: Seq<Result<Seq<ClassRecordView>, QueryError>>,
)
    ensures
        reindexed_from(reindexed_from(before, declared), declared) == reindexed_from(
            before,
            declared,
        ),
        reindexed_from(other, declared) == reindexed_from(before, declared),
{
}

/// Building the index of a project of ASCII files anew a second time leaves
/// the rows of the first time. Files that are not ASCII are left out: what
/// the parser finds in them is not theirs alone to decide.
pub proof fn lemma_reindex_of_ascii_files_is_idempotent(
    before: Seq<ClassRecordView>,
    other: Seq<ClassRecordView>,
    files: Seq<SourceFile>,
)
    requires
        all_ascii(files),
    ensures
        reindexed(reindexed(before, files), files) == reindexed(before, files),
        reindexed(other, files) == reindexed(before, files),
{
}

/// The first assignment to a variable decides its type: what the table
/// holds for a variable after some assignments, it holds after more.
pub proof fn lemma_first_assignment_wins(
    source: Seq<u8>,
    aliases: Map<Seq<char>, Seq<char>>,
    found: Seq<QueryMatchView>,
    seen: int,
    variable: Seq<char>,
)
    requires
        0 <= seen <= found.len(),
        variable_table(source, aliases, found.take(seen)).contains_key(variable),
    ensures
        variable_table(source, aliases, found).contains_key(variable),
        variable_table(source, aliases, found)[variable] == variable_table(
            source,
            aliases,
            found.take(seen),
        )[variable],
    decreases found.len() - seen,
{
    if seen < found.len() {
        let init = found.drop_last();
        assert(init.take(seen) == found.take(seen));
        lemma_first_assignment_wins(source, aliases, init, seen, variable);
    } else {
        assert(found.take(seen) == found);
    }
}

/// Every text matches the pattern `%`.
pub proof fn lemma_like_any(text: Seq<char>)
    ensures
        like(seq!['%'], text),
    decreases text.len(),
{
    let pattern = seq!['%'];
    assert(pattern[0] == '%');
    if text.len() > 0 {
        lemma_like_any(text.drop_first());
    } else {
        assert(pattern.drop_first().len() == 0);
        assert(like(pattern.drop_first(), text));
    }
}

/// A pattern that is plain text followed by `%` matches the texts that
/// begin with the plain text, a letter of `A` to `Z` standing for its small
/// letter too: the lookup by the prefix of a class finds its members and no
/// others.
pub proof fn lemma_like_prefix(prefix: Seq<char>, text: Seq<char>)
    requires
        forall|i: int| 0 <= i < prefix.len() ==> prefix[i] != '%' && prefix[i] != '_',
    ensures
        like(prefix + seq!['%'], text) <==> prefix.len() <= text.len() && forall|i: int|
            0 <= i < prefix.len() ==> folded(prefix[i]) == folded(#[trigger] text[i]),
    decreases prefix.len(),
{
    let pattern = prefix + seq!['%'];
    if prefix.len() == 0 {
        assert(pattern == seq!['%']);
        lemma_like_any(text);
    } else {
        assert(pattern[0] == prefix[0]);
        assert(pattern.drop_first() == prefix.drop_first() + seq!['%']);
        if text.len() > 0 {
            let rest = prefix.drop_first();
            let tail = text.drop_first();
            lemma_like_prefix(rest, tail);
            if like(pattern, text) {
                assert forall|i: int| 0 <= i < prefix.len() implies folded(prefix[i]) == folded(
                    #[trigger] text[i],
                ) by {
                    if i > 0 {
                        assert(prefix[i] == rest[i - 1]);
                        assert(text[i] == tail[i - 1]);
                    }
                }
            }
            if prefix.len() <= text.len() && forall|i: int|
                0 <= i < prefix.len() ==> folded(prefix[i]) == folded(#[trigger] text[i]) {
                assert(folded(prefix[0]) == folded(text[0]));
                assert forall|i: int| 0 <= i < rest.len() implies folded(rest[i]) == folded(
                    #[trigger] tail[i],
                ) by {
                    assert(rest[i] == prefix[i + 1]);
                    assert(tail[i] == text[i + 1]);
                }
            }
        }
    }
}

/// The members found for a class are named after it: where the name of a
/// class holds neither `%` nor `_`, a name that matches the pattern of its
/// members begins with the name of the class, but for the case of letters,
/// and with two colons, and what follows them is the label.
pub proof fn lemma_members_are_named_after_the_class(class: Seq<char>, fqn: Seq<char>)
    requires
        forall|i: int| 0 <= i < class.len() ==> class[i] != '%' && class[i] != '_',
        like(member_pattern(class), fqn),
    ensures
        fqn.len() >= class.len() + 2,
        forall|i: int| 0 <= i < class.len() ==> folded(class[i]) == folded(#[trigger] fqn[i]),
        fqn[class.len() as int] == ':',
        fqn[class.len() as int + 1] == ':',
        fqn == fqn.take(class.len() as int + 2) + label_of(class, fqn),
{
    reveal_strlit("::%");
    let prefix = class + seq![':', ':'];
    assert(member_pattern(class) =~= prefix + seq!['%']);
    lemma_like_prefix(prefix, fqn);
    assert forall|i: int| 0 <= i < class.len() implies folded(class[i]) == folded(
        #[trigger] fqn[i],
    ) by {
        assert(prefix[i] == class[i]);
    }
    assert(prefix[class.len() as int] == ':');
    assert(prefix[class.len() as int + 1] == ':');
    let first = fqn[class.len() as int];
    let second = fqn[class.len() as int + 1];
    assert(folded(':') == folded(first) && folded(':') == folded(second));
    assert(':' as u32 == 58 && 'A' as u32 == 65 && 'Z' as u32 == 90);
    assert(first as u32 == 58 && second as u32 == 58);
    vstd::utf8::char_u32_cast(first, 58u32);
    vstd::utf8::char_u32_cast(second, 58u32);
    vstd::utf8::char_u32_cast(':', 58u32);
    assert(fqn =~= fqn.take(class.len() as int + 2) + label_of(class, fqn));
}

/// The white space counted at the start of a text is white space, and what
/// follows it is none.
pub proof fn lemma_leading_space_bound(s: Seq<char>)
    ensures
        leading_space(s) <= s.len(),
        forall|i: int| 0 <= i < leading_space(s) ==> is_white_space(#[trigger] s[i]),
        leading_space(s) < s.len() ==> !is_white_space(s[leading_space(s) as int]),
    decreases s.len(),
{
    if s.len() > 0 && is_white_space(s[0]) {
        let t = s.drop_first();
        lemma_leading_space_bound(t);
        assert forall|i: int| 0 <= i < leading_space(s) implies is_white_space(#[trigger] s[i]) by {
            if i > 0 {
                assert(s[i] == t[i - 1]);
            }
        }
        if leading_space(s) < s.len() {
            assert(s[leading_space(s) as int] == t[leading_space(t) as int]);
        }
    }
}

/// The white space counted at the end of a text is white space, and what
/// stands before it is none.
pub proof fn lemma_trailing_space_bound(s: Seq<char>)
    ensures
        trailing_space(s) <= s.len(),
        forall|i: int| s.len() - trailing_space(s) <= i < s.len() ==> is_white_space(#[trigger] s[i]),
        trailing_space(s) < s.len() ==> !is_white_space(s[s.len() - trailing_space(s) - 1]),
    decreases s.len(),
{
    if s.len() > 0 && is_white_space(s.last()) {
        let t = s.drop_last();
        lemma_trailing_space_bound(t);
        assert forall|i: int| s.len() - trailing_space(s) <= i < s.len() implies is_white_space(
            #[trigger] s[i],
        ) by {
            if i < s.len() - 1 {
                assert(s[i] == t[i]);
            }
        }
        if trailing_space(s) < s.len() {
            assert(s[s.len() - trailing_space(s) - 1] == t[t.len() - trailing_space(t) - 1]);
        }
    }
}

/// A trimmed text is a stretch of the text, what was cut off is white
/// space, and the trimmed text neither begins nor ends with white space.
pub proof fn lemma_trim_is_trimmed(s: Seq<char>)
    ensures
        leading_space(s) + trim(s).len() + trailing_space(trim_start(s)) == s.len(),
        trim(s) == s.subrange(leading_space(s) as int, (leading_space(s) + trim(s).len()) as int),
        forall|i: int|
            0 <= i < s.len() && !(leading_space(s) <= i < leading_space(s) + trim(s).len())
                ==> is_white_space(#[trigger] s[i]),
        trim(s).len() > 0 ==> !is_white_space(trim(s)[0]) && !is_white_space(trim(s).last()),
{
    lemma_leading_space_bound(s);
    let t = trim_start(s);
    lemma_trailing_space_bound(t);
    assert(trim(s) =~= s.subrange(leading_space(s) as int, (leading_space(s) + trim(s).len()) as int));
    assert forall|i: int|
        0 <= i < s.len() && !(leading_space(s) <= i < leading_space(s) + trim(s).len())
            implies is_white_space(#[trigger] s[i]) by {
        if i >= leading_space(s) {
            assert(s[i] == t[i - leading_space(s)]);
        }
    }
    if trim(s).len() > 0 {
        assert(trim(s)[0] == s[leading_space(s) as int]);
        assert(trim(s).last() == t[t.len() - trailing_space(t) - 1]);
    }
}

/// The id that a new row gets is the id of no row of the index.
pub proof fn lemma_new_id_is_fresh(rows: Seq<ClassRecordView>, record: ClassRecordView)
    requires
        !out_of_ids(rows, record),
        key_position(rows, record.fqn, record.location.uri) == rows.len(),
    ensures
        upsert(rows, record) == rows.push(stored(rows, record)),
        forall|i: int| 0 <= i < rows.len() ==> (#[trigger] rows[i]).id != stored(rows, record).id,
        stored(rows, record).id == max_id(rows) + 1,
{
    lemma_max_id(rows);
}

} // verus!
