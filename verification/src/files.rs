//! The note-file listing: entry metadata, name hygiene, and the sort
//! orders of the file list. Walking directories is filesystem work outside
//! this library; it hands the collected entries in and gets them back in
//! the requested order.

use crate::strutil::ends_with_str;
use vstd::prelude::*;
use vstd::seq_lib::group_to_multiset_ensures;

verus! {

/// Sort orders of the file listing.
#[derive(Debug, Clone, Copy, PartialEq, Eq, Structural, Default)]
pub enum SortBy {
    #[default]
    LastModified,
    LastCreated,
    MostLinked,
    Alphabetical,
}

/// One note file with its metadata.
#[derive(Debug, Clone)]
pub struct FileEntry {
    pub path: String,
    pub name: String,
    pub modified_time: u64,
    pub created_time: u64,
    pub backlink_count: u32,
    pub size_bytes: u64,
}

/// The code point a character sorts by: ASCII letters fold to lower case.
pub open spec fn lower_code(c: char) -> int {
    if 65 <= c as u32 && c as u32 <= 90 {
        c as u32 + 32
    } else {
        c as u32 as int
    }
}

/// Case-folded lexicographic order, compared from position `i` on.
pub open spec fn lower_le_from(x: Seq<char>, y: Seq<char>, i: int) -> bool
    decreases x.len() - i,
{
    if i >= x.len() {
        true
    } else if i >= y.len() {
        false
    } else if lower_code(x[i]) != lower_code(y[i]) {
        lower_code(x[i]) < lower_code(y[i])
    } else {
        lower_le_from(x, y, i + 1)
    }
}

/// Case-folded lexicographic order on names.
pub open spec fn lower_le(x: Seq<char>, y: Seq<char>) -> bool {
    lower_le_from(x, y, 0)
}

/// The order two entries are listed in under a sort key: newest first,
/// most linked first, or names in case-folded lexicographic order.
pub open spec fn entry_le(sort: SortBy, a: FileEntry, b: FileEntry) -> bool {
    match sort {
        SortBy::LastModified => a.modified_time >= b.modified_time,
        SortBy::LastCreated => a.created_time >= b.created_time,
        SortBy::MostLinked => a.backlink_count >= b.backlink_count,
        SortBy::Alphabetical => lower_le(a.name@, b.name@),
    }
}

/// `lower_le` is total: two names are always comparable.
proof fn lemma_lower_le_total(x: Seq<char>, y: Seq<char>, i: int)
    ensures
        lower_le_from(x, y, i) || lower_le_from(y, x, i),
    decreases x.len() - i,
{
    if i < x.len() && i < y.len() && lower_code(x[i]) == lower_code(y[i]) {
        lemma_lower_le_total(x, y, i + 1);
    }
}

/// `entry_le` is total for every sort key.
proof fn lemma_entry_le_total(sort: SortBy, a: FileEntry, b: FileEntry)
    ensures
        entry_le(sort, a, b) || entry_le(sort, b, a),
{
    if sort is Alphabetical {
        lemma_lower_le_total(a.name@, b.name@, 0);
    }
}

/// The code point a character sorts by.
fn lower_code_exec(c: char) -> (r: u32)
    ensures
        r as int == lower_code(c),
{
    let v = c as u32;
    if v >= 65 && v <= 90 {
        v + 32
    } else {
        v
    }
}

/// Compare two names in case-folded lexicographic order.
fn name_le(a: &str, b: &str) -> (r: bool)
    ensures
        r == lower_le(a@, b@),
{
    let alen = a.unicode_len();
    let blen = b.unicode_len();
    let mut i: usize = 0;
    while i < alen && i < blen
        invariant
            alen == a@.len(),
            blen == b@.len(),
            i <= alen && i <= blen,
            lower_le_from(a@, b@, 0) == lower_le_from(a@, b@, i as int),
            lower_le_from(b@, a@, 0) == lower_le_from(b@, a@, i as int),
        decreases alen - i,
    {
        let ca = lower_code_exec(a.get_char(i));
        let cb = lower_code_exec(b.get_char(i));
        if ca != cb {
            return ca < cb;
        }
        i += 1;
    }
    i == alen
}

/// Whether `a` is listed at or before `b` under the sort key.
fn entry_le_exec(sort: &SortBy, a: &FileEntry, b: &FileEntry) -> (r: bool)
    ensures
        r == entry_le(*sort, *a, *b),
{
    match sort {
        SortBy::LastModified => a.modified_time >= b.modified_time,
        SortBy::LastCreated => a.created_time >= b.created_time,
        SortBy::MostLinked => a.backlink_count >= b.backlink_count,
        SortBy::Alphabetical => name_le(a.name.as_str(), b.name.as_str()),
    }
}

/// Inserting an element anywhere adds exactly it to the sequence's
/// multiset.
proof fn lemma_insert_to_multiset<A>(s: Seq<A>, p: int, e: A)
    requires
        0 <= p <= s.len(),
    ensures
        s.insert(p, e).to_multiset() =~= s.to_multiset().insert(e),
{
    broadcast use group_to_multiset_ensures;

    let t = s.insert(p, e);
    s.insert_ensures(p, e);
    t.remove_ensures(p);
    assert(t.remove(p) =~= s);
    assert(t[p] == e);
    assert(t.to_multiset().remove(e) =~= s.to_multiset());
    assert(t.to_multiset().contains(e));
    assert(t.to_multiset() =~= s.to_multiset().insert(e)) by {
        assert(t.to_multiset().remove(e).insert(e) =~= t.to_multiset());
        assert(s.to_multiset().insert(e) =~= t.to_multiset().remove(e).insert(e));
    }
}

/// Sort the collected entries by the requested key: the result is a
/// permutation of the input whose neighbours are in order. Equal keys keep
/// no particular order.
pub fn sort_entries(entries: Vec<FileEntry>, sort_by: &SortBy) -> (r: Vec<FileEntry>)
    ensures
        r@.len() == entries@.len(),
        r@.to_multiset() == entries@.to_multiset(),
        forall|i: int| 0 <= i && i + 1 < r@.len() ==> entry_le(*sort_by, #[trigger] r@[i], r@[i + 1]),
{
    broadcast use group_to_multiset_ensures;

    let mut input = entries;
    let mut out: Vec<FileEntry> = Vec::new();
    proof {
        assert(out@.to_multiset().add(input@.to_multiset()) =~= input@.to_multiset());
    }
    let ghost all = input@;
    while input.len() > 0
        invariant
            out@.to_multiset().add(input@.to_multiset()) == all.to_multiset(),
            out@.len() + input@.len() == all.len(),
            forall|i: int|
                0 <= i && i + 1 < out@.len() ==> entry_le(*sort_by, #[trigger] out@[i], out@[i + 1]),
        decreases input@.len(),
    {
        let ghost pre_input = input@;
        let e = input.remove(0);
        proof {
            broadcast use group_to_multiset_ensures;

            pre_input.remove_ensures(0);
            assert(pre_input.remove(0).to_multiset() =~= pre_input.to_multiset().remove(e));
        }
        let mut p: usize = 0;
        while p < out.len() && entry_le_exec(sort_by, &out[p], &e)
            invariant
                p <= out@.len(),
                forall|j: int| 0 <= j < p ==> entry_le(*sort_by, #[trigger] out@[j], e),
            decreases out@.len() - p,
        {
            p += 1;
        }
        let ghost pre_out = out@;
        let ghost pp = p as int;
        proof {
            if pp < pre_out.len() {
                lemma_entry_le_total(*sort_by, pre_out[pp], e);
            }
            pre_out.insert_ensures(pp, e);
            lemma_insert_to_multiset(pre_out, pp, e);
        }
        out.insert(p, e);
        proof {
            broadcast use group_to_multiset_ensures;

            assert forall|i: int|
                0 <= i && i + 1 < out@.len() implies entry_le(
                *sort_by,
                #[trigger] out@[i],
                out@[i + 1],
            ) by {
                if i + 1 < pp {
                    assert(out@[i] == pre_out[i] && out@[i + 1] == pre_out[i + 1]);
                } else if i + 1 == pp {
                    assert(out@[i] == pre_out[i] && out@[i + 1] == e);
                } else if i == pp {
                    assert(out@[i] == e && out@[i + 1] == pre_out[i]);
                } else {
                    assert(out@[i] == pre_out[i - 1] && out@[i + 1] == pre_out[i]);
                }
            }
            assert(out@.to_multiset().add(input@.to_multiset()) =~= all.to_multiset()) by {
                assert(out@.to_multiset() =~= pre_out.to_multiset().insert(e));
                assert(input@.to_multiset() =~= pre_input.to_multiset().remove(e));
                assert(pre_input.to_multiset().contains(e)) by {
                    assert(pre_input[0] == e);
                    assert(pre_input.contains(e));
                }
            }
        }
    }
    proof {
        broadcast use group_to_multiset_ensures;

        assert(input@.to_multiset().len() == 0);
        assert(out@.to_multiset().add(input@.to_multiset()) =~= out@.to_multiset());
    }
    out
}

/// A name is hidden when it begins with a dot.
pub fn is_hidden_name(name: &str) -> (r: bool)
    ensures
        r == (name@.len() > 0 && name@[0] == '.'),
{
    if name.unicode_len() == 0 {
        false
    } else {
        name.get_char(0) == '.'
    }
}

/// Whether a file name carries the note extension.
pub fn is_note_file_name(name: &str) -> (r: bool)
    ensures
        r == (name@.len() >= 3 && name@.subrange(name@.len() - 3, name@.len() as int) == ".pn"@),
{
    proof {
        reveal_strlit(".pn");
    }
    ends_with_str(name, ".pn")
}

/// A note name with the note extension added where it was missing.
pub fn ensure_note_extension(name: String) -> (r: String)
    ensures
        (name@.len() >= 3 && name@.subrange(name@.len() - 3, name@.len() as int) == ".pn"@) ==> r@
            == name@,
        !(name@.len() >= 3 && name@.subrange(name@.len() - 3, name@.len() as int) == ".pn"@) ==> r@
            == name@ + ".pn"@,
{
    if is_note_file_name(name.as_str()) {
        name
    } else {
        let mut out = name;
        out.append(".pn");
        out
    }
}

} // verus!
