//! Directory listings: what is shown of a directory, and in which order.

use crate::exclude::{hidden, is_hidden};
use crate::models::{FileInfo, ListFilesResponse};
use crate::path::{child_path, join_path, listing_parent, parent_of, relative, relative_to, within};
use crate::text::{chars_of, string_views};
use vstd::prelude::*;

verus! {

/// One entry of a directory as it was read: its name, whether it is a
/// directory, and its times in milliseconds since the Unix epoch where the
/// filesystem gives them.
#[derive(Debug)]
pub struct DirEntry {
    pub name: String,
    pub is_dir: bool,
    pub created_at: Option<i64>,
    pub modified_at: Option<i64>,
}

/// What a listing says of one file.
pub ghost struct InfoView {
    pub name: Seq<char>,
    pub path: Seq<char>,
    pub is_dir: bool,
    pub created_at: Option<i64>,
    pub modified_at: Option<i64>,
}

/// What a [`FileInfo`] says.
pub open spec fn info_view(info: FileInfo) -> InfoView {
    InfoView {
        name: info.name@,
        path: info.path@,
        is_dir: info.is_dir,
        created_at: info.created_at,
        modified_at: info.modified_at,
    }
}

/// The views of a list of files.
pub open spec fn info_views(files: Seq<FileInfo>) -> Seq<InfoView> {
    Seq::new(files.len(), |i: int| info_view(files[i]))
}

/// The first text comes strictly before the second, character by character:
/// at the first place where they differ it has the smaller character, or it
/// ends there and the second goes on.
pub open spec fn text_lt(a: Seq<char>, b: Seq<char>) -> bool
    decreases a.len(),
{
    if b.len() == 0 {
        false
    } else if a.len() == 0 {
        true
    } else if a[0] != b[0] {
        (a[0] as u32) < (b[0] as u32)
    } else {
        text_lt(a.drop_first(), b.drop_first())
    }
}

/// Of two different texts one comes before the other.
pub proof fn lemma_text_lt_total(a: Seq<char>, b: Seq<char>)
    ensures
        text_lt(a, b) || text_lt(b, a) || a == b,
        !(text_lt(a, b) && text_lt(b, a)),
    decreases a.len(),
{
    if a.len() > 0 && b.len() > 0 {
        if a[0] == b[0] {
            lemma_text_lt_total(a.drop_first(), b.drop_first());
            if a.drop_first() == b.drop_first() {
                assert(a =~= seq![a[0]] + a.drop_first());
                assert(b =~= seq![b[0]] + b.drop_first());
            }
        } else {
            vstd::utf8::char_u32_cast(a[0], a[0] as u32);
            vstd::utf8::char_u32_cast(b[0], b[0] as u32);
        }
    } else if a.len() == 0 && b.len() == 0 {
        assert(a =~= b);
    } else if a.len() == 0 {
        assert(text_lt(a, b));
    } else {
        assert(text_lt(b, a));
    }
}

/// The order of texts is transitive.
pub proof fn lemma_text_lt_transitive(a: Seq<char>, b: Seq<char>, c: Seq<char>)
    requires
        text_lt(a, b),
        text_lt(b, c),
    ensures
        text_lt(a, c),
    decreases a.len(),
{
    if a.len() > 0 {
        if a[0] == b[0] && b[0] == c[0] {
            lemma_text_lt_transitive(a.drop_first(), b.drop_first(), c.drop_first());
        }
    }
}

/// Whether the first text comes strictly before the second.
pub fn text_less(a: &Vec<char>, b: &Vec<char>) -> (r: bool)
    ensures
        r == text_lt(a@, b@),
{
    let mut i: usize = 0;
    assert(a@.skip(0) == a@);
    assert(b@.skip(0) == b@);
    while i < a.len() && i < b.len()
        invariant
            i <= a.len(),
            i <= b.len(),
            text_lt(a@, b@) == text_lt(a@.skip(i as int), b@.skip(i as int)),
        decreases a.len() - i,
    {
        proof {
            let x = a@.skip(i as int);
            let y = b@.skip(i as int);
            assert(x[0] == a@[i as int]);
            assert(y[0] == b@[i as int]);
            assert(x.drop_first() == a@.skip(i + 1));
            assert(y.drop_first() == b@.skip(i + 1));
        }
        let x: char = a[i];
        let y: char = b[i];
        if x != y {
            return (x as u32) < (y as u32);
        }
        i += 1;
    }
    i < b.len()
}

/// The first file may stand before the second in a listing: directories
/// before other files, and within each kind the names in the order of
/// [`text_lt`].
pub open spec fn may_precede(a: InfoView, b: InfoView) -> bool {
    if a.is_dir != b.is_dir {
        a.is_dir
    } else {
        !text_lt(b.name, a.name)
    }
}

/// The files are in listing order.
pub open spec fn in_listing_order(files: Seq<InfoView>) -> bool {
    forall|i: int, j: int| 0 <= i < j < files.len() ==> may_precede(files[i], files[j])
}

fn precedes(a: &FileInfo, b: &FileInfo) -> (r: bool)
    ensures
        r == may_precede(info_view(*a), info_view(*b)),
{
    if a.is_dir != b.is_dir {
        a.is_dir
    } else {
        !text_less(&chars_of(b.name.as_str()), &chars_of(a.name.as_str()))
    }
}

proof fn lemma_may_precede_transitive(a: InfoView, b: InfoView, c: InfoView)
    requires
        may_precede(a, b),
        may_precede(b, c),
    ensures
        may_precede(a, c),
{
    if a.is_dir == b.is_dir && b.is_dir == c.is_dir {
        if text_lt(c.name, a.name) {
            lemma_text_lt_total(a.name, b.name);
            lemma_text_lt_total(b.name, c.name);
            if a.name == b.name {
            } else if b.name == c.name {
            } else {
                lemma_text_lt_transitive(a.name, b.name, c.name);
                lemma_text_lt_total(a.name, c.name);
            }
        }
    }
}

proof fn lemma_insert_multiset(s: Seq<InfoView>, i: int, x: InfoView)
    requires
        0 <= i <= s.len(),
    ensures
        s.insert(i, x).to_multiset() == s.to_multiset().insert(x),
{
    broadcast use vstd::seq_lib::group_to_multiset_ensures;

    let t = s.insert(i, x);
    assert(t.remove(i) == s);
    assert(t[i] == x);
    assert(t.contains(x));
    vstd::seq_lib::to_multiset_remove(t, i);
    assert(t.to_multiset().count(x) > 0);
    assert(t.to_multiset() =~= s.to_multiset().insert(x));
}

/// A file put into an ordered list: before the first file that it may
/// precede, and at the end where there is none.
pub open spec fn inserted(sorted: Seq<InfoView>, x: InfoView) -> Seq<InfoView>
    decreases sorted.len(),
{
    if sorted.len() == 0 {
        seq![x]
    } else if may_precede(x, sorted[0]) {
        seq![x] + sorted
    } else {
        seq![sorted[0]] + inserted(sorted.drop_first(), x)
    }
}

/// The files in listing order. Files that may precede each other keep the
/// order in which they were given.
pub open spec fn arranged(files: Seq<InfoView>) -> Seq<InfoView>
    decreases files.len(),
{
    if files.len() == 0 {
        Seq::empty()
    } else {
        inserted(arranged(files.drop_first()), files[0])
    }
}

proof fn lemma_inserted_at(sorted: Seq<InfoView>, x: InfoView, at: int)
    requires
        0 <= at <= sorted.len(),
        forall|k: int| 0 <= k < at ==> !may_precede(x, sorted[k]),
        at < sorted.len() ==> may_precede(x, sorted[at]),
    ensures
        inserted(sorted, x) == sorted.insert(at, x),
    decreases sorted.len(),
{
    if sorted.len() == 0 {
        assert(sorted.insert(at, x) =~= seq![x]);
    } else if at == 0 {
        assert(sorted.insert(0, x) =~= seq![x] + sorted);
    } else {
        let rest = sorted.drop_first();
        assert forall|k: int| 0 <= k < at - 1 implies !may_precede(x, rest[k]) by {
            assert(rest[k] == sorted[k + 1]);
        }
        if at < sorted.len() {
            assert(rest[at - 1] == sorted[at]);
        }
        lemma_inserted_at(rest, x, at - 1);
        assert(sorted.insert(at, x) =~= seq![sorted[0]] + rest.insert(at - 1, x));
    }
}

/// Puts the files of a listing in order: directories first, and within each
/// kind by name; files with the same name and kind stay as they were given.
/// The result holds the same files.
pub fn sort_listing(files: Vec<FileInfo>) -> (out: Vec<FileInfo>)
    ensures
        info_views(out@) == arranged(info_views(files@)),
        in_listing_order(info_views(out@)),
        info_views(out@).to_multiset() == info_views(files@).to_multiset(),
{
    broadcast use vstd::seq_lib::group_to_multiset_ensures;

    let mut rest = files;
    let mut out: Vec<FileInfo> = Vec::new();
    assert(info_views(out@) =~= Seq::<InfoView>::empty());
    assert(info_views(rest@) =~= info_views(files@));
    assert(info_views(out@).to_multiset().add(info_views(rest@).to_multiset()) =~= info_views(
        files@,
    ).to_multiset());
    assert(info_views(files@).skip(files@.len() as int) =~= Seq::<InfoView>::empty());
    while rest.len() > 0
        invariant
            rest@.len() <= files@.len(),
            info_views(rest@) == info_views(files@).take(rest@.len() as int),
            info_views(out@) == arranged(info_views(files@).skip(rest@.len() as int)),
            in_listing_order(info_views(out@)),
            info_views(out@).to_multiset().add(info_views(rest@).to_multiset()) == info_views(
                files@,
            ).to_multiset(),
        decreases rest.len(),
    {
        let ghost rest_before = rest@;
        let ghost out_before = out@;
        let item = rest.pop().unwrap();
        let mut at: usize = 0;
        while at < out.len() && !precedes(&item, &out[at])
            invariant
                at <= out.len(),
                out@ == out_before,
                forall|k: int| 0 <= k < at ==> !may_precede(info_view(item), info_view(out@[k])),
            decreases out.len() - at,
        {
            at += 1;
        }
        out.insert(at, item);
        proof {
            let before = info_views(out_before);
            let now = info_views(out@);
            let x = info_view(item);
            assert(now =~= before.insert(at as int, x));
            assert forall|k: int| 0 <= k < at implies !may_precede(x, before[k]) by {
                assert(before[k] == info_view(out_before[k]));
            }
            if at < before.len() {
                assert(before[at as int] == info_view(out_before[at as int]));
            }
            lemma_inserted_at(before, x, at as int);
            let n = rest@.len() as int;
            let tail = info_views(files@).skip(n);
            assert(info_views(rest_before)[n] == x);
            assert(info_views(files@).take(n + 1)[n] == info_views(files@)[n]);
            assert(tail[0] == x);
            assert(tail.drop_first() == info_views(files@).skip(n + 1));
            assert(info_views(rest@) =~= info_views(files@).take(n));
            lemma_insert_multiset(before, at as int, x);
            assert(info_views(rest_before) =~= info_views(rest@).push(x));
            vstd::seq_lib::to_multiset_build(info_views(rest@), x);
            assert(info_views(rest_before).to_multiset() =~= info_views(rest@).to_multiset().insert(
                x,
            ));
            assert(now.to_multiset().add(info_views(rest@).to_multiset()) =~= before.to_multiset().add(
                info_views(rest_before).to_multiset(),
            ));
            assert forall|i: int, j: int| 0 <= i < j < now.len() implies may_precede(
                now[i],
                now[j],
            ) by {
                if j < at {
                    assert(now[i] == before[i] && now[j] == before[j]);
                } else if j == at {
                    assert(now[i] == before[i]);
                    assert(!may_precede(x, before[i]));
                    lemma_text_lt_total(before[i].name, x.name);
                } else if i == at {
                    assert(now[j] == before[j - 1]);
                    assert(may_precede(x, before[at as int]));
                    if j - 1 > at {
                        assert(may_precede(before[at as int], before[j - 1]));
                        lemma_may_precede_transitive(x, before[at as int], before[j - 1]);
                    }
                } else if i < at {
                    assert(now[i] == before[i] && now[j] == before[j - 1]);
                } else {
                    assert(now[i] == before[i - 1] && now[j] == before[j - 1]);
                }
            }
        }
    }
    assert(info_views(files@).skip(0) =~= info_views(files@));
    assert(info_views(rest@) =~= Seq::<InfoView>::empty());
    assert(info_views(out@).to_multiset().add(info_views(rest@).to_multiset()) =~= info_views(
        out@,
    ).to_multiset());
    out
}

/// What a listing shows of the entries read so far: each entry that no rule
/// hides, under its name and with its path below `prefix`.
pub open spec fn shown(
    entries: Seq<DirEntry>,
    prefix: Seq<char>,
    ignore: Seq<Seq<char>>,
) -> Seq<InfoView>
    decreases entries.len(),
{
    if entries.len() == 0 {
        Seq::empty()
    } else {
        let before = shown(entries.drop_last(), prefix, ignore);
        let e = entries.last();
        if hidden(ignore, e.name@) {
            before
        } else {
            before.push(
                InfoView {
                    name: e.name@,
                    path: child_path(prefix, e.name@),
                    is_dir: e.is_dir,
                    created_at: e.created_at,
                    modified_at: e.modified_at,
                },
            )
        }
    }
}

/// Builds the listing of a directory from its entries.
///
/// `current` is the canonical path of the directory and `base` that of the
/// working directory, in which it lies. Entries that an ignore rule matches
/// by name are left out. Each other entry is shown with its path relative to
/// the base. The files are in listing order, and the way up is given unless
/// the directory is the base itself.
pub fn build_listing(
    entries: Vec<DirEntry>,
    current: &str,
    base: &str,
    ignore: &Vec<String>,
) -> (listing: ListFilesResponse)
    requires
        within(current@, base@),
    ensures
        match listing_parent(current@, base@) {
            Some(p) => listing.parent matches Some(q) && q@ == p,
            None => listing.parent is None,
        },
        info_views(listing.files@) == arranged(
            shown(entries@, relative(current@, base@)->0, string_views(ignore@)),
        ),
        in_listing_order(info_views(listing.files@)),
        info_views(listing.files@).to_multiset() == shown(
            entries@,
            relative(current@, base@)->0,
            string_views(ignore@),
        ).to_multiset(),
{
    let prefix = match relative_to(current, base) {
        Some(p) => p,
        None => String::new(),
    };
    let mut files: Vec<FileInfo> = Vec::new();
    let mut i: usize = 0;
    assert(info_views(files@) =~= shown(entries@.take(0), prefix@, string_views(ignore@)));
    while i < entries.len()
        invariant
            i <= entries.len(),
            prefix@ == relative(current@, base@)->0,
            info_views(files@) == shown(entries@.take(i as int), prefix@, string_views(ignore@)),
        decreases entries.len() - i,
    {
        let e = &entries[i];
        proof {
            let upto = entries@.take(i + 1);
            assert(upto.last() == *e);
            assert(upto.drop_last() == entries@.take(i as int));
        }
        if !is_hidden(ignore, e.name.as_str()) {
            let info = FileInfo {
                name: e.name.clone(),
                path: join_path(prefix.as_str(), e.name.as_str()),
                is_dir: e.is_dir,
                created_at: e.created_at,
                modified_at: e.modified_at,
            };
            let ghost before = files@;
            files.push(info);
            assert(info_views(files@) =~= info_views(before).push(info_view(info)));
        }
        i += 1;
    }
    assert(entries@.take(entries.len() as int) == entries@);
    let sorted = sort_listing(files);
    ListFilesResponse { parent: parent_of(current, base), files: sorted }
}

} // verus!
