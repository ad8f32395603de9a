//! What goes into the archive of a directory tree.
//!
//! Two rules bound the archive. A file whose name begins with the marker of a
//! streaming log is left out. Of the checkpoints, the files whose name ends
//! in `.pt`, only the one modified last goes in. Both rules speak of regular
//! files; a directory goes in whatever its name.

use crate::text::{chars_of, has_prefix, lemma_split_join, split_chars, split_on, starts_with, views};
use vstd::prelude::*;

verus! {

/// One entry of a walk over the tree, the root included.
#[derive(Debug)]
pub struct WalkEntry {
    /// The path relative to the root, its segments separated by `/`; empty
    /// for the root itself.
    pub relative: String,
    /// Whether the entry is a regular file.
    pub is_file: bool,
    /// The time of the last change in nanoseconds since the Unix epoch,
    /// where the filesystem gives it.
    pub modified: Option<u64>,
}

/// What the archive rules read of a walk entry.
pub ghost struct WalkView {
    pub relative: Seq<char>,
    pub is_file: bool,
    pub modified: Option<u64>,
}

impl View for WalkEntry {
    type V = WalkView;

    open spec fn view(&self) -> WalkView {
        WalkView { relative: self.relative@, is_file: self.is_file, modified: self.modified }
    }
}

/// The views of a walk.
pub open spec fn walk_views(entries: Seq<WalkEntry>) -> Seq<WalkView> {
    Seq::new(entries.len(), |i: int| entries[i]@)
}

/// One entry of an archive.
#[derive(Debug)]
pub enum ArchiveItem {
    /// A file, stored under `name` with the bytes of the walk entry at
    /// position `source`.
    File { name: String, source: usize },
    /// A directory, stored under `name`.
    Directory { name: String },
}

/// What an archive item says.
pub ghost enum ItemView {
    File { name: Seq<char>, source: int },
    Directory { name: Seq<char> },
}

impl View for ArchiveItem {
    type V = ItemView;

    open spec fn view(&self) -> ItemView {
        match self {
            ArchiveItem::File { name, source } => ItemView::File {
                name: name@,
                source: *source as int,
            },
            ArchiveItem::Directory { name } => ItemView::Directory { name: name@ },
        }
    }
}

/// The views of a list of archive items.
pub open spec fn item_views(items: Seq<ArchiveItem>) -> Seq<ItemView> {
    Seq::new(items.len(), |i: int| items[i]@)
}

/// The name of an entry: the last segment of its relative path, and for the
/// root, whose relative path is empty, the name of the root.
pub open spec fn name_of(root_name: Seq<char>, entry: WalkView) -> Seq<char> {
    if entry.relative.len() == 0 {
        root_name
    } else {
        split_on(entry.relative, '/').last()
    }
}

/// The name has the extension `pt`: it ends in `.pt` and has something
/// before that.
pub open spec fn is_checkpoint(name: Seq<char>) -> bool {
    name.len() > 3 && name.skip(name.len() - 3) == seq!['.', 'p', 't']
}

/// The name begins with the marker of a streaming log.
pub open spec fn is_event_log(name: Seq<char>) -> bool {
    starts_with(name, "events.out"@)
}

/// The entry is a checkpoint: a regular file whose name has the extension
/// `pt`.
pub open spec fn checkpoint(root_name: Seq<char>, entry: WalkView) -> bool {
    entry.is_file && is_checkpoint(name_of(root_name, entry))
}

/// The entry is a streaming log: a regular file whose name begins with the
/// marker.
pub open spec fn event_log(root_name: Seq<char>, entry: WalkView) -> bool {
    entry.is_file && is_event_log(name_of(root_name, entry))
}

/// The entry is a checkpoint whose time of change is known.
pub open spec fn dated_checkpoint(root_name: Seq<char>, entry: WalkView) -> bool {
    checkpoint(root_name, entry) && entry.modified is Some
}

/// The entry at `i` is the newest checkpoint: no dated checkpoint was
/// changed later, and none that the walk found earlier was changed as late.
pub open spec fn is_newest(root_name: Seq<char>, entries: Seq<WalkView>, i: int) -> bool {
    &&& 0 <= i < entries.len()
    &&& dated_checkpoint(root_name, entries[i])
    &&& forall|j: int|
        0 <= j < entries.len() && dated_checkpoint(root_name, #[trigger] entries[j])
            ==> entries[j].modified->0 <= entries[i].modified->0
    &&& forall|j: int|
        0 <= j < i && dated_checkpoint(root_name, #[trigger] entries[j]) ==> entries[j].modified->0
            < entries[i].modified->0
}

/// The walk holds a checkpoint whose time of change is known.
pub open spec fn has_dated(root_name: Seq<char>, entries: Seq<WalkView>) -> bool {
    exists|j: int| 0 <= j < entries.len() && dated_checkpoint(root_name, #[trigger] entries[j])
}

/// The entry at `i` passes the two rules: it is no streaming log, and where
/// it is a checkpoint it is the newest one. Where no checkpoint has a known
/// time, every checkpoint passes.
pub open spec fn included(root_name: Seq<char>, entries: Seq<WalkView>, i: int) -> bool {
    &&& !event_log(root_name, entries[i])
    &&& checkpoint(root_name, entries[i]) ==> !has_dated(root_name, entries) || is_newest(
        root_name,
        entries,
        i,
    )
}

/// The archive item for the entry at `i`, if it gets one: a file for a
/// regular file, a directory for anything else but the root.
pub open spec fn item_for(root_name: Seq<char>, entries: Seq<WalkView>, i: int) -> Option<
    ItemView,
> {
    if !included(root_name, entries, i) {
        None
    } else if entries[i].is_file {
        Some(ItemView::File { name: entries[i].relative, source: i })
    } else if entries[i].relative.len() > 0 {
        Some(ItemView::Directory { name: entries[i].relative })
    } else {
        None
    }
}

/// The items for the first `upto` entries of a walk, in the walk's order.
pub open spec fn archive_plan(root_name: Seq<char>, entries: Seq<WalkView>, upto: int) -> Seq<
    ItemView,
>
    decreases upto,
{
    if upto <= 0 {
        Seq::empty()
    } else {
        let before = archive_plan(root_name, entries, upto - 1);
        match item_for(root_name, entries, upto - 1) {
            Some(item) => before.push(item),
            None => before,
        }
    }
}

/// Where any checkpoint has a known time of change, at most one checkpoint
/// passes the rules.
pub proof fn lemma_one_checkpoint(root_name: Seq<char>, entries: Seq<WalkView>, i: int, j: int)
    requires
        0 <= i < entries.len(),
        0 <= j < entries.len(),
        has_dated(root_name, entries),
        checkpoint(root_name, entries[i]) && included(root_name, entries, i),
        checkpoint(root_name, entries[j]) && included(root_name, entries, j),
    ensures
        i == j,
{
    if i < j {
        assert(dated_checkpoint(root_name, entries[i]));
        assert(entries[i].modified->0 < entries[j].modified->0);
        assert(dated_checkpoint(root_name, entries[j]));
        assert(entries[j].modified->0 <= entries[i].modified->0);
    } else if j < i {
        assert(dated_checkpoint(root_name, entries[j]));
        assert(entries[j].modified->0 < entries[i].modified->0);
        assert(dated_checkpoint(root_name, entries[i]));
        assert(entries[i].modified->0 <= entries[j].modified->0);
    }
}

/// The file items of a plan are exactly the regular files that pass the
/// rules: no streaming log gets one, and no checkpoint but the newest.
pub proof fn lemma_plan_keeps_the_rules(
    root_name: Seq<char>,
    entries: Seq<WalkView>,
    upto: int,
    k: int,
)
    requires
        0 <= upto <= entries.len(),
        0 <= k < archive_plan(root_name, entries, upto).len(),
    ensures
        ({
            let source = match archive_plan(root_name, entries, upto)[k] {
                ItemView::File { source, .. } => Some(source),
                ItemView::Directory { .. } => None,
            };
            source matches Some(i) ==> {
                &&& 0 <= i < upto
                &&& entries[i].is_file
                &&& !is_event_log(name_of(root_name, entries[i]))
                &&& is_checkpoint(name_of(root_name, entries[i])) && has_dated(root_name, entries)
                    ==> is_newest(root_name, entries, i)
            }
        }),
    decreases upto,
{
    if upto > 0 {
        let before = archive_plan(root_name, entries, upto - 1);
        if k < before.len() {
            lemma_plan_keeps_the_rules(root_name, entries, upto - 1, k);
            assert(archive_plan(root_name, entries, upto)[k] == before[k]);
        }
    }
}

/// The path under which an item goes into the archive.
pub open spec fn item_name(item: ItemView) -> Seq<char> {
    match item {
        ItemView::File { name, .. } => name,
        ItemView::Directory { name } => name,
    }
}

/// No two entries of the walk have the same relative path.
pub open spec fn distinct_relatives(entries: Seq<WalkView>) -> bool {
    forall|i: int, j: int|
        0 <= i < j < entries.len() ==> (#[trigger] entries[i]).relative != (
        #[trigger] entries[j]).relative
}

/// A walk names each path once, and so does its plan: every item is named by
/// the relative path of an entry, and no two items share a name.
pub proof fn lemma_plan_names(root_name: Seq<char>, entries: Seq<WalkView>, upto: int)
    requires
        0 <= upto <= entries.len(),
        distinct_relatives(entries),
    ensures
        forall|k: int|
            0 <= k < archive_plan(root_name, entries, upto).len() ==> exists|i: int|
                0 <= i < upto && (#[trigger] entries[i]).relative == item_name(
                    #[trigger] archive_plan(root_name, entries, upto)[k],
                ),
        forall|a: int, b: int|
            0 <= a < b < archive_plan(root_name, entries, upto).len() ==> item_name(
                #[trigger] archive_plan(root_name, entries, upto)[a],
            ) != item_name(#[trigger] archive_plan(root_name, entries, upto)[b]),
    decreases upto,
{
    if upto > 0 {
        lemma_plan_names(root_name, entries, upto - 1);
        let before = archive_plan(root_name, entries, upto - 1);
        let plan = archive_plan(root_name, entries, upto);
        assert forall|k: int| 0 <= k < plan.len() implies exists|i: int|
            0 <= i < upto && (#[trigger] entries[i]).relative == item_name(#[trigger] plan[k]) by {
            if k < before.len() {
                assert(plan[k] == before[k]);
                let i = choose|i: int|
                    0 <= i < upto - 1 && (#[trigger] entries[i]).relative == item_name(before[k]);
                assert(entries[i].relative == item_name(plan[k]));
            } else {
                assert(entries[upto - 1].relative == item_name(plan[k]));
            }
        }
        assert forall|a: int, b: int| 0 <= a < b < plan.len() implies item_name(
            #[trigger] plan[a],
        ) != item_name(#[trigger] plan[b]) by {
            assert(plan[a] == before[a]);
            if b < before.len() {
                assert(plan[b] == before[b]);
            } else {
                let i = choose|i: int|
                    0 <= i < upto - 1 && (#[trigger] entries[i]).relative == item_name(before[a]);
                assert(entries[i].relative != entries[upto - 1].relative);
                assert(entries[upto - 1].relative == item_name(plan[b]));
            }
        }
    }
}

/// Whether a name has the extension `pt`.
pub fn has_checkpoint_extension(name: &str) -> (r: bool)
    ensures
        r == is_checkpoint(name@),
{
    ends_in_pt(&chars_of(name))
}

fn ends_in_pt(v: &Vec<char>) -> (r: bool)
    ensures
        r == is_checkpoint(v@),
{
    let n = v.len();
    if n <= 3 {
        return false;
    }
    let r = v[n - 3] == '.' && v[n - 2] == 'p' && v[n - 1] == 't';
    proof {
        let tail = v@.skip(n - 3);
        assert(tail.len() == 3);
        assert(tail[0] == v@[n - 3]);
        assert(tail[1] == v@[n - 2]);
        assert(tail[2] == v@[n - 1]);
        if r {
            assert(tail =~= seq!['.', 'p', 't']);
        }
    }
    r
}

/// Whether a name begins with the marker of a streaming log.
pub fn has_event_log_marker(name: &str) -> (r: bool)
    ensures
        r == is_event_log(name@),
{
    let v = chars_of(name);
    let marker = chars_of("events.out");
    has_prefix(&v, &marker)
}

/// The name of an entry of a walk below the root with the given name.
pub fn entry_name(root_name: &str, entry: &WalkEntry) -> (name: Vec<char>)
    ensures
        name@ == name_of(root_name@, entry@),
{
    let relative = chars_of(entry.relative.as_str());
    if relative.len() == 0 {
        chars_of(root_name)
    } else {
        let mut pieces = split_chars(&relative, '/');
        proof {
            lemma_split_join(relative@, '/');
            assert(views(pieces@).last() == pieces@.last()@);
        }
        pieces.pop().unwrap()
    }
}

fn is_checkpoint_entry(root_name: &str, entry: &WalkEntry) -> (r: bool)
    ensures
        r == checkpoint(root_name@, entry@),
{
    entry.is_file && ends_in_pt(&entry_name(root_name, entry))
}

fn is_event_log_entry(root_name: &str, entry: &WalkEntry) -> (r: bool)
    ensures
        r == event_log(root_name@, entry@),
{
    let marker = chars_of("events.out");
    entry.is_file && has_prefix(&entry_name(root_name, entry), &marker)
}

/// The position of the newest checkpoint of a walk, if any checkpoint has a
/// known time of change.
pub fn newest_checkpoint(root_name: &str, entries: &Vec<WalkEntry>) -> (newest: Option<usize>)
    ensures
        match newest {
            Some(i) => is_newest(root_name@, walk_views(entries@), i as int),
            None => !has_dated(root_name@, walk_views(entries@)),
        },
{
    let mut newest: Option<usize> = None;
    let mut best: u64 = 0;
    let mut i: usize = 0;
    while i < entries.len()
        invariant
            i <= entries.len(),
            match newest {
                Some(k) => {
                    &&& k < i
                    &&& dated_checkpoint(root_name@, walk_views(entries@)[k as int])
                    &&& walk_views(entries@)[k as int].modified == Some(best)
                    &&& forall|j: int|
                        0 <= j < i && dated_checkpoint(
                            root_name@,
                            #[trigger] walk_views(entries@)[j],
                        ) ==> walk_views(entries@)[j].modified->0 <= best
                    &&& forall|j: int|
                        0 <= j < k && dated_checkpoint(
                            root_name@,
                            #[trigger] walk_views(entries@)[j],
                        ) ==> walk_views(entries@)[j].modified->0 < best
                },
                None => forall|j: int|
                    0 <= j < i ==> !dated_checkpoint(
                        root_name@,
                        #[trigger] walk_views(entries@)[j],
                    ),
            },
        decreases entries.len() - i,
    {
        let entry = &entries[i];
        assert(walk_views(entries@)[i as int] == entry@);
        if is_checkpoint_entry(root_name, entry) {
            match entry.modified {
                Some(time) => {
                    let newer = match newest {
                        Some(_) => time > best,
                        None => true,
                    };
                    if newer {
                        newest = Some(i);
                        best = time;
                    }
                },
                None => {},
            }
        }
        i += 1;
    }
    newest
}

/// Chooses what goes into the archive of a walked tree, in the walk's order.
///
/// `root_name` is the name of the root of the walk; every other entry is
/// named by the last segment of its relative path. A regular file that is a
/// streaming log is left out. Of the checkpoints only the newest goes in;
/// where no checkpoint has a known time of change, all do. A regular file
/// becomes a file item under its relative path, anything else but the root a
/// directory item.
pub fn plan_archive(root_name: &str, entries: &Vec<WalkEntry>) -> (items: Vec<ArchiveItem>)
    ensures
        item_views(items@) == archive_plan(
            root_name@,
            walk_views(entries@),
            entries@.len() as int,
        ),
{
    let newest = newest_checkpoint(root_name, entries);
    let mut items: Vec<ArchiveItem> = Vec::new();
    let mut i: usize = 0;
    assert(item_views(items@) =~= archive_plan(root_name@, walk_views(entries@), 0));
    while i < entries.len()
        invariant
            i <= entries.len(),
            match newest {
                Some(k) => is_newest(root_name@, walk_views(entries@), k as int),
                None => !has_dated(root_name@, walk_views(entries@)),
            },
            item_views(items@) == archive_plan(root_name@, walk_views(entries@), i as int),
        decreases entries.len() - i,
    {
        let entry = &entries[i];
        let ghost all = walk_views(entries@);
        assert(all[i as int] == entry@);
        let passes = !is_event_log_entry(root_name, entry) && (!is_checkpoint_entry(
            root_name,
            entry,
        ) || match newest {
            Some(k) => k == i,
            None => true,
        });
        proof {
            if let Some(k) = newest {
                assert(dated_checkpoint(root_name@, all[k as int]));
                if k != i && is_newest(root_name@, all, i as int) {
                    if (k as int) < (i as int) {
                        assert(all[k as int].modified->0 < all[i as int].modified->0);
                        assert(all[i as int].modified->0 <= all[k as int].modified->0);
                    } else {
                        assert(all[i as int].modified->0 < all[k as int].modified->0);
                        assert(all[k as int].modified->0 <= all[i as int].modified->0);
                    }
                }
            }
            assert(passes == included(root_name@, all, i as int));
        }
        let ghost before = items@;
        if passes {
            if entry.is_file {
                items.push(ArchiveItem::File { name: entry.relative.clone(), source: i });
                assert(item_views(items@) =~= item_views(before).push(
                    ItemView::File { name: entry.relative@, source: i as int },
                ));
            } else if chars_of(entry.relative.as_str()).len() > 0 {
                items.push(ArchiveItem::Directory { name: entry.relative.clone() });
                assert(item_views(items@) =~= item_views(before).push(
                    ItemView::Directory { name: entry.relative@ },
                ));
            }
        }
        i += 1;
    }
    items
}

} // verus!
