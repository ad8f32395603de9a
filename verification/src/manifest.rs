//! Manifests: for each file of a tree, its relative path and content hash.
//!
//! A manifest is a mapping, so the order in which a tree is walked does not
//! show in it, and it holds nothing of a file but path and content.

use crate::exclude::{all_valid, check_patterns, first_invalid, is_pruned, pruned};
use crate::hashing::{content_hash, hash_bytes};
use crate::text::{chars_of, string_of, string_views};
use vstd::prelude::*;

verus! {

/// One file of a manifest.
#[derive(Debug)]
pub struct ManifestEntry {
    pub path: String,
    pub hash: String,
}

/// The mapping that a list of entries stands for. Of two entries with one
/// path the later counts.
pub open spec fn entries_map(entries: Seq<ManifestEntry>) -> Map<Seq<char>, Seq<char>>
    decreases entries.len(),
{
    if entries.len() == 0 {
        Map::empty()
    } else {
        entries_map(entries.drop_last()).insert(entries.last().path@, entries.last().hash@)
    }
}

/// No two entries have the same path.
pub open spec fn distinct_paths(entries: Seq<ManifestEntry>) -> bool {
    forall|i: int, j: int| 0 <= i < j < entries.len() ==> entries[i].path@ != entries[j].path@
}

/// The mapping of a list with distinct paths holds exactly the list's
/// entries.
pub proof fn lemma_entries_map(entries: Seq<ManifestEntry>)
    requires
        distinct_paths(entries),
    ensures
        forall|k: Seq<char>|
            entries_map(entries).dom().contains(k) <==> exists|i: int|
                0 <= i < entries.len() && #[trigger] entries[i].path@ == k,
        forall|i: int|
            0 <= i < entries.len() ==> entries_map(entries)[#[trigger] entries[i].path@]
                == entries[i].hash@,
        entries_map(entries).dom().finite(),
    decreases entries.len(),
{
    if entries.len() > 0 {
        let front = entries.drop_last();
        let last = entries.last();
        assert(distinct_paths(front)) by {
            assert forall|i: int, j: int| 0 <= i < j < front.len() implies front[i].path@
                != front[j].path@ by {
                assert(front[i] == entries[i]);
                assert(front[j] == entries[j]);
            }
        }
        lemma_entries_map(front);
        assert forall|k: Seq<char>|
            entries_map(entries).dom().contains(k) <==> exists|i: int|
                0 <= i < entries.len() && #[trigger] entries[i].path@ == k by {
            if entries_map(entries).dom().contains(k) {
                if k == last.path@ {
                    assert(entries[entries.len() - 1].path@ == k);
                } else {
                    let i = choose|i: int| 0 <= i < front.len() && #[trigger] front[i].path@ == k;
                    assert(entries[i].path@ == k);
                }
            }
            if exists|i: int| 0 <= i < entries.len() && #[trigger] entries[i].path@ == k {
                let i = choose|i: int| 0 <= i < entries.len() && #[trigger] entries[i].path@ == k;
                if i < front.len() {
                    assert(front[i].path@ == k);
                }
            }
        }
        assert forall|i: int| 0 <= i < entries.len() implies entries_map(
            entries,
        )[#[trigger] entries[i].path@] == entries[i].hash@ by {
            if i < front.len() {
                assert(front[i] == entries[i]);
                assert(entries[i].path@ != entries[entries.len() - 1].path@);
            }
        }
    }
}

/// A mapping from relative path to content hash.
pub struct Manifest {
    entries: Vec<ManifestEntry>,
}

impl View for Manifest {
    type V = Map<Seq<char>, Seq<char>>;

    closed spec fn view(&self) -> Map<Seq<char>, Seq<char>> {
        entries_map(self.entries@)
    }
}

impl Manifest {
    /// The invariant of a manifest: each path is held once.
    /// [`Manifest::new`] establishes it and every method keeps it.
    pub closed spec fn well_formed(&self) -> bool {
        distinct_paths(self.entries@)
    }

    /// The entries as they are stored.
    pub closed spec fn stored(&self) -> Seq<ManifestEntry> {
        self.entries@
    }

    /// What is stored is what the manifest maps.
    pub proof fn lemma_stored(&self)
        requires
            self.well_formed(),
        ensures
            distinct_paths(self.stored()),
            self@ == entries_map(self.stored()),
            self@.dom().finite(),
    {
        lemma_entries_map(self.entries@);
    }

    /// The empty manifest.
    pub fn new() -> (m: Manifest)
        ensures
            m.well_formed(),
            m@ == Map::<Seq<char>, Seq<char>>::empty(),
    {
        Manifest { entries: Vec::new() }
    }

    /// The number of files.
    pub fn len(&self) -> (n: usize)
        ensures
            n == self.stored().len(),
    {
        self.entries.len()
    }

    /// The entry at a position, in the order of first insertion.
    pub fn entry(&self, i: usize) -> (e: &ManifestEntry)
        requires
            i < self.stored().len(),
        ensures
            *e == self.stored()[i as int],
    {
        &self.entries[i]
    }

    fn position(&self, path: &String) -> (at: Option<usize>)
        ensures
            match at {
                Some(i) => i < self.entries@.len() && self.entries@[i as int].path@ == path@,
                None => forall|j: int| 0 <= j < self.entries@.len() ==> self.entries@[j].path@
                    != path@,
            },
    {
        let mut i: usize = 0;
        while i < self.entries.len()
            invariant
                i <= self.entries.len(),
                forall|j: int| 0 <= j < i ==> self.entries@[j].path@ != path@,
            decreases self.entries.len() - i,
        {
            if self.entries[i].path == *path {
                return Some(i);
            }
            i += 1;
        }
        None
    }

    /// The hash recorded for a path, if there is one.
    pub fn get(&self, path: &str) -> (hash: Option<String>)
        requires
            self.well_formed(),
        ensures
            match hash {
                Some(h) => self@.dom().contains(path@) && self@[path@] == h@,
                None => !self@.dom().contains(path@),
            },
    {
        proof {
            lemma_entries_map(self.entries@);
        }
        let wanted = path.to_owned();
        match self.position(&wanted) {
            Some(i) => {
                assert(self.entries@[i as int].path@ == path@);
                Some(self.entries[i].hash.clone())
            },
            None => None,
        }
    }

    /// Records the hash of a path, in place of any hash it had.
    pub fn insert(&mut self, path: String, hash: String)
        requires
            old(self).well_formed(),
        ensures
            final(self).well_formed(),
            final(self)@ == old(self)@.insert(path@, hash@),
    {
        proof {
            lemma_entries_map(self.entries@);
        }
        match self.position(&path) {
            Some(i) => {
                let ghost before = self.entries@;
                self.entries.set(i, ManifestEntry { path, hash });
                proof {
                    let now = self.entries@;
                    assert(distinct_paths(now)) by {
                        assert forall|a: int, b: int| 0 <= a < b < now.len() implies now[a].path@
                            != now[b].path@ by {
                            assert(now[a].path@ == before[a].path@);
                            assert(now[b].path@ == before[b].path@);
                        }
                    }
                    lemma_entries_map(now);
                    let want = entries_map(before).insert(path@, hash@);
                    assert forall|k: Seq<char>| entries_map(now).dom().contains(k)
                        <==> want.dom().contains(k) by {
                        if entries_map(now).dom().contains(k) {
                            let a = choose|a: int| 0 <= a < now.len() && #[trigger] now[a].path@ == k;
                            assert(before[a].path@ == k);
                        }
                        if want.dom().contains(k) && k != path@ {
                            let a = choose|a: int|
                                0 <= a < before.len() && #[trigger] before[a].path@ == k;
                            assert(now[a].path@ == k);
                        }
                        if k == path@ {
                            assert(now[i as int].path@ == k);
                        }
                    }
                    assert forall|k: Seq<char>| entries_map(now).dom().contains(k) implies entries_map(
                        now,
                    )[k] == want[k] by {
                        let a = choose|a: int| 0 <= a < now.len() && #[trigger] now[a].path@ == k;
                        assert(entries_map(now)[now[a].path@] == now[a].hash@);
                        if a != i {
                            assert(now[a] == before[a]);
                            assert(entries_map(before)[before[a].path@] == before[a].hash@);
                        }
                    }
                    assert(entries_map(now) =~= want);
                }
            },
            None => {
                let ghost before = self.entries@;
                self.entries.push(ManifestEntry { path, hash });
                proof {
                    assert(self.entries@.drop_last() == before);
                }
            },
        }
    }
}

/// A file as a walk of a tree found it: its path relative to the root, and
/// its bytes where they could be read.
#[derive(Debug)]
pub struct FileEntry {
    pub path: String,
    pub content: Option<Vec<u8>>,
}

/// What a manifest reads of a file.
pub ghost struct FileView {
    pub path: Seq<char>,
    pub content: Option<Seq<u8>>,
}

impl View for FileEntry {
    type V = FileView;

    open spec fn view(&self) -> FileView {
        FileView {
            path: self.path@,
            content: match self.content {
                Some(bytes) => Some(bytes@),
                None => None,
            },
        }
    }
}

/// The views of a list of files.
pub open spec fn file_views(files: Seq<FileEntry>) -> Seq<FileView> {
    Seq::new(files.len(), |i: int| files[i]@)
}

/// The path under which a manifest holds a file: the relative path with `/`
/// in place of every `\`.
pub open spec fn manifest_key(path: Seq<char>) -> Seq<char> {
    Seq::new(
        path.len(),
        |i: int|
            if path[i] == '\\' {
                '/'
            } else {
                path[i]
            },
    )
}

/// The file enters the manifest: it could be read and no rule excludes it.
pub open spec fn listed(patterns: Seq<Seq<char>>, file: FileView) -> bool {
    file.content is Some && !pruned(patterns, file.path)
}

/// The manifest of a list of files under the given rules. Of two files with
/// one key the later counts.
pub open spec fn manifest_of(files: Seq<FileView>, patterns: Seq<Seq<char>>) -> Map<
    Seq<char>,
    Seq<char>,
>
    decreases files.len(),
{
    if files.len() == 0 {
        Map::empty()
    } else {
        let before = manifest_of(files.drop_last(), patterns);
        let file = files.last();
        if listed(patterns, file) {
            before.insert(manifest_key(file.path), content_hash(file.content->0))
        } else {
            before
        }
    }
}

/// Why no manifest could be built.
#[derive(Debug, Clone, Copy, PartialEq, Eq, Structural)]
pub enum ManifestError {
    /// The exclusion rule at this position is not a well-formed pattern.
    InvalidPattern(usize),
}

/// The manifest key of a relative path.
pub fn key_of(path: &str) -> (key: String)
    ensures
        key@ == manifest_key(path@),
{
    let v = chars_of(path);
    let mut out: Vec<char> = Vec::new();
    let mut i: usize = 0;
    while i < v.len()
        invariant
            i <= v.len(),
            out@.len() == i,
            forall|k: int| 0 <= k < i ==> out@[k] == manifest_key(v@)[k],
        decreases v.len() - i,
    {
        if v[i] == '\\' {
            out.push('/');
        } else {
            out.push(v[i]);
        }
        i += 1;
    }
    assert(out@ =~= manifest_key(v@));
    string_of(&out)
}

/// Builds the manifest of the files found under a root.
///
/// Each readable file that no rule excludes is recorded under its key with
/// the hash of its bytes, 64 hexadecimal digits; unreadable files are passed
/// over. The build fails only where a rule is no well-formed pattern, and
/// then names the first.
pub fn build_manifest(files: &Vec<FileEntry>, excludes: &Vec<String>) -> (r: Result<
    Manifest,
    ManifestError,
>)
    ensures
        match r {
            Ok(m) => {
                &&& all_valid(string_views(excludes@))
                &&& m.well_formed()
                &&& m@ == manifest_of(file_views(files@), string_views(excludes@))
                &&& forall|k: Seq<char>| m@.dom().contains(k) ==> (#[trigger] m@[k]).len() == 64
            },
            Err(ManifestError::InvalidPattern(i)) => first_invalid(
                string_views(excludes@),
                i as int,
            ),
        },
{
    match check_patterns(excludes) {
        Err(i) => {
            return Err(ManifestError::InvalidPattern(i));
        },
        Ok(()) => {},
    }
    let mut manifest = Manifest::new();
    let mut i: usize = 0;
    assert(file_views(files@).take(0) == Seq::<FileView>::empty());
    while i < files.len()
        invariant
            i <= files.len(),
            all_valid(string_views(excludes@)),
            manifest.well_formed(),
            manifest@ == manifest_of(file_views(files@).take(i as int), string_views(excludes@)),
            forall|k: Seq<char>|
                manifest@.dom().contains(k) ==> (#[trigger] manifest@[k]).len() == 64,
        decreases files.len() - i,
    {
        let file = &files[i];
        proof {
            let done = file_views(files@).take(i + 1);
            assert(done.drop_last() == file_views(files@).take(i as int));
            assert(done.last() == file@);
        }
        match &file.content {
            Some(bytes) => {
                let path = chars_of(file.path.as_str());
                if !is_pruned(excludes, &path) {
                    let key = key_of(file.path.as_str());
                    let hash = hash_bytes(bytes.as_slice());
                    manifest.insert(key, hash);
                }
            },
            None => {},
        }
        i += 1;
    }
    assert(file_views(files@).take(files.len() as int) == file_views(files@));
    Ok(manifest)
}

} // verus!
