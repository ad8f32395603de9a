//! What a synchronisation transfers, and where an upload is written.

use crate::containment::{lemma_child_components, lemma_sanitized_is_relative};
use crate::hashing::content_hash;
use crate::manifest::{listed, manifest_key, manifest_of, FileView, Manifest};
use crate::path::{
    child_path, components, join_path, plain_segments, relative, sanitize_path, sanitized, within,
};
use crate::text::{append_chars, chars_of, string_of, string_views};
use vstd::prelude::*;

verus! {

/// The file at `path` has to go from the source to the destination: the
/// source has it, and the destination has it not or has other content.
pub open spec fn needs_transfer(
    source: Map<Seq<char>, Seq<char>>,
    dest: Map<Seq<char>, Seq<char>>,
    path: Seq<char>,
) -> bool {
    source.dom().contains(path) && (!dest.dom().contains(path) || dest[path] != source[path])
}

/// Of the given entries, in their order, the paths that have to go from the
/// source to the destination.
pub open spec fn changed(
    entries: Seq<crate::manifest::ManifestEntry>,
    source: Map<Seq<char>, Seq<char>>,
    dest: Map<Seq<char>, Seq<char>>,
) -> Seq<Seq<char>>
    decreases entries.len(),
{
    if entries.len() == 0 {
        Seq::empty()
    } else if needs_transfer(source, dest, entries.last().path@) {
        changed(entries.drop_last(), source, dest).push(entries.last().path@)
    } else {
        changed(entries.drop_last(), source, dest)
    }
}

/// The paths to transfer so that the destination gets what the source has:
/// those that the destination lacks or holds with another hash, each once,
/// and no others, in the order in which the source holds them.
pub fn diff(source: &Manifest, dest: &Manifest) -> (paths: Vec<String>)
    requires
        source.well_formed(),
        dest.well_formed(),
    ensures
        string_views(paths@) == changed(source.stored(), source@, dest@),
        string_views(paths@).no_duplicates(),
        forall|p: Seq<char>|
            string_views(paths@).contains(p) <==> needs_transfer(source@, dest@, p),
{
    let mut paths: Vec<String> = Vec::new();
    let mut i: usize = 0;
    proof {
        source.lemma_stored();
        crate::manifest::lemma_entries_map(source.stored());
        assert(string_views(paths@) =~= changed(source.stored().take(0), source@, dest@));
    }
    while i < source.len()
        invariant
            i <= source.stored().len(),
            source.well_formed(),
            dest.well_formed(),
            string_views(paths@) == changed(source.stored().take(i as int), source@, dest@),
            forall|x: int|
                0 <= x < paths@.len() ==> exists|j: int|
                    0 <= j < i && source.stored()[j].path@ == #[trigger] paths@[x]@,
            forall|x: int, y: int| 0 <= x < y < paths@.len() ==> paths@[x]@ != paths@[y]@,
            forall|j: int|
                0 <= j < i && needs_transfer(source@, dest@, source.stored()[j].path@)
                    ==> exists|x: int|
                    0 <= x < paths@.len() && paths@[x]@ == #[trigger] source.stored()[j].path@,
            forall|x: int| 0 <= x < paths@.len() ==> needs_transfer(source@, dest@, paths@[x]@),
        decreases source.stored().len() - i,
    {
        let entry = source.entry(i);
        proof {
            source.lemma_stored();
            crate::manifest::lemma_entries_map(source.stored());
            assert(source.stored()[i as int].path@ == entry.path@);
            assert(source@.dom().contains(entry.path@));
            assert(source@[entry.path@] == entry.hash@);
        }
        let differs = match dest.get(entry.path.as_str()) {
            Some(hash) => hash != entry.hash,
            None => true,
        };
        assert(differs == needs_transfer(source@, dest@, entry.path@));
        proof {
            let upto = source.stored().take(i + 1);
            assert(upto.last() == source.stored()[i as int]);
            assert(upto.drop_last() == source.stored().take(i as int));
        }
        if differs {
            let ghost before = paths@;
            paths.push(entry.path.clone());
            proof {
                assert(string_views(paths@) =~= string_views(before).push(entry.path@));
                assert forall|x: int| 0 <= x < paths@.len() implies exists|j: int|
                    0 <= j < i + 1 && source.stored()[j].path@ == #[trigger] paths@[x]@ by {
                    if x < before.len() {
                        let j = choose|j: int|
                            0 <= j < i && source.stored()[j].path@ == before[x]@;
                        assert(source.stored()[j].path@ == paths@[x]@);
                    } else {
                        assert(source.stored()[i as int].path@ == paths@[x]@);
                    }
                }
                assert forall|x: int, y: int| 0 <= x < y < paths@.len() implies paths@[x]@
                    != paths@[y]@ by {
                    if y == before.len() {
                        let j = choose|j: int|
                            0 <= j < i && source.stored()[j].path@ == before[x]@;
                        assert(source.stored()[j].path@ != source.stored()[i as int].path@);
                    }
                }
                assert forall|j: int|
                    0 <= j < i + 1 && needs_transfer(
                        source@,
                        dest@,
                        source.stored()[j].path@,
                    ) implies exists|x: int|
                    0 <= x < paths@.len() && paths@[x]@ == #[trigger] source.stored()[j].path@ by {
                    if j < i {
                        let x = choose|x: int|
                            0 <= x < before.len() && before[x]@ == source.stored()[j].path@;
                        assert(paths@[x]@ == source.stored()[j].path@);
                    } else {
                        assert(paths@[before.len() as int]@ == source.stored()[j].path@);
                    }
                }
            }
        }
        i += 1;
    }
    proof {
        source.lemma_stored();
        crate::manifest::lemma_entries_map(source.stored());
        assert(source.stored().take(source.stored().len() as int) == source.stored());
        let out = string_views(paths@);
        assert forall|p: Seq<char>| out.contains(p) <==> needs_transfer(source@, dest@, p) by {
            if out.contains(p) {
                let x = choose|x: int| 0 <= x < out.len() && out[x] == p;
                assert(paths@[x]@ == p);
            }
            if needs_transfer(source@, dest@, p) {
                let j = choose|j: int|
                    0 <= j < source.stored().len() && #[trigger] source.stored()[j].path@ == p;
                let x = choose|x: int|
                    0 <= x < paths@.len() && paths@[x]@ == source.stored()[j].path@;
                assert(out[x] == p);
            }
        }
        assert forall|x: int, y: int| 0 <= x < out.len() && 0 <= y < out.len() && x != y implies out[x]
            != out[y] by {
            assert(out[x] == paths@[x]@);
            assert(out[y] == paths@[y]@);
        }
    }
    paths
}

/// What becomes of one uploaded file.
#[derive(Debug)]
pub enum UploadStep {
    /// The name holds no plain segment, or the destination would leave the
    /// target: the file is passed over.
    Skip,
    /// The file is written at `dest`, which is `relative` below the target.
    Write { relative: String, dest: String },
}

/// Decides where an uploaded file is written.
///
/// The name that came with the file is sanitized and appended below the
/// target. A name without a plain segment is skipped. The destination always
/// lies within the target.
pub fn plan_upload(target: &str, file_name: &str) -> (step: UploadStep)
    ensures
        sanitized(file_name@).len() == 0 ==> step is Skip,
        sanitized(file_name@).len() > 0 ==> (step matches UploadStep::Write { relative, dest } && {
            &&& relative@ == sanitized(file_name@)
            &&& dest@ == child_path(target@, relative@)
            &&& within(dest@, target@)
        }),
{
    let relative = sanitize_path(file_name);
    if chars_of(relative.as_str()).len() == 0 {
        return UploadStep::Skip;
    }
    let dest = join_path(target, relative.as_str());
    proof {
        lemma_child_components(target@, file_name@);
        let base = components(target@);
        assert((base + plain_segments(file_name@)).subrange(0, base.len() as int) == base);
    }
    UploadStep::Write { relative, dest }
}

/// The answer to an upload: how many files were written.
pub open spec fn upload_summary(written: nat) -> Seq<char> {
    "Sync complete. Wrote "@ + crate::number::decimal(written) + " files."@
}

/// The message that ends an upload.
pub fn upload_message(written: u64) -> (message: String)
    ensures
        message@ == upload_summary(written as nat),
{
    let mut out: Vec<char> = chars_of("Sync complete. Wrote ");
    append_chars(&mut out, &crate::number::decimal_chars(written));
    append_chars(&mut out, &chars_of(" files."));
    string_of(&out)
}

/// Files that share a manifest key share their content.
pub open spec fn single_valued(files: Seq<FileView>, patterns: Seq<Seq<char>>) -> bool {
    forall|i: int, j: int|
        0 <= i < files.len() && 0 <= j < files.len() && listed(patterns, #[trigger] files[i])
            && listed(patterns, #[trigger] files[j]) && manifest_key(files[i].path)
            == manifest_key(files[j].path) ==> files[i].content == files[j].content
}

/// A manifest holds exactly the listed files, and for each of them the hash
/// of its bytes.
pub proof fn lemma_manifest_members(files: Seq<FileView>, patterns: Seq<Seq<char>>)
    requires
        single_valued(files, patterns),
    ensures
        forall|k: Seq<char>|
            manifest_of(files, patterns).dom().contains(k) <==> exists|i: int|
                0 <= i < files.len() && listed(patterns, #[trigger] files[i]) && manifest_key(
                    files[i].path,
                ) == k,
        forall|i: int|
            0 <= i < files.len() && listed(patterns, #[trigger] files[i]) ==> manifest_of(
                files,
                patterns,
            )[manifest_key(files[i].path)] == content_hash(files[i].content->0),
    decreases files.len(),
{
    if files.len() > 0 {
        let front = files.drop_last();
        let last = files.last();
        assert(single_valued(front, patterns)) by {
            assert forall|i: int, j: int|
                0 <= i < front.len() && 0 <= j < front.len() && listed(
                    patterns,
                    #[trigger] front[i],
                ) && listed(patterns, #[trigger] front[j]) && manifest_key(front[i].path)
                    == manifest_key(front[j].path) implies front[i].content
                == front[j].content by {
                assert(front[i] == files[i]);
                assert(front[j] == files[j]);
            }
        }
        lemma_manifest_members(front, patterns);
        let m = manifest_of(files, patterns);
        assert forall|k: Seq<char>|
            m.dom().contains(k) <==> exists|i: int|
                0 <= i < files.len() && listed(patterns, #[trigger] files[i]) && manifest_key(
                    files[i].path,
                ) == k by {
            if m.dom().contains(k) {
                if listed(patterns, last) && k == manifest_key(last.path) {
                    assert(files[files.len() - 1] == last);
                } else {
                    assert(manifest_of(front, patterns).dom().contains(k));
                    let i = choose|i: int|
                        0 <= i < front.len() && listed(patterns, #[trigger] front[i])
                            && manifest_key(front[i].path) == k;
                    assert(files[i] == front[i]);
                }
            }
            if exists|i: int|
                0 <= i < files.len() && listed(patterns, #[trigger] files[i]) && manifest_key(
                    files[i].path,
                ) == k {
                let i = choose|i: int|
                    0 <= i < files.len() && listed(patterns, #[trigger] files[i])
                        && manifest_key(files[i].path) == k;
                if i < front.len() {
                    assert(front[i] == files[i]);
                }
            }
        }
        assert forall|i: int|
            0 <= i < files.len() && listed(patterns, #[trigger] files[i]) implies m[manifest_key(
            files[i].path,
        )] == content_hash(files[i].content->0) by {
            if i < front.len() {
                assert(front[i] == files[i]);
                if listed(patterns, last) && manifest_key(files[i].path) == manifest_key(
                    last.path,
                ) {
                    assert(files[files.len() - 1] == last);
                    assert(files[i].content == files[files.len() - 1].content);
                }
            }
        }
    }
}

/// Two walks that found the same files give the same manifest, in whatever
/// order each found them. A manifest holds nothing of a file but its path and
/// the hash of its bytes, so no time enters either.
pub proof fn lemma_manifest_ignores_order(
    first: Seq<FileView>,
    second: Seq<FileView>,
    patterns: Seq<Seq<char>>,
)
    requires
        forall|f: FileView| first.contains(f) <==> second.contains(f),
        single_valued(first, patterns),
    ensures
        manifest_of(first, patterns) == manifest_of(second, patterns),
{
    assert(single_valued(second, patterns)) by {
        assert forall|i: int, j: int|
            0 <= i < second.len() && 0 <= j < second.len() && listed(
                patterns,
                #[trigger] second[i],
            ) && listed(patterns, #[trigger] second[j]) && manifest_key(second[i].path)
                == manifest_key(second[j].path) implies second[i].content
            == second[j].content by {
            assert(second.contains(second[i]));
            assert(second.contains(second[j]));
            let a = choose|a: int| 0 <= a < first.len() && first[a] == second[i];
            let b = choose|b: int| 0 <= b < first.len() && first[b] == second[j];
            assert(first[a].content == first[b].content);
        }
    }
    lemma_manifest_members(first, patterns);
    lemma_manifest_members(second, patterns);
    let m1 = manifest_of(first, patterns);
    let m2 = manifest_of(second, patterns);
    assert forall|k: Seq<char>| m1.dom().contains(k) <==> m2.dom().contains(k) by {
        if m1.dom().contains(k) {
            let i = choose|i: int|
                0 <= i < first.len() && listed(patterns, #[trigger] first[i]) && manifest_key(
                    first[i].path,
                ) == k;
            assert(first.contains(first[i]));
            let j = choose|j: int| 0 <= j < second.len() && second[j] == first[i];
            assert(listed(patterns, second[j]));
        }
        if m2.dom().contains(k) {
            let i = choose|i: int|
                0 <= i < second.len() && listed(patterns, #[trigger] second[i])
                    && manifest_key(second[i].path) == k;
            assert(second.contains(second[i]));
            let j = choose|j: int| 0 <= j < first.len() && first[j] == second[i];
            assert(listed(patterns, first[j]));
        }
    }
    assert forall|k: Seq<char>| m1.dom().contains(k) implies m1[k] == m2[k] by {
        let i = choose|i: int|
            0 <= i < first.len() && listed(patterns, #[trigger] first[i]) && manifest_key(
                first[i].path,
            ) == k;
        assert(first.contains(first[i]));
        let j = choose|j: int| 0 <= j < second.len() && second[j] == first[i];
        assert(listed(patterns, second[j]));
    }
    assert(m1 =~= m2);
}

/// An uploaded file is found again where it was written: the destination of
/// an upload lies below the target by exactly the sanitized name.
pub proof fn lemma_upload_lands(target: Seq<char>, file_name: Seq<char>)
    ensures
        relative(child_path(target, sanitized(file_name)), target) == Some(sanitized(file_name)),
{
    lemma_child_components(target, file_name);
    lemma_sanitized_is_relative(file_name);
    let base = components(target);
    let segs = plain_segments(file_name);
    assert((base + segs).subrange(0, base.len() as int) == base);
    assert((base + segs).skip(base.len() as int) == segs);
}

/// Upload, then fetch the manifest: the manifest built from any walk that
/// finds an uploaded file with the bytes that were sent records for it the
/// hash of those bytes, which is what the sender computes from them.
pub proof fn lemma_upload_round_trip(
    files: Seq<FileView>,
    patterns: Seq<Seq<char>>,
    file_name: Seq<char>,
    bytes: Seq<u8>,
)
    requires
        single_valued(files, patterns),
        files.contains(FileView { path: sanitized(file_name), content: Some(bytes) }),
        !crate::exclude::pruned(patterns, sanitized(file_name)),
    ensures
        manifest_of(files, patterns).dom().contains(manifest_key(sanitized(file_name))),
        manifest_of(files, patterns)[manifest_key(sanitized(file_name))] == content_hash(bytes),
{
    lemma_manifest_members(files, patterns);
    let f = FileView { path: sanitized(file_name), content: Some(bytes) };
    let i = choose|i: int| 0 <= i < files.len() && files[i] == f;
    assert(listed(patterns, files[i]));
}

/// Once the paths that [`diff`] names have been copied, nothing is left to
/// transfer; and between equal manifests nothing is transferred at all.
pub proof fn lemma_transfer_settles(
    source: Map<Seq<char>, Seq<char>>,
    dest: Map<Seq<char>, Seq<char>>,
    after: Map<Seq<char>, Seq<char>>,
)
    requires
        forall|p: Seq<char>|
            needs_transfer(source, dest, p) ==> after.dom().contains(p) && after[p] == source[p],
        forall|p: Seq<char>|
            !needs_transfer(source, dest, p) && dest.dom().contains(p) ==> after.dom().contains(p)
                && after[p] == dest[p],
    ensures
        forall|p: Seq<char>| !needs_transfer(source, after, p),
        forall|p: Seq<char>| !needs_transfer(source, source, p),
{
    assert forall|p: Seq<char>| !needs_transfer(source, after, p) by {
        if source.dom().contains(p) {
            if needs_transfer(source, dest, p) {
                assert(after[p] == source[p]);
            } else {
                assert(dest.dom().contains(p));
                assert(after[p] == dest[p]);
            }
        }
    }
}

} // verus!
