//! Packing the chosen entries into a zip archive held in memory.

use crate::archive::{
    archive_plan, distinct_relatives, item_name, lemma_plan_names, ArchiveItem, ItemView, WalkView,
};
use std::io::Cursor;
use vstd::prelude::*;
use zip::result::ZipError;
use zip::write::ZipWriter;

verus! {

/// A zip archive under construction, in memory.
///
/// Trusted: holds a `zip::ZipWriter` over a byte buffer. What it holds is
/// known only through [`zip_entries`].
#[verifier::external_body]
pub struct ArchiveWriter {
    inner: ZipWriter<Cursor<Vec<u8>>>,
}

/// Trusted: declares `zip::result::ZipError`, the failure of an archive
/// operation. Nothing is known of a value but that it is one.
#[verifier::external_type_specification]
#[verifier::external_body]
pub struct ExZipError(ZipError);

/// Trusted: declares `std::io::Error`, the failure of a write. Nothing is
/// known of a value but that it is one.
#[verifier::external_type_specification]
#[verifier::external_body]
pub struct ExIoError(std::io::Error);

/// The entries a writer holds, in the order they were added: for each its
/// stored name, its bytes, its permission bits and whether it is a directory.
pub uninterp spec fn zip_entries(writer: ArchiveWriter) -> Seq<
    (Seq<char>, Seq<u8>, u32, bool),
>;

/// Whether the entry added last is a file that still takes bytes.
pub uninterp spec fn zip_writing(writer: ArchiveWriter) -> bool;

/// The bytes of the finished archive that holds the given entries.
pub uninterp spec fn zip_encoding(entries: Seq<(Seq<char>, Seq<u8>, u32, bool)>) -> Seq<u8>;

/// The most bytes a stored name may have: its length is written in 16 bits.
pub const NAME_BYTES_MAX: usize = 0xffff;

/// The most bytes of a file for which packing is promised. The archive
/// writer takes a file only where its bytes, and what they are deflated to,
/// stay below 4 GiB. Deflating never adds more than a few bytes to a block of
/// thousands, since a block that would grow is stored as it is, so a file of
/// at most this size, 2 GiB less one byte, is well within that.
pub const FILE_BYTES_MAX: usize = 0x7fff_ffff;

/// The number of bytes a text has in UTF-8.
pub open spec fn byte_len(name: Seq<char>) -> nat {
    vstd::utf8::encode_utf8(name).len()
}

/// A text has at least one byte and at most four for each character, so a
/// name of at most 16383 characters has at most [`NAME_BYTES_MAX`] bytes.
pub proof fn lemma_byte_len_bounds(name: Seq<char>)
    ensures
        name.len() <= byte_len(name) <= 4 * name.len(),
    decreases name.len(),
{
    if name.len() > 0 {
        lemma_byte_len_bounds(name.drop_first());
        let first = vstd::utf8::encode_scalar(name[0] as u32);
        assert(1 <= first.len() <= 4);
        assert(vstd::utf8::encode_utf8(name) == first + vstd::utf8::encode_utf8(name.drop_first()));
    }
}

/// An entry is stored under this name already.
pub open spec fn holds_name(entries: Seq<(Seq<char>, Seq<u8>, u32, bool)>, name: Seq<char>) -> bool {
    exists|i: int| 0 <= i < entries.len() && (#[trigger] entries[i]).0 == name
}

/// No entry holds more than [`FILE_BYTES_MAX`] bytes.
pub open spec fn all_fit(entries: Seq<(Seq<char>, Seq<u8>, u32, bool)>) -> bool {
    forall|i: int| 0 <= i < entries.len() ==> (#[trigger] entries[i]).1.len() <= FILE_BYTES_MAX
}

/// Opens an archive in memory.
///
/// Trusted: stands for `zip::ZipWriter::new` on an empty buffer. The claim is
/// that the new writer holds no entry and no file is open.
#[verifier::external_body]
fn zip_open() -> (writer: ArchiveWriter)
    ensures
        zip_entries(writer) == Seq::<(Seq<char>, Seq<u8>, u32, bool)>::empty(),
        !zip_writing(writer),
{
    ArchiveWriter { inner: ZipWriter::new(Cursor::new(Vec::new())) }
}

/// Starts a file entry.
///
/// Trusted: stands for `zip::ZipWriter::start_file` with the default options,
/// under which entries are deflated, and the given permission bits. The name
/// must fit 16 bits of length, or the call panics, and of the mode only the
/// lowest nine bits are kept, so no others may be set. The claims: where the
/// entries held so far fit, the call succeeds exactly where no entry is
/// stored under the name; on success the writer has one more entry, a file of
/// that name and mode without bytes yet, behind the entries it had, and that
/// file is open. Nothing is claimed of the writer after a failure.
#[verifier::external_body]
fn zip_start_file(writer: &mut ArchiveWriter, name: &str, mode: u32) -> (r: Result<
    (),
    ZipError,
>)
    requires
        byte_len(name@) <= NAME_BYTES_MAX,
        mode <= 0o777,
    ensures
        all_fit(zip_entries(*old(writer))) ==> (r is Ok <==> !holds_name(
            zip_entries(*old(writer)),
            name@,
        )),
        r is Ok ==> zip_entries(*final(writer)) == zip_entries(*old(writer)).push(
            (name@, Seq::<u8>::empty(), mode, false),
        ),
        r is Ok ==> zip_writing(*final(writer)),
{
    writer.inner.start_file(name, zip::write::SimpleFileOptions::default().unix_permissions(mode))
}

/// Appends bytes to the file entry that was started last.
///
/// Trusted: stands for `std::io::Write::write_all` on a `zip::ZipWriter`.
/// The claims: where a file is open and holds at most [`FILE_BYTES_MAX`]
/// bytes with the new ones, the call succeeds; on success the bytes were
/// added to the last entry, which stays open, and nothing else changed;
/// writing no bytes succeeds and changes nothing. Nothing is claimed of the
/// writer after a failure.
#[verifier::external_body]
fn zip_write_all(writer: &mut ArchiveWriter, data: &[u8]) -> (r: Result<(), std::io::Error>)
    ensures
        data@.len() == 0 ==> r is Ok,
        zip_writing(*old(writer)) && zip_entries(*old(writer)).len() > 0 && zip_entries(
            *old(writer),
        ).last().1.len() + data@.len() <= FILE_BYTES_MAX ==> r is Ok,
        r is Ok && data@.len() == 0 ==> zip_entries(*final(writer)) == zip_entries(*old(writer))
            && zip_writing(*final(writer)) == zip_writing(*old(writer)),
        r is Ok && data@.len() > 0 ==> zip_entries(*old(writer)).len() > 0 && zip_writing(
            *final(writer),
        ) && zip_entries(*final(writer)) == zip_entries(*old(writer)).drop_last().push(
            (
                zip_entries(*old(writer)).last().0,
                zip_entries(*old(writer)).last().1 + data@,
                zip_entries(*old(writer)).last().2,
                zip_entries(*old(writer)).last().3,
            ),
        ),
{
    std::io::Write::write_all(&mut writer.inner, data)
}

/// Adds a directory entry.
///
/// Trusted: stands for `zip::ZipWriter::add_directory` with the default
/// options and the given permission bits. A directory is stored under its
/// name with a `/` added unless it already ends in `/` or `\`; that stored
/// name must fit 16 bits of length, or the call panics, and of the mode only
/// the lowest nine bits are kept. The claims: where the entries held so far
/// fit, the call succeeds exactly where no entry is stored under the stored
/// name; on success the writer has one more entry, a directory without
/// bytes, and no file is open. Nothing is claimed of the writer after a
/// failure.
#[verifier::external_body]
fn zip_add_directory(writer: &mut ArchiveWriter, name: &str, mode: u32) -> (r: Result<
    (),
    ZipError,
>)
    requires
        byte_len(directory_name(name@)) <= NAME_BYTES_MAX,
        mode <= 0o777,
    ensures
        all_fit(zip_entries(*old(writer))) ==> (r is Ok <==> !holds_name(
            zip_entries(*old(writer)),
            directory_name(name@),
        )),
        r is Ok ==> zip_entries(*final(writer)) == zip_entries(*old(writer)).push(
            (directory_name(name@), Seq::<u8>::empty(), mode, true),
        ),
        r is Ok ==> !zip_writing(*final(writer)),
{
    writer.inner.add_directory(name, zip::write::SimpleFileOptions::default().unix_permissions(mode))
}

/// Ends the archive and hands out its bytes.
///
/// Trusted: stands for `zip::ZipWriter::finish`. The claims: where the
/// entries fit, the call succeeds; and the bytes of a finished archive depend
/// on the entries the writer held and on nothing else, named
/// [`zip_encoding`]. `zip` is built here without its clock feature, so no
/// time enters. Nothing is said of what the bytes are.
#[verifier::external_body]
fn zip_finish(writer: ArchiveWriter) -> (r: Result<Vec<u8>, ZipError>)
    ensures
        all_fit(zip_entries(writer)) ==> r is Ok,
        r matches Ok(bytes) ==> bytes@ == zip_encoding(zip_entries(writer)),
{
    match writer.inner.finish() {
        Ok(cursor) => Ok(cursor.into_inner()),
        Err(e) => Err(e),
    }
}

/// The name under which a directory is stored: the given name, with a `/`
/// behind it unless it ends in `/` or `\` already.
pub open spec fn directory_name(name: Seq<char>) -> Seq<char> {
    if name.len() > 0 && (name.last() == '/' || name.last() == '\\') {
        name
    } else {
        name.push('/')
    }
}

/// The permission bits every entry of an archive gets: `rwxr-xr-x`.
pub const ENTRY_MODE: u32 = 0o755;

/// An entry to pack, with its bytes at hand.
#[derive(Debug)]
pub enum PackEntry {
    File { name: String, data: Vec<u8> },
    Directory { name: String },
}

/// What the writer is to hold for an entry.
pub open spec fn packed(entry: PackEntry) -> (Seq<char>, Seq<u8>, u32, bool) {
    match entry {
        PackEntry::File { name, data } => (name@, data@, ENTRY_MODE, false),
        PackEntry::Directory { name } => (directory_name(name@), Seq::<u8>::empty(), ENTRY_MODE, true),
    }
}

/// What the writer is to hold for a list of entries.
pub open spec fn packed_all(entries: Seq<PackEntry>) -> Seq<(Seq<char>, Seq<u8>, u32, bool)> {
    Seq::new(entries.len(), |i: int| packed(entries[i]))
}

/// The entry at `i` cannot be added: its stored name is longer than
/// [`NAME_BYTES_MAX`] bytes, or an earlier entry is stored under it.
pub open spec fn refused(entries: Seq<PackEntry>, i: int) -> bool {
    byte_len(packed(entries[i]).0) > NAME_BYTES_MAX || holds_name(
        packed_all(entries).take(i),
        packed(entries[i]).0,
    )
}

/// The entry that packs an item of a plan: a file with the bytes that were
/// read for it, a directory as it is.
pub fn pack_entry(item: ArchiveItem, data: Vec<u8>) -> (entry: PackEntry)
    ensures
        entry == (match item {
            ArchiveItem::File { name, .. } => PackEntry::File { name, data },
            ArchiveItem::Directory { name } => PackEntry::Directory { name },
        }),
        packed(entry).0 == stored_item_name(item@),
{
    match item {
        ArchiveItem::File { name, .. } => PackEntry::File { name, data },
        ArchiveItem::Directory { name } => PackEntry::Directory { name },
    }
}

/// The name under which an item of a plan is stored in the archive.
pub open spec fn stored_item_name(item: ItemView) -> Seq<char> {
    match item {
        ItemView::File { name, .. } => name,
        ItemView::Directory { name } => directory_name(name),
    }
}

/// The path does not end in a separator.
pub open spec fn open_ended(path: Seq<char>) -> bool {
    path.len() == 0 || (path.last() != '/' && path.last() != '\\')
}

/// The plan of a walk packs without a repeated name. Where the walk names
/// each path once and no path ends in a separator, no entry made from an
/// item of its plan is stored under the name of an earlier one, so packing
/// them succeeds wherever the names and files are within the limits.
pub proof fn lemma_plan_packs(
    root_name: Seq<char>,
    walk: Seq<WalkView>,
    entries: Seq<PackEntry>,
    k: int,
)
    requires
        distinct_relatives(walk),
        forall|i: int| 0 <= i < walk.len() ==> open_ended((#[trigger] walk[i]).relative),
        entries.len() == archive_plan(root_name, walk, walk.len() as int).len(),
        forall|j: int|
            0 <= j < entries.len() ==> packed(#[trigger] entries[j]).0 == stored_item_name(
                archive_plan(root_name, walk, walk.len() as int)[j],
            ),
        0 <= k < entries.len(),
    ensures
        !holds_name(packed_all(entries).take(k), packed(entries[k]).0),
{
    let plan = archive_plan(root_name, walk, walk.len() as int);
    lemma_plan_names(root_name, walk, walk.len() as int);
    let held = packed_all(entries).take(k);
    assert forall|j: int| 0 <= j < held.len() implies (#[trigger] held[j]).0 != packed(
        entries[k],
    ).0 by {
        assert(held[j] == packed(entries[j]));
        assert(item_name(plan[j]) != item_name(plan[k]));
        let x = choose|x: int|
            0 <= x < walk.len() && (#[trigger] walk[x]).relative == item_name(plan[j]);
        let y = choose|y: int|
            0 <= y < walk.len() && (#[trigger] walk[y]).relative == item_name(plan[k]);
        assert(open_ended(walk[x].relative));
        assert(open_ended(walk[y].relative));
        lemma_stored_names_differ(plan[j], plan[k]);
    }
}

/// Items with different names that do not end in a separator are stored
/// under different names.
pub proof fn lemma_stored_names_differ(a: ItemView, b: ItemView)
    requires
        item_name(a) != item_name(b),
        open_ended(item_name(a)),
        open_ended(item_name(b)),
    ensures
        stored_item_name(a) != stored_item_name(b),
{
    let x = item_name(a);
    let y = item_name(b);
    if a is Directory && b is Directory {
        if x.push('/') == y.push('/') {
            assert(x.push('/').drop_last() == x);
            assert(y.push('/').drop_last() == y);
        }
    } else if a is Directory {
        assert(x.push('/').last() == '/');
    } else if b is Directory {
        assert(y.push('/').last() == '/');
    }
}

/// Why an archive could not be packed.
#[derive(Debug, Clone, Copy, PartialEq, Eq, Structural)]
pub enum PackError {
    /// The entry at this position was refused.
    Entry(usize),
    /// The archive could not be finished.
    Finish,
}

/// The name under which a directory is stored.
fn stored_directory_name(name: &String) -> (stored: String)
    ensures
        stored@ == directory_name(name@),
        directory_name(stored@) == stored@,
{
    let v = crate::text::chars_of(name.as_str());
    if v.len() > 0 && (v[v.len() - 1] == '/' || v[v.len() - 1] == '\\') {
        name.clone()
    } else {
        proof {
            reveal_strlit("/");
            assert("/"@ =~= seq!['/']);
            assert(name@ + seq!['/'] =~= name@.push('/'));
        }
        crate::text::catenate(name.as_str(), "/")
    }
}

/// Packs the entries, in their order, into a zip archive in memory, each with
/// the permission bits `rwxr-xr-x`. A directory is stored under its name
/// with a `/` behind it.
///
/// Where no file holds more than [`FILE_BYTES_MAX`] bytes, packing succeeds
/// exactly where every stored name has at most [`NAME_BYTES_MAX`] bytes and
/// no two entries are stored under one name; otherwise the first entry that
/// is refused is named. On success the bytes are those of the archive that
/// holds exactly the given entries. Of a larger file the archive writer
/// decides.
pub fn pack_archive(entries: &Vec<PackEntry>) -> (r: Result<Vec<u8>, PackError>)
    ensures
        match r {
            Ok(bytes) => bytes@ == zip_encoding(packed_all(entries@)),
            Err(PackError::Entry(i)) => i < entries@.len(),
            Err(PackError::Finish) => true,
        },
        all_fit(packed_all(entries@)) ==> match r {
            Ok(_) => forall|i: int| 0 <= i < entries@.len() ==> !refused(entries@, i),
            Err(PackError::Entry(i)) => refused(entries@, i as int) && forall|j: int|
                0 <= j < i ==> !refused(entries@, j),
            Err(PackError::Finish) => false,
        },
{
    let mut writer = zip_open();
    let mut i: usize = 0;
    let ghost fit = all_fit(packed_all(entries@));
    assert(packed_all(entries@).take(0) =~= Seq::<(Seq<char>, Seq<u8>, u32, bool)>::empty());
    while i < entries.len()
        invariant
            i <= entries.len(),
            fit == all_fit(packed_all(entries@)),
            zip_entries(writer) == packed_all(entries@).take(i as int),
            fit ==> forall|j: int| 0 <= j < i ==> !refused(entries@, j),
        decreases entries.len() - i,
    {
        let ghost before = zip_entries(writer);
        let ghost want = packed_all(entries@).take(i + 1);
        proof {
            assert(want.drop_last() == before);
            assert(want.last() == packed(entries@[i as int]));
            assert(want == before.push(packed(entries@[i as int])));
            if fit {
                assert forall|k: int| 0 <= k < before.len() implies (#[trigger] before[k]).1.len()
                    <= FILE_BYTES_MAX by {
                    assert(before[k] == packed_all(entries@)[k]);
                }
                assert(packed_all(entries@)[i as int].1.len() <= FILE_BYTES_MAX);
            }
        }
        match &entries[i] {
            PackEntry::File { name, data } => {
                if name.as_str().as_bytes().len() > NAME_BYTES_MAX {
                    return Err(PackError::Entry(i));
                }
                match zip_start_file(&mut writer, name.as_str(), ENTRY_MODE) {
                    Ok(()) => {},
                    Err(_) => {
                        return Err(PackError::Entry(i));
                    },
                }
                let ghost started = zip_entries(writer);
                match zip_write_all(&mut writer, data.as_slice()) {
                    Ok(()) => {},
                    Err(_) => {
                        proof {
                            assert(started.last().1.len() == 0);
                            assert(!fit);
                        }
                        return Err(PackError::Entry(i));
                    },
                }
                proof {
                    assert(started.drop_last() == before);
                    assert(Seq::<u8>::empty() + data@ == data@);
                    if data@.len() == 0 {
                        assert(data@ == Seq::<u8>::empty());
                    }
                    assert(zip_entries(writer) == want);
                }
            },
            PackEntry::Directory { name } => {
                let stored = stored_directory_name(name);
                if stored.as_str().as_bytes().len() > NAME_BYTES_MAX {
                    return Err(PackError::Entry(i));
                }
                match zip_add_directory(&mut writer, stored.as_str(), ENTRY_MODE) {
                    Ok(()) => {},
                    Err(_) => {
                        return Err(PackError::Entry(i));
                    },
                }
            },
        }
        i += 1;
    }
    assert(packed_all(entries@).take(entries@.len() as int) == packed_all(entries@));
    match zip_finish(writer) {
        Ok(bytes) => Ok(bytes),
        Err(_) => Err(PackError::Finish),
    }
}

} // verus!
