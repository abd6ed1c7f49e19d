use std::io::{Cursor, Read};
use vstd::prelude::*;
use zip::ZipArchive;

use crate::paths::{joined_path, path_join};

verus! {

/// One entry of a zip archive: its sanitized relative path, whether it is a
/// directory, and its uncompressed contents (empty for a directory).
#[derive(Clone, Debug, PartialEq, Eq)]
pub struct ZipEntry {
    pub path: String,
    pub is_dir: bool,
    pub contents: Vec<u8>,
}

/// The entries of a zip archive held in `bytes`, in the archive's order, as
/// the `zip` crate lists them; when the archive cannot be read, the text of
/// the crate's error.
pub uninterp spec fn zip_listing(bytes: Seq<u8>) -> Result<Seq<(Seq<char>, bool, Seq<u8>)>, Seq<char>>;

/// The plain value of an entry.
pub open spec fn entry_view(e: ZipEntry) -> (Seq<char>, bool, Seq<u8>) {
    (e.path@, e.is_dir, e.contents@)
}

/// `zip::ZipArchive::new` over the bytes, then for each index `by_index`,
/// `mangled_name` (the entry's path made safe: relative, without `..`
/// escaping the target, without NUL bytes), `is_dir` and `read_to_end`.
/// The listing is named, not stated: the zip format with its compression
/// methods takes pages. It is a function of the bytes alone; an error of
/// the crate (or of reading an entry) gives its text.
#[verifier::external_body]
pub(crate) fn zip_entries(bytes: &[u8]) -> (r: Result<Vec<ZipEntry>, String>)
    ensures
        match r {
            Ok(v) => zip_listing(bytes@) matches Ok(l) && v@.map_values(|e: ZipEntry| entry_view(e)) == l,
            Err(msg) => zip_listing(bytes@) == Err::<Seq<(Seq<char>, bool, Seq<u8>)>, Seq<char>>(msg@),
        },
{
    let mut archive = ZipArchive::new(Cursor::new(bytes)).map_err(|e| e.to_string())?;
    let mut out = Vec::new();
    for index in 0..archive.len() {
        let mut file = archive.by_index(index).map_err(|e| e.to_string())?;
        let mut contents = Vec::new();
        file.read_to_end(&mut contents).map_err(|e| e.to_string())?;
        let path = file.mangled_name().to_string_lossy().into_owned();
        out.push(ZipEntry { path, is_dir: file.is_dir(), contents });
    }
    Ok(out)
}

/// What unpacking one entry writes: a directory to create, or a file with
/// its contents (its parent directories created first).
#[derive(Clone, Debug, PartialEq, Eq)]
pub enum ArchiveWrite {
    Dir(String),
    File { path: String, contents: Vec<u8> },
}

/// The write that unpacks the entry `e` under the directory `target`.
pub open spec fn is_entry_write(target: Seq<char>, e: (Seq<char>, bool, Seq<u8>), w: ArchiveWrite) -> bool {
    match w {
        ArchiveWrite::Dir(path) => e.1 && path@ == joined_path(target, e.0),
        ArchiveWrite::File { path, contents } => !e.1 && path@ == joined_path(target, e.0)
            && contents@ == e.2,
    }
}

/// The writes that unpack `entries` under `target`: one per entry, in order.
pub open spec fn are_entry_writes(
    target: Seq<char>,
    entries: Seq<(Seq<char>, bool, Seq<u8>)>,
    writes: Seq<ArchiveWrite>,
) -> bool {
    &&& writes.len() == entries.len()
    &&& forall|i: int| 0 <= i < entries.len() ==> is_entry_write(target, entries[i], #[trigger] writes[i])
}

/// The writes that unpack the given entries under the directory `target`:
/// each entry at `target` joined with its path, a directory created, a file
/// written with its contents.
pub fn plan_archive_writes(target: &str, entries: Vec<ZipEntry>) -> (r: Vec<ArchiveWrite>)
    ensures
        are_entry_writes(target@, entries@.map_values(|e: ZipEntry| entry_view(e)), r@),
{
    let ghost orig = entries@;
    let ghost views = orig.map_values(|e: ZipEntry| entry_view(e));
    let mut rest = entries;
    let mut out: Vec<ArchiveWrite> = Vec::new();
    assert(orig.skip(0) =~= orig);
    while rest.len() > 0
        invariant
            out.len() <= orig.len(),
            rest@ == orig.skip(out.len() as int),
            views == orig.map_values(|e: ZipEntry| entry_view(e)),
            forall|i: int| 0 <= i < out.len() ==> is_entry_write(target@, views[i], #[trigger] out@[i]),
        decreases rest.len(),
    {
        let e = rest.remove(0);
        proof {
            assert(e == orig[out.len() as int]);
            assert(orig.skip(out.len() as int).drop_first() =~= orig.skip(out.len() + 1));
        }
        let path = path_join(target, e.path.as_str());
        let w = if e.is_dir {
            ArchiveWrite::Dir(path)
        } else {
            ArchiveWrite::File { path, contents: e.contents }
        };
        assert(is_entry_write(target@, views[out.len() as int], w));
        out.push(w);
    }
    out
}

/// The writes that unpack the zip archive held in `bytes` under the
/// directory `target`; the text of the error when the archive cannot be
/// read.
pub fn archive_writes(bytes: &[u8], target: &str) -> (r: Result<Vec<ArchiveWrite>, String>)
    ensures
        match r {
            Ok(w) => zip_listing(bytes@) matches Ok(l) && are_entry_writes(target@, l, w@),
            Err(msg) => zip_listing(bytes@) == Err::<Seq<(Seq<char>, bool, Seq<u8>)>, Seq<char>>(msg@),
        },
{
    match zip_entries(bytes) {
        Err(msg) => Err(msg),
        Ok(entries) => Ok(plan_archive_writes(target, entries)),
    }
}

} // verus!
