//! What the archive of a bundle holds, and what is to be done to unpack it.
use crate::host::adapter_loader::bundle::{
    entry_ops, entry_plan, join_path, under, BundleError, BundleErrorView, EntryOp,
};
use crate::scan::{trim, trimmed};
use crate::text::{chars_of, string_of};
use std::io::{Cursor, Read};
use vstd::prelude::*;
use vstd::utf8::{
    decode_utf8, encode_utf8, encode_utf8_decode_utf8, encode_utf8_valid_utf8, valid_utf8,
};
use zip::ZipArchive;

verus! {

/// `std::io::Cursor`, a reader of bytes in memory.
#[verifier::external_type_specification]
#[verifier::external_body]
#[verifier::reject_recursive_types(T)]
pub struct ExCursor<T>(std::io::Cursor<T>);

/// `zip::ZipArchive`, an archive whose directory was read.
#[verifier::external_type_specification]
#[verifier::external_body]
#[verifier::reject_recursive_types(R)]
pub struct ExZipArchive<R>(zip::ZipArchive<R>);

/// The bytes that an archive was opened on.
pub uninterp spec fn archive_bytes(archive: ZipArchive<Cursor<&[u8]>>) -> Seq<u8>;

/// The number of entries of the archive in these bytes, or why there is no
/// archive in them.
pub uninterp spec fn archive_count(data: Seq<u8>) -> Result<usize, Seq<char>>;

/// An entry of the archive in these bytes, or why it cannot be read.
pub uninterp spec fn archive_entry(data: Seq<u8>, index: usize) -> Result<
    ArchiveEntryView,
    Seq<char>,
>;

/// An entry of an archive.
#[derive(Debug)]
pub struct ArchiveEntry {
    pub name: String,
    pub is_dir: bool,
    pub is_symlink: bool,
    /// The permissions, if the archive says them.
    pub mode: Option<u32>,
    /// The contents, or why they cannot be read.
    pub contents: Result<Vec<u8>, String>,
}

/// The mathematical content of an [`ArchiveEntry`].
pub struct ArchiveEntryView {
    pub name: Seq<char>,
    pub is_dir: bool,
    pub is_symlink: bool,
    pub mode: Option<u32>,
    pub contents: Result<Seq<u8>, Seq<char>>,
}

impl View for ArchiveEntry {
    type V = ArchiveEntryView;

    open spec fn view(&self) -> ArchiveEntryView {
        ArchiveEntryView {
            name: self.name@,
            is_dir: self.is_dir,
            is_symlink: self.is_symlink,
            mode: self.mode,
            contents: match self.contents {
                Ok(bytes) => Ok(bytes@),
                Err(text) => Err(text@),
            },
        }
    }
}

/// `zip::ZipArchive::new` reads the directory of the archive in some bytes. It
/// fails, with a text that depends on the bytes alone, where there is none.
#[verifier::external_body]
fn open_archive(data: &[u8]) -> (r: Result<ZipArchive<Cursor<&[u8]>>, String>)
    ensures
        match r {
            Ok(archive) => archive_bytes(archive) == data@ && archive_count(data@) is Ok,
            Err(text) => archive_count(data@) == Err::<usize, Seq<char>>(text@),
        },
{
    ZipArchive::new(Cursor::new(data)).map_err(|e| e.to_string())
}

/// `zip::ZipArchive::len` gives the number of entries in the directory, which
/// depends on the bytes of the archive alone.
#[verifier::external_body]
fn count_entries(archive: &ZipArchive<Cursor<&[u8]>>) -> (r: usize)
    ensures
        (archive_count(archive_bytes(*archive)) == Ok::<usize, Seq<char>>(r)),
{
    archive.len()
}

/// `zip::ZipArchive::by_index` finds an entry, and `zip::read::ZipFile` tells
/// its name, kind, permissions and contents. All of that depends on the bytes
/// of the archive and on the index alone, as do the failures: an entry that
/// cannot be found or opened, and contents that cannot be read to their end.
/// The archive stays one on the same bytes.
#[verifier::external_body]
fn read_archive_entry(archive: &mut ZipArchive<Cursor<&[u8]>>, index: usize) -> (r: Result<
    ArchiveEntry,
    String,
>)
    ensures
        archive_bytes(*final(archive)) == archive_bytes(*old(archive)),
        match r {
            Ok(entry) => archive_entry(archive_bytes(*old(archive)), index) == Ok::<
                ArchiveEntryView,
                Seq<char>,
            >(entry@),
            Err(text) => archive_entry(archive_bytes(*old(archive)), index) == Err::<
                ArchiveEntryView,
                Seq<char>,
            >(text@),
        },
{
    let mut file = archive.by_index(index).map_err(|e| e.to_string())?;
    let mut bytes = Vec::new();
    let read = file.read_to_end(&mut bytes).map_err(|e| e.to_string());
    Ok(ArchiveEntry {
        name: file.name().to_owned(),
        is_dir: file.is_dir(),
        is_symlink: file.is_symlink(),
        mode: file.unix_mode(),
        contents: read.map(|_| bytes),
    })
}

/// `std::str::from_utf8` reads bytes as text, exactly where they are UTF-8.
#[verifier::external_body]
fn text_from_utf8(bytes: &[u8]) -> (r: Option<String>)
    ensures
        match r {
            Some(text) => valid_utf8(bytes@) && text@ == decode_utf8(bytes@),
            None => !valid_utf8(bytes@),
        },
{
    std::str::from_utf8(bytes).ok().map(str::to_owned)
}

/// Where a link leads: its contents as text, without spaces around it. The
/// contents may be unreadable or no text.
pub open spec fn target_of(contents: Result<Seq<u8>, Seq<char>>) -> Result<Seq<char>, Seq<char>> {
    match contents {
        Ok(bytes) => if valid_utf8(bytes) {
            Ok(trimmed(decode_utf8(bytes)))
        } else {
            Err("stream did not contain valid UTF-8"@)
        },
        Err(text) => Err(text),
    }
}

/// What it takes to unpack an entry.
#[derive(Debug)]
pub struct EntryWork {
    pub entry: ArchiveEntry,
    /// Where the entry goes.
    pub path: String,
    /// What to do, in order.
    pub ops: Vec<EntryOp>,
    /// Where a link leads, or why that cannot be told. An entry that is no
    /// link has none.
    pub target: Option<Result<String, String>>,
}

/// The mathematical content of an [`EntryWork`].
pub struct EntryWorkView {
    pub entry: ArchiveEntryView,
    pub path: Seq<char>,
    pub ops: Seq<EntryOp>,
    pub target: Option<Result<Seq<char>, Seq<char>>>,
}

impl View for EntryWork {
    type V = EntryWorkView;

    open spec fn view(&self) -> EntryWorkView {
        EntryWorkView {
            entry: self.entry@,
            path: self.path@,
            ops: self.ops@,
            target: match self.target {
                Some(Ok(target)) => Some(Ok(target@)),
                Some(Err(text)) => Some(Err(text@)),
                None => None,
            },
        }
    }
}

/// What it takes to unpack an entry into a directory.
pub open spec fn planned(entry: ArchiveEntryView, cache_dir: Seq<char>) -> EntryWorkView {
    EntryWorkView {
        entry,
        path: under(cache_dir, entry.name),
        ops: entry_plan(entry.is_dir, entry.is_symlink),
        target: if !entry.is_dir && entry.is_symlink {
            Some(target_of(entry.contents))
        } else {
            None
        },
    }
}

/// Where a link with these contents leads.
pub fn link_target(contents: &Result<Vec<u8>, String>) -> (r: Result<String, String>)
    ensures
        (match r {
            Ok(target) => Ok(target@),
            Err(text) => Err(text@),
        }) == target_of(
            match contents {
                Ok(bytes) => Ok(bytes@),
                Err(text) => Err(text@),
            },
        ),
{
    match contents {
        Ok(bytes) => match text_from_utf8(bytes.as_slice()) {
            Some(text) => {
                let chars = chars_of(text.as_str());
                Ok(string_of(trim(chars.as_slice())))
            },
            None => Err("stream did not contain valid UTF-8".to_owned()),
        },
        Err(text) => Err(text.clone()),
    }
}

/// What it takes to unpack an entry into a directory.
pub fn plan_work(entry: ArchiveEntry, cache_dir: &str) -> (r: EntryWork)
    ensures
        r@ == planned(entry@, cache_dir@),
{
    let path = join_path(cache_dir, entry.name.as_str());
    let ops = entry_ops(entry.is_dir, entry.is_symlink);
    let target = if !entry.is_dir && entry.is_symlink {
        Some(link_target(&entry.contents))
    } else {
        None
    };
    EntryWork { entry, path, ops, target }
}

/// Why an operation cannot be done, if what it needs of the archive could not
/// be read.
pub open spec fn unreadable(work: EntryWorkView, op: EntryOp) -> Option<BundleErrorView> {
    match op {
        EntryOp::ReadTarget => match work.target {
            Some(Err(text)) => Some(BundleErrorView::Io(text, "reading symlink"@)),
            _ => None,
        },
        EntryOp::CopyContents => match work.entry.contents {
            Err(text) => Some(BundleErrorView::Io(text, "extracting file"@)),
            Ok(_) => None,
        },
        _ => None,
    }
}

impl EntryWork {
    /// Whether what an operation needs of the archive could be read.
    pub fn check(&self, op: EntryOp) -> (r: Result<(), BundleError>)
        ensures
            match r {
                Ok(()) => unreadable(self@, op) is None,
                Err(e) => unreadable(self@, op) == Some(e@),
            },
    {
        match op {
            EntryOp::ReadTarget => match &self.target {
                Some(Err(text)) => Err(BundleError::io(text.clone(), "reading symlink")),
                _ => Ok(()),
            },
            EntryOp::CopyContents => match &self.entry.contents {
                Err(text) => Err(BundleError::io(text.clone(), "extracting file")),
                Ok(_) => Ok(()),
            },
            _ => Ok(()),
        }
    }
}

/// The archive of a bundle.
pub struct Archive<'a> {
    zip: ZipArchive<Cursor<&'a [u8]>>,
}

impl<'a> View for Archive<'a> {
    type V = Seq<u8>;

    /// The bytes of the archive.
    closed spec fn view(&self) -> Seq<u8> {
        archive_bytes(self.zip)
    }
}

impl<'a> Archive<'a> {
    /// Opens the archive in some bytes.
    pub fn open(data: &'a [u8]) -> (r: Result<Archive<'a>, BundleError>)
        ensures
            match r {
                Ok(archive) => archive@ == data@ && archive_count(data@) is Ok,
                Err(e) => archive_count(data@) matches Err(text) && e@ == BundleErrorView::Io(
                    text,
                    "opening bundle zip"@,
                ),
            },
    {
        match open_archive(data) {
            Ok(zip) => Ok(Archive { zip }),
            Err(text) => Err(BundleError::io(text, "opening bundle zip")),
        }
    }

    /// The number of entries.
    pub fn count(&self) -> (r: usize)
        ensures
            archive_count(self@) == Ok::<usize, Seq<char>>(r),
    {
        count_entries(&self.zip)
    }

    /// What it takes to unpack one of the entries into a directory.
    pub fn plan_entry(&mut self, index: usize, cache_dir: &str) -> (r: Result<
        EntryWork,
        BundleError,
    >)
        ensures
            final(self)@ == old(self)@,
            match r {
                Ok(work) => archive_entry(old(self)@, index) matches Ok(entry) && work@ == planned(
                    entry,
                    cache_dir@,
                ),
                Err(e) => archive_entry(old(self)@, index) matches Err(text) && e@
                    == BundleErrorView::Io(text, "reading zip entry"@),
            },
    {
        match read_archive_entry(&mut self.zip, index) {
            Ok(entry) => Ok(plan_work(entry, cache_dir)),
            Err(text) => Err(BundleError::io(text, "reading zip entry")),
        }
    }
}

/// Entries with different names go to different places under the directory.
/// A name that starts at the root does not go there.
pub proof fn law_entries_are_apart(a: ArchiveEntryView, b: ArchiveEntryView, cache_dir: Seq<char>)
    requires
        a.name != b.name,
        a.name.len() > 0 ==> a.name[0] != '/',
        b.name.len() > 0 ==> b.name[0] != '/',
    ensures
        planned(a, cache_dir).path != planned(b, cache_dir).path,
        cache_dir.is_prefix_of(planned(a, cache_dir).path),
{
    reveal_strlit("/");
    let p = planned(a, cache_dir).path;
    let q = planned(b, cache_dir).path;
    let start = p.len() - a.name.len();
    assert(p.subrange(start, p.len() as int) =~= a.name);
    assert(q.subrange(q.len() - b.name.len(), q.len() as int) =~= b.name);
}

/// A link leads where its contents say, without the white space around it.
/// Contents that could not be read, or are no text, lead nowhere.
pub proof fn law_link_targets(text: Seq<char>, bytes: Seq<u8>, why: Seq<char>)
    ensures
        target_of(Ok(encode_utf8(text))) == Ok::<Seq<char>, Seq<char>>(trimmed(text)),
        target_of(Ok(bytes)) is Err <==> !valid_utf8(bytes),
        target_of(Err(why)) == Err::<Seq<char>, Seq<char>>(why),
{
    encode_utf8_valid_utf8(text);
    encode_utf8_decode_utf8(text);
}

/// What is unpacked is the entry itself, at the place its name says. Only a
/// link has a target, and only what could not be read of the archive stops an
/// operation: the contents of a file, and the target of a link.
pub proof fn law_plans_of_entries(entry: ArchiveEntryView, cache_dir: Seq<char>)
    ensures
        ({
            let work = planned(entry, cache_dir);
            &&& work.entry == entry
            &&& work.path == under(cache_dir, entry.name)
            &&& entry.is_dir ==> work.ops == seq![EntryOp::CreateDir]
            &&& work.target is Some <==> !entry.is_dir && entry.is_symlink
            &&& work.target matches Some(target) ==> target == target_of(entry.contents)
            &&& unreadable(work, EntryOp::CopyContents) is Some <==> entry.contents is Err
            &&& unreadable(work, EntryOp::ReadTarget) is Some <==> !entry.is_dir
                && entry.is_symlink && target_of(entry.contents) is Err
            &&& forall|op: EntryOp|
                op != EntryOp::CopyContents && op != EntryOp::ReadTarget ==> #[trigger] unreadable(
                    work,
                    op,
                ) is None
        }),
{
}

} // verus!
