//! The bundle that the adapters and their runtime come in.
//!
//! The bundle is an archive. It is unpacked into a directory whose name holds
//! the fingerprint of the bundle, so that another bundle is unpacked anew. A
//! marker file with the fingerprint says that the directory is complete.
use crate::scan::{is_space, trim, trimmed};
use crate::text::{chars_of, hex_byte, hex_char, push_hex_byte, same_chars};
use sha2::{Digest, Sha256};
use vstd::prelude::*;

verus! {

/// Hexadecimal digits in a fingerprint.
pub const FINGERPRINT_LEN: usize = 16;

/// The SHA-256 digest of some bytes.
pub uninterp spec fn sha256_digest(data: Seq<u8>) -> Seq<u8>;

/// `sha2::Sha256` computes the SHA-256 digest of its input, 32 bytes that
/// depend on the input alone.
#[verifier::external_body]
fn sha256(data: &[u8]) -> (r: Vec<u8>)
    ensures
        r@ == sha256_digest(data@),
        r@.len() == 32,
{
    let mut hasher = Sha256::new();
    hasher.update(data);
    hasher.finalize().to_vec()
}

/// Bytes as hexadecimal digits.
pub open spec fn hex_text(bytes: Seq<u8>) -> Seq<char>
    decreases bytes.len(),
{
    if bytes.len() == 0 {
        Seq::empty()
    } else {
        hex_text(bytes.drop_last()) + hex_byte(bytes.last())
    }
}

/// The start of a digest that names a bundle.
pub open spec fn fingerprint_of(digest: Seq<u8>) -> Seq<char> {
    hex_text(digest.take(FINGERPRINT_LEN as int / 2))
}

/// The first digits of a digest.
pub fn digest_fingerprint(digest: &[u8]) -> (r: String)
    requires
        digest@.len() >= FINGERPRINT_LEN / 2,
    ensures
        r@ == fingerprint_of(digest@),
        r@.len() == FINGERPRINT_LEN,
{
    let mut out = String::new();
    let mut i: usize = 0;
    while i < FINGERPRINT_LEN / 2
        invariant
            i <= FINGERPRINT_LEN / 2,
            digest@.len() >= FINGERPRINT_LEN / 2,
            out@ == hex_text(digest@.take(i as int)),
            out@.len() == 2 * i,
        decreases FINGERPRINT_LEN / 2 - i,
    {
        push_hex_byte(&mut out, digest[i]);
        i = i + 1;
        assert(digest@.take(i as int).drop_last() =~= digest@.take(i as int - 1));
    }
    out
}

/// The fingerprint of a bundle: the first sixteen hexadecimal digits of its
/// SHA-256 digest.
pub fn bundle_fingerprint(data: &[u8]) -> (r: String)
    ensures
        r@ == fingerprint_of(sha256_digest(data@)),
        r@.len() == FINGERPRINT_LEN,
{
    let digest = sha256(data);
    digest_fingerprint(digest.as_slice())
}

/// Why the bundle could not be made ready.
#[derive(Debug)]
pub enum BundleError {
    /// What the operating system said, and what was being done.
    Io(String, String),
    /// The bundle is not the one that was expected.
    HashMismatch { expected: String, actual: String },
}

/// The mathematical content of a [`BundleError`].
pub enum BundleErrorView {
    Io(Seq<char>, Seq<char>),
    HashMismatch { expected: Seq<char>, actual: Seq<char> },
}

impl View for BundleError {
    type V = BundleErrorView;

    open spec fn view(&self) -> BundleErrorView {
        match self {
            BundleError::Io(error, doing) => BundleErrorView::Io(error@, doing@),
            BundleError::HashMismatch { expected, actual } => BundleErrorView::HashMismatch {
                expected: expected@,
                actual: actual@,
            },
        }
    }
}

/// The text of a failure.
pub open spec fn bundle_error_message(e: BundleErrorView) -> Seq<char> {
    match e {
        BundleErrorView::Io(error, doing) => "Bundle I/O error ("@ + error + "): "@ + doing,
        BundleErrorView::HashMismatch { expected, actual } => "Bundle hash mismatch: expected "@
            + expected + ", got "@ + actual
            + ". The embedded bundle may be corrupted — rebuild the project."@,
    }
}

impl BundleError {
    /// A failure of the operating system, with what was being done.
    pub fn io(error: String, doing: &str) -> (r: BundleError)
        ensures
            r@ == BundleErrorView::Io(error@, doing@),
    {
        BundleError::Io(error, doing.to_owned())
    }

    /// The text shown to a person.
    pub fn message(&self) -> (r: String)
        ensures
            r@ == bundle_error_message(self@),
    {
        match self {
            BundleError::Io(error, doing) => {
                let mut out = "Bundle I/O error (".to_owned();
                out.push_str(error.as_str());
                out.push_str("): ");
                out.push_str(doing.as_str());
                out
            },
            BundleError::HashMismatch { expected, actual } => {
                let mut out = "Bundle hash mismatch: expected ".to_owned();
                out.push_str(expected.as_str());
                out.push_str(", got ");
                out.push_str(actual.as_str());
                out.push_str(". The embedded bundle may be corrupted — rebuild the project.");
                out
            },
        }
    }
}

/// Whether a fingerprint is the one that was expected.
pub fn check_fingerprint(actual: String, expected: &str) -> (r: Result<(), BundleError>)
    ensures
        match r {
            Ok(()) => actual@ == expected@,
            Err(e) => actual@ != expected@ && e@ == (BundleErrorView::HashMismatch {
                expected: expected@,
                actual: actual@,
            }),
        },
{
    if crate::text::same_text(actual.as_str(), expected) {
        Ok(())
    } else {
        Err(BundleError::HashMismatch { expected: expected.to_owned(), actual })
    }
}

/// Whether a bundle is the one that was expected.
pub fn verify_bundle(data: &[u8], expected: &str) -> (r: Result<(), BundleError>)
    ensures
        match r {
            Ok(()) => fingerprint_of(sha256_digest(data@)) == expected@,
            Err(e) => fingerprint_of(sha256_digest(data@)) != expected@ && e@ == (
            BundleErrorView::HashMismatch {
                expected: expected@,
                actual: fingerprint_of(sha256_digest(data@)),
            }),
        },
{
    check_fingerprint(bundle_fingerprint(data), expected)
}

/// Whether the bundle has to be unpacked: there is no marker, or it names
/// another bundle.
pub open spec fn must_extract(marker: Option<Seq<char>>, hash: Seq<char>) -> bool {
    match marker {
        Some(text) => trimmed(text) != hash,
        None => true,
    }
}

/// What is to be done to make the bundle ready.
#[derive(Debug, Clone, Copy, PartialEq, Eq, Structural)]
pub enum InitStep {
    /// Remove what was unpacked before.
    RemoveStale,
    /// Make the directory.
    CreateDir,
    /// Open the archive and count its entries.
    OpenArchive,
    /// Unpack one of so many entries.
    Extract { entry: usize, count: usize },
    /// Compare the fingerprint of the bundle.
    Verify,
    /// Write the marker.
    WriteMarker,
    /// Nothing: the bundle is ready.
    Ready,
}

/// The first thing to do.
pub open spec fn first_step(marker: Option<Seq<char>>, hash: Seq<char>, dir_exists: bool) -> InitStep {
    if !must_extract(marker, hash) {
        InitStep::Ready
    } else if dir_exists {
        InitStep::RemoveStale
    } else {
        InitStep::CreateDir
    }
}

/// What to do after a step that went well; `count` is the number of entries
/// where the archive was opened.
pub open spec fn step_after(step: InitStep, count: usize) -> InitStep {
    match step {
        InitStep::RemoveStale => InitStep::CreateDir,
        InitStep::CreateDir => InitStep::OpenArchive,
        InitStep::OpenArchive => if count > 0 {
            InitStep::Extract { entry: 0, count }
        } else {
            InitStep::Verify
        },
        InitStep::Extract { entry, count } => if entry + 1 < count {
            InitStep::Extract { entry: (entry + 1) as usize, count }
        } else {
            InitStep::Verify
        },
        InitStep::Verify => InitStep::WriteMarker,
        InitStep::WriteMarker => InitStep::Ready,
        InitStep::Ready => InitStep::Ready,
    }
}

/// What is being done in a step, for a failure.
pub open spec fn step_doing(step: InitStep) -> Seq<char> {
    match step {
        InitStep::RemoveStale => "removing stale bundle"@,
        InitStep::CreateDir => "creating bundle dir"@,
        InitStep::OpenArchive => "opening bundle zip"@,
        InitStep::Extract { .. } => "reading zip entry"@,
        InitStep::WriteMarker => "writing hash marker"@,
        _ => ""@,
    }
}

/// The first thing to do to make the bundle ready. `marker` is the text of the
/// marker file, if there is one. A bundle that was made ready before stays so.
pub fn init(ready: bool, marker: Option<&str>, hash: &str, dir_exists: bool) -> (r: InitStep)
    ensures
        r == if ready {
            InitStep::Ready
        } else {
            first_step(
                match marker {
                    Some(text) => Some(text@),
                    None => None,
                },
                hash@,
                dir_exists,
            )
        },
{
    if ready {
        return InitStep::Ready;
    }
    let valid = match marker {
        Some(text) => {
            let chars = chars_of(text);
            let wanted = chars_of(hash);
            same_chars(trim(chars.as_slice()), wanted.as_slice())
        },
        None => false,
    };
    if valid {
        InitStep::Ready
    } else if dir_exists {
        InitStep::RemoveStale
    } else {
        InitStep::CreateDir
    }
}

impl InitStep {
    /// What to do after this step went well.
    pub fn next(self, count: usize) -> (r: InitStep)
        ensures
            r == step_after(self, count),
    {
        match self {
            InitStep::RemoveStale => InitStep::CreateDir,
            InitStep::CreateDir => InitStep::OpenArchive,
            InitStep::OpenArchive => if count > 0 {
                InitStep::Extract { entry: 0, count }
            } else {
                InitStep::Verify
            },
            InitStep::Extract { entry, count } => if entry < count && entry + 1 < count {
                InitStep::Extract { entry: entry + 1, count }
            } else {
                InitStep::Verify
            },
            InitStep::Verify => InitStep::WriteMarker,
            InitStep::WriteMarker => InitStep::Ready,
            InitStep::Ready => InitStep::Ready,
        }
    }

    /// Whether what was unpacked is removed again when this step fails: only a
    /// bundle that is not the expected one is.
    pub fn undo_on_failure(self) -> (r: bool)
        ensures
            r == (self is Verify),
    {
        match self {
            InitStep::Verify => true,
            _ => false,
        }
    }

    /// The failure of this step, which asks something of the operating system.
    pub fn failure(self, error: String) -> (r: BundleError)
        requires
            !(self is Verify),
            !(self is Ready),
        ensures
            r@ == BundleErrorView::Io(error@, step_doing(self)),
    {
        let doing = match self {
            InitStep::RemoveStale => "removing stale bundle",
            InitStep::CreateDir => "creating bundle dir",
            InitStep::OpenArchive => "opening bundle zip",
            InitStep::Extract { .. } => "reading zip entry",
            InitStep::WriteMarker => "writing hash marker",
            InitStep::Verify | InitStep::Ready => "",
        };
        BundleError::io(error, doing)
    }
}

/// Something to do to unpack one entry of the archive.
#[derive(Debug, Clone, Copy, PartialEq, Eq, Structural)]
pub enum EntryOp {
    /// Make the directory that the entry stands for.
    CreateDir,
    /// Read where the link leads.
    ReadTarget,
    /// Make the directory that the entry stands in.
    CreateParent,
    /// Remove what stands in the way; it does not matter if that fails.
    RemoveOld,
    /// Make the link.
    CreateSymlink,
    /// Make the file.
    CreateFile,
    /// Copy the contents.
    CopyContents,
    /// Set the permissions; it does not matter if that fails.
    SetMode,
}

/// What to do for an entry, in order.
pub open spec fn entry_plan(is_dir: bool, is_symlink: bool) -> Seq<EntryOp> {
    if is_dir {
        seq![EntryOp::CreateDir]
    } else if is_symlink {
        seq![
            EntryOp::ReadTarget,
            EntryOp::CreateParent,
            EntryOp::RemoveOld,
            EntryOp::CreateSymlink,
        ]
    } else {
        seq![
            EntryOp::CreateParent,
            EntryOp::CreateFile,
            EntryOp::CopyContents,
            EntryOp::SetMode,
        ]
    }
}

/// What is being done for an entry, for a failure. `None` where a failure does
/// not matter.
pub open spec fn op_doing(op: EntryOp) -> Option<Seq<char>> {
    match op {
        EntryOp::CreateDir => Some("creating dir"@),
        EntryOp::ReadTarget => Some("reading symlink"@),
        EntryOp::CreateParent => Some("creating parent dirs"@),
        EntryOp::RemoveOld => None,
        EntryOp::CreateSymlink => Some("creating symlink"@),
        EntryOp::CreateFile => Some("creating file"@),
        EntryOp::CopyContents => Some("extracting file"@),
        EntryOp::SetMode => None,
    }
}

/// What to do for an entry, in order.
pub fn entry_ops(is_dir: bool, is_symlink: bool) -> (r: Vec<EntryOp>)
    ensures
        r@ == entry_plan(is_dir, is_symlink),
{
    let mut ops: Vec<EntryOp> = Vec::new();
    if is_dir {
        ops.push(EntryOp::CreateDir);
    } else if is_symlink {
        ops.push(EntryOp::ReadTarget);
        ops.push(EntryOp::CreateParent);
        ops.push(EntryOp::RemoveOld);
        ops.push(EntryOp::CreateSymlink);
    } else {
        ops.push(EntryOp::CreateParent);
        ops.push(EntryOp::CreateFile);
        ops.push(EntryOp::CopyContents);
        ops.push(EntryOp::SetMode);
    }
    assert(ops@ =~= entry_plan(is_dir, is_symlink));
    ops
}

impl EntryOp {
    /// The failure of this operation, where it matters.
    pub fn failure(self, error: String) -> (r: Option<BundleError>)
        ensures
            match r {
                Some(e) => op_doing(self) is Some && e@ == BundleErrorView::Io(
                    error@,
                    op_doing(self)->0,
                ),
                None => op_doing(self) is None,
            },
    {
        let doing = match self {
            EntryOp::CreateDir => "creating dir",
            EntryOp::ReadTarget => "reading symlink",
            EntryOp::CreateParent => "creating parent dirs",
            EntryOp::CreateSymlink => "creating symlink",
            EntryOp::CreateFile => "creating file",
            EntryOp::CopyContents => "extracting file",
            EntryOp::RemoveOld | EntryOp::SetMode => {
                return None;
            },
        };
        Some(BundleError::io(error, doing))
    }
}

/// A name under a directory. A name that starts at the root stands alone.
pub open spec fn under(dir: Seq<char>, name: Seq<char>) -> Seq<char> {
    if name.len() > 0 && name[0] == '/' {
        name
    } else if dir.len() == 0 || dir.last() == '/' {
        dir + name
    } else {
        dir + "/"@ + name
    }
}

/// A name under a directory. A name that starts at the root stands alone.
pub fn join_path(dir: &str, name: &str) -> (r: String)
    ensures
        r@ == under(dir@, name@),
{
    let name_chars = chars_of(name);
    if name_chars.len() > 0 && name_chars[0] == '/' {
        return name.to_owned();
    }
    let mut out = dir.to_owned();
    let chars = chars_of(dir);
    if chars.len() > 0 && chars[chars.len() - 1] != '/' {
        out.push_str("/");
    }
    out.push_str(name);
    out
}

/// The directory that the bundle with this fingerprint is unpacked into.
pub fn bundle_dir_path(temp_dir: &str, hash: &str) -> (r: String)
    ensures
        r@ == under(temp_dir@, "ncd-"@ + hash@),
{
    let mut name = "ncd-".to_owned();
    name.push_str(hash);
    join_path(temp_dir, name.as_str())
}

/// The marker file in the directory of the bundle.
pub fn hash_marker_path(cache_dir: &str) -> (r: String)
    ensures
        r@ == under(cache_dir@, ".bundle_hash"@),
{
    join_path(cache_dir, ".bundle_hash")
}

/// The directory of the adapters.
pub fn drivers_dir(cache_dir: &str) -> (r: String)
    ensures
        r@ == under(cache_dir@, "adapters"@),
{
    join_path(cache_dir, "adapters")
}

/// The directory of the packages that the adapters use.
pub fn site_packages_dir(cache_dir: &str) -> (r: String)
    ensures
        r@ == under(cache_dir@, "site-packages"@),
{
    join_path(cache_dir, "site-packages")
}

/// The home directory of the interpreter.
pub fn python_home(cache_dir: &str) -> (r: String)
    ensures
        r@ == under(cache_dir@, "python"@),
{
    join_path(cache_dir, "python")
}

/// The interpreter; it has another name on Windows.
pub fn python_path(cache_dir: &str, windows: bool) -> (r: String)
    ensures
        r@ == under(
            under(under(cache_dir@, "python"@), "bin"@),
            if windows {
                "python.exe"@
            } else {
                "python3"@
            },
        ),
{
    let home = python_home(cache_dir);
    let bin = join_path(home.as_str(), "bin");
    if windows {
        join_path(bin.as_str(), "python.exe")
    } else {
        join_path(bin.as_str(), "python3")
    }
}

/// Where the interpreter looks for modules.
pub fn pythonpath(cache_dir: &str) -> (r: String)
    ensures
        r@ == under(cache_dir@, "adapters"@) + ":"@ + under(cache_dir@, "site-packages"@),
{
    let mut out = drivers_dir(cache_dir);
    out.push_str(":");
    let packages = site_packages_dir(cache_dir);
    out.push_str(packages.as_str());
    out
}

proof fn lemma_hex_text_has_no_space(bytes: Seq<u8>)
    ensures
        hex_text(bytes).len() == 2 * bytes.len(),
        forall|i: int| 0 <= i < hex_text(bytes).len() ==> !is_space(#[trigger] hex_text(bytes)[i]),
    decreases bytes.len(),
{
    if bytes.len() > 0 {
        lemma_hex_text_has_no_space(bytes.drop_last());
        let b = bytes.last();
        assert(!is_space(hex_char((b / 16) as nat)));
        assert(!is_space(hex_char((b % 16) as nat)));
        let front = hex_text(bytes.drop_last());
        assert forall|i: int| 0 <= i < hex_text(bytes).len() implies !is_space(
            #[trigger] hex_text(bytes)[i],
        ) by {
            if i < front.len() {
                assert(hex_text(bytes)[i] == front[i]);
            } else {
                assert(hex_text(bytes)[i] == hex_byte(b)[i - front.len()]);
            }
        }
    }
}

/// A bundle is unpacked only once: with the marker that was written for it, it
/// is ready.
pub proof fn law_unpacked_once(digest: Seq<u8>, dir_exists: bool)
    requires
        digest.len() >= FINGERPRINT_LEN / 2,
    ensures
        first_step(Some(fingerprint_of(digest)), fingerprint_of(digest), dir_exists)
            == InitStep::Ready,
{
    let s = fingerprint_of(digest);
    lemma_hex_text_has_no_space(digest.take(FINGERPRINT_LEN as int / 2));
    assert(!is_space(s[0]));
    assert(!is_space(s.last()));
}

/// Where so many steps lead that all go well, in an archive with `count`
/// entries.
pub open spec fn steps_lead(step: InitStep, count: usize, n: nat) -> InitStep
    decreases n,
{
    if n == 0 {
        step
    } else {
        steps_lead(step_after(step, count), count, (n - 1) as nat)
    }
}

/// Steps that go well lead to a ready bundle, whatever is there at the start
/// and however many entries the archive has.
pub proof fn law_steps_end(marker: Option<Seq<char>>, hash: Seq<char>, dir_exists: bool, count: usize)
    ensures
        steps_lead(first_step(marker, hash, dir_exists), count, (count + 5) as nat)
            == InitStep::Ready,
{
    let n = (count + 5) as nat;
    let first = first_step(marker, hash, dir_exists);
    reveal_with_fuel(steps_lead, 4);
    if first == InitStep::Ready {
        lemma_ready_stays(count, n);
    } else if count == 0 {
        reveal_with_fuel(steps_lead, 7);
    } else if first == InitStep::RemoveStale {
        lemma_extraction_leads(0, count, (n - 3) as nat);
    } else {
        lemma_extraction_leads(0, count, (n - 2) as nat);
    }
}

/// After the archive was opened, every entry has its turn, each once and in
/// order. The fingerprint is compared after the last.
pub proof fn law_every_entry_has_its_turn(count: usize, i: usize)
    requires
        i < count,
    ensures
        steps_lead(InitStep::OpenArchive, count, (i + 1) as nat) == (InitStep::Extract {
            entry: i,
            count,
        }),
        steps_lead(InitStep::OpenArchive, count, (count + 1) as nat) == InitStep::Verify,
{
    lemma_turns(0, i, count);
    lemma_turns(0, (count - 1) as usize, count);
    lemma_steps_add(InitStep::Extract { entry: 0, count }, count, (count - 1) as nat, 1);
    reveal_with_fuel(steps_lead, 2);
}

proof fn lemma_turns(from: usize, to: usize, count: usize)
    requires
        from <= to < count,
    ensures
        steps_lead(InitStep::Extract { entry: from, count }, count, (to - from) as nat) == (
        InitStep::Extract { entry: to, count }),
    decreases to - from,
{
    if from < to {
        lemma_turns((from + 1) as usize, to, count);
    }
}

proof fn lemma_steps_add(step: InitStep, count: usize, m: nat, n: nat)
    ensures
        steps_lead(step, count, m + n) == steps_lead(steps_lead(step, count, m), count, n),
    decreases m,
{
    if m > 0 {
        lemma_steps_add(step_after(step, count), count, (m - 1) as nat, n);
    }
}

proof fn lemma_ready_stays(count: usize, n: nat)
    ensures
        steps_lead(InitStep::Ready, count, n) == InitStep::Ready,
    decreases n,
{
    if n > 0 {
        lemma_ready_stays(count, (n - 1) as nat);
    }
}

proof fn lemma_extraction_leads(entry: usize, count: usize, n: nat)
    requires
        entry < count,
        n >= count - entry + 2,
    ensures
        steps_lead(InitStep::Extract { entry, count }, count, n) == InitStep::Ready,
    decreases count - entry,
{
    if entry + 1 < count {
        lemma_extraction_leads((entry + 1) as usize, count, (n - 1) as nat);
    } else {
        reveal_with_fuel(steps_lead, 4);
        lemma_ready_stays(count, (n - 3) as nat);
    }
}

/// A fingerprint shows the first eight bytes of a digest, each by its two
/// digits, in their order.
pub proof fn law_fingerprints(digest: Seq<u8>, i: int)
    requires
        digest.len() >= 8,
        0 <= i < 8,
    ensures
        fingerprint_of(digest).len() == 16,
        fingerprint_of(digest)[2 * i] == hex_byte(digest[i])[0],
        fingerprint_of(digest)[2 * i + 1] == hex_byte(digest[i])[1],
{
    lemma_hex_positions(digest.take(8), i);
}

proof fn lemma_hex_positions(bytes: Seq<u8>, i: int)
    requires
        0 <= i < bytes.len(),
    ensures
        hex_text(bytes).len() == 2 * bytes.len(),
        hex_text(bytes)[2 * i] == hex_byte(bytes[i])[0],
        hex_text(bytes)[2 * i + 1] == hex_byte(bytes[i])[1],
    decreases bytes.len(),
{
    lemma_hex_text_has_no_space(bytes.drop_last());
    if i < bytes.len() - 1 {
        lemma_hex_positions(bytes.drop_last(), i);
    }
}

/// A bundle is unpacked unless a marker names it; white space around the name
/// does not matter. What was unpacked before is removed first.
pub proof fn law_when_to_unpack(marker: Seq<char>, hash: Seq<char>, dir_exists: bool)
    ensures
        first_step(None, hash, true) == InitStep::RemoveStale,
        first_step(None, hash, false) == InitStep::CreateDir,
        trimmed(marker) == hash ==> first_step(Some(marker), hash, dir_exists) == InitStep::Ready,
        trimmed(marker) != hash ==> first_step(Some(marker), hash, dir_exists) == first_step(
            None,
            hash,
            dir_exists,
        ),
{
}

/// The order of the steps: what was there is removed, the directory is made,
/// the archive is opened, its entries are unpacked, and only a bundle that is
/// the expected one gets its marker.
pub proof fn law_order_of_steps(count: usize, entry: usize)
    ensures
        step_after(InitStep::RemoveStale, count) == InitStep::CreateDir,
        step_after(InitStep::CreateDir, count) == InitStep::OpenArchive,
        step_after(InitStep::OpenArchive, 0) == InitStep::Verify,
        count > 0 ==> step_after(InitStep::OpenArchive, count) == (InitStep::Extract {
            entry: 0,
            count,
        }),
        entry + 1 < count ==> step_after(InitStep::Extract { entry, count }, 0) == (
        InitStep::Extract { entry: (entry + 1) as usize, count }),
        entry + 1 == count ==> step_after(InitStep::Extract { entry, count }, 0)
            == InitStep::Verify,
        step_after(InitStep::Verify, count) == InitStep::WriteMarker,
        step_after(InitStep::WriteMarker, count) == InitStep::Ready,
        forall|step: InitStep| #[trigger]
            step_after(step, count) == InitStep::WriteMarker ==> step == InitStep::Verify,
{
}

/// How entries are unpacked. A directory is made and nothing else. A link is
/// made after its target was read, its directory made, and what stood in its
/// place removed. A file is made after its directory, gets its contents, and
/// then its permissions.
pub proof fn law_entry_plans(is_symlink: bool)
    ensures
        entry_plan(true, is_symlink) == seq![EntryOp::CreateDir],
        entry_plan(false, true) == seq![
            EntryOp::ReadTarget,
            EntryOp::CreateParent,
            EntryOp::RemoveOld,
            EntryOp::CreateSymlink,
        ],
        entry_plan(false, false) == seq![
            EntryOp::CreateParent,
            EntryOp::CreateFile,
            EntryOp::CopyContents,
            EntryOp::SetMode,
        ],
        forall|op: EntryOp|
            #[trigger] op_doing(op) is None <==> op == EntryOp::RemoveOld || op == EntryOp::SetMode,
{
}

/// A name stands behind its directory, with one slash between them; a name that
/// starts at the root stands alone.
pub proof fn law_names_under_directories(dir: Seq<char>, name: Seq<char>)
    ensures
        name.len() > 0 && name[0] == '/' ==> under(dir, name) == name,
        (name.len() == 0 || name[0] != '/') && dir.len() > 0 && dir.last() != '/' ==> under(
            dir,
            name,
        ) == dir + seq!['/'] + name,
        (name.len() == 0 || name[0] != '/') && dir.len() > 0 && dir.last() == '/' ==> under(
            dir,
            name,
        ) == dir + name,
        (name.len() == 0 || name[0] != '/') && dir.len() == 0 ==> under(dir, name) == name,
{
    reveal_strlit("/");
    assert("/"@ =~= seq!['/']);
    assert(Seq::<char>::empty() + name =~= name);
    if dir.len() == 0 {
        assert(dir + name =~= name);
    }
}

/// A failure says what the system said and what was being done; another bundle
/// than the expected one is told with both fingerprints.
pub proof fn law_bundle_failures(error: Seq<char>, doing: Seq<char>)
    ensures
        bundle_error_message(BundleErrorView::Io(error, doing)) == "Bundle I/O error ("@ + error
            + "): "@ + doing,
        bundle_error_message(
            BundleErrorView::HashMismatch { expected: error, actual: doing },
        ) == "Bundle hash mismatch: expected "@ + error + ", got "@ + doing
            + ". The embedded bundle may be corrupted — rebuild the project."@,
        step_doing(InitStep::RemoveStale) == "removing stale bundle"@,
        step_doing(InitStep::CreateDir) == "creating bundle dir"@,
        step_doing(InitStep::OpenArchive) == "opening bundle zip"@,
        step_doing(InitStep::WriteMarker) == "writing hash marker"@,
        op_doing(EntryOp::CreateDir) == Some("creating dir"@),
        op_doing(EntryOp::ReadTarget) == Some("reading symlink"@),
        op_doing(EntryOp::CreateParent) == Some("creating parent dirs"@),
        op_doing(EntryOp::CreateSymlink) == Some("creating symlink"@),
        op_doing(EntryOp::CreateFile) == Some("creating file"@),
        op_doing(EntryOp::CopyContents) == Some("extracting file"@),
{
}

} // verus!
