//! The sending side: which files are offered, the manifest that describes them, and
//! how a session ends.
use vstd::prelude::*;

use crate::completion::status_byte;
use crate::endpoint::EndpointAddr;
use crate::hash::{hashes_view, BlobHash};
use crate::hashseq::encode_index;
use crate::hashseq::{decode_after_encode, index_bytes, nth_hash};
use crate::manifest::{entries, joined_path, manifest_path};
use crate::manifest::{EntryView, FileEntry, Manifest};
use crate::receiver::{index_hashes, is_index};
use crate::text;
use crate::text::{decimal, hex};
use crate::ticket::{first_relay, is_word, issued, reads_back, ticket_of};
use crate::ticket::{issue_ticket, BlobFormat};
use crate::util::{human, human_bytes};

verus! {

/// Protocol name of the receiver's explicit "transfer finished" signal.
///
/// The sender exits only after receiving this signal; connection close or idle time
/// alone never ends the session (the receiver may pause for local verification
/// without downloading anything).
pub const ALPN_DONE: &'static str = "ftrans-done";

/// Protocol name of the exchange of a session code for a ticket.
pub const ALPN_META: &'static str = "ftrans-meta";

/// An entry of a walk through a directory.
#[derive(Debug)]
pub struct WalkEntry<T> {
    pub path: T,
    pub is_file: bool,
    pub is_symlink: bool,
    /// Whether the entry is a file once symlinks are followed.
    pub target_is_file: bool,
    /// Size in bytes, where it can be told.
    pub size: Option<u64>,
}

/// A path that was given to send.
#[derive(Debug)]
pub enum ScanPath<T> {
    /// A file, and its size where it can be told.
    File { path: T, size: Option<u64> },
    /// A directory, as it was walked; `None` for each entry that could not be read.
    Dir { entries: Vec<Option<WalkEntry<T>>> },
    /// Anything else.
    Other,
}

/// Whether a walked entry is a file we can index: a file, or a symlink to one.
pub open spec fn indexable(is_file: bool, is_symlink: bool, target_is_file: bool) -> bool {
    is_file || (is_symlink && target_is_file)
}

/// Whether a walked entry is a file we can index.
///
/// The walk does not follow symlinks, so a symlink to a file would be skipped; what
/// it leads to is looked at as well.
pub fn is_indexable_file(is_file: bool, is_symlink: bool, target_is_file: bool) -> (r: bool)
    ensures
        r == indexable(is_file, is_symlink, target_is_file),
{
    is_file || (is_symlink && target_is_file)
}

/// A size that may be unknown, which counts as nothing.
pub open spec fn known_size(size: Option<u64>) -> u64 {
    match size {
        Some(n) => n,
        None => 0,
    }
}

/// The file that a walked entry is, with its size, if it is one we can index.
pub open spec fn walked_file<T>(entry: Option<WalkEntry<T>>) -> Option<(T, u64)> {
    match entry {
        Some(e) => if indexable(e.is_file, e.is_symlink, e.target_is_file) {
            Some((e.path, known_size(e.size)))
        } else {
            None
        },
        None => None,
    }
}

/// The files of a walk, with their sizes, in order.
pub open spec fn walked_files<T>(entries: Seq<Option<WalkEntry<T>>>) -> Seq<(T, u64)> {
    entries.filter_map(|e: Option<WalkEntry<T>>| walked_file(e))
}

/// The files at one path, with their sizes.
pub open spec fn files_at<T>(path: ScanPath<T>) -> Seq<(T, u64)> {
    match path {
        ScanPath::File { path, size } => seq![(path, known_size(size))],
        ScanPath::Dir { entries } => walked_files(entries@),
        ScanPath::Other => Seq::empty(),
    }
}

/// The files at all paths, with their sizes, in order.
pub open spec fn all_files<T>(paths: Seq<ScanPath<T>>) -> Seq<(T, u64)>
    decreases paths.len(),
{
    if paths.len() == 0 {
        Seq::empty()
    } else {
        all_files(paths.drop_last()) + files_at(paths.last())
    }
}

/// The paths of files, without their sizes.
pub open spec fn paths_only<T>(files: Seq<(T, u64)>) -> Seq<T> {
    files.map_values(|f: (T, u64)| f.0)
}

/// The sizes of all files together.
pub open spec fn total_size<T>(files: Seq<(T, u64)>) -> nat
    decreases files.len(),
{
    if files.len() == 0 {
        0
    } else {
        total_size(files.drop_last()) + files.last().1 as nat
    }
}

proof fn total_size_of_prefix<T>(files: Seq<(T, u64)>, n: int)
    requires
        0 <= n <= files.len(),
    ensures
        total_size(files.take(n)) <= total_size(files),
    decreases files.len(),
{
    if n < files.len() {
        total_size_of_prefix(files.drop_last(), n);
        assert(files.drop_last().take(n) =~= files.take(n));
    } else {
        assert(files.take(n) =~= files);
    }
}

fn walk<T>(entries: Vec<Option<WalkEntry<T>>>) -> (r: Vec<(T, u64)>)
    ensures
        r@ == walked_files(entries@),
{
    let ghost all = entries@;
    let ghost pick = |e: Option<WalkEntry<T>>| walked_file(e);
    let mut r: Vec<(T, u64)> = Vec::new();
    proof {
        reveal(Seq::filter_map);
        assert(r@ =~= walked_files(all.take(0)));
    }
    for entry in it: entries
        invariant
            it.seq() == all,
            pick == (|e: Option<WalkEntry<T>>| walked_file(e)),
            r@ == walked_files(all.take(it.index() as int)),
    {
        proof {
            let n = it.index() as int;
            reveal(Seq::filter_map);
            assert(all.take(n + 1).drop_last() =~= all.take(n));
            assert(all.take(n + 1).last() == entry);
        }
        match entry {
            Some(e) => {
                if is_indexable_file(e.is_file, e.is_symlink, e.target_is_file) {
                    let size: u64 = match e.size {
                        Some(n) => n,
                        None => 0,
                    };
                    r.push((e.path, size));
                }
            },
            None => {},
        }
    }
    assert(all.take(all.len() as int) =~= all);
    r
}

/// All files at the given paths, and their sizes together.
pub fn scan<T>(paths: Vec<ScanPath<T>>) -> (r: (Vec<T>, u64))
    requires
        total_size(all_files(paths@)) <= u64::MAX,
    ensures
        r.0@ == paths_only(all_files(paths@)),
        r.1 == total_size(all_files(paths@)),
{
    let ghost given = paths@;
    let ghost everything = all_files(given);
    let mut found: Vec<(T, u64)> = Vec::new();
    for path in it: paths
        invariant
            it.seq() == given,
            found@ == all_files(given.take(it.index() as int)),
    {
        proof {
            let n = it.index() as int;
            assert(given.take(n + 1).drop_last() =~= given.take(n));
            assert(given.take(n + 1).last() == path);
        }
        let ghost before = found@;
        match path {
            ScanPath::File { path, size } => {
                let size: u64 = match size {
                    Some(n) => n,
                    None => 0,
                };
                found.push((path, size));
                assert(found@ =~= before + seq![(path, size)]);
            },
            ScanPath::Dir { entries } => {
                let mut inside = walk(entries);
                found.append(&mut inside);
            },
            ScanPath::Other => {
                assert(found@ =~= before + Seq::<(T, u64)>::empty());
            },
        }
    }
    assert(given.take(given.len() as int) =~= given);
    assert(found@ == everything);
    let mut files: Vec<T> = Vec::new();
    let mut total: u64 = 0;
    for file in it: found
        invariant
            it.seq() == everything,
            total_size(everything) <= u64::MAX,
            files@ == paths_only(everything.take(it.index() as int)),
            total == total_size(everything.take(it.index() as int)),
    {
        proof {
            let n = it.index() as int;
            total_size_of_prefix(everything, n + 1);
            assert(everything.take(n + 1).drop_last() =~= everything.take(n));
            assert(everything.take(n + 1).last() == file);
        }
        let (path, size) = file;
        let ghost before = files@;
        total = total + size;
        files.push(path);
        assert(files@ =~= paths_only(everything.take(it.index() + 1)));
    }
    assert(everything.take(everything.len() as int) =~= everything);
    (files, total)
}

/// The files to index at `root`: the root itself if it is a file, or else those that
/// a walk through it gave.
pub fn collect_files<T>(root: T, is_file: bool, entries: Vec<Option<WalkEntry<T>>>) -> (r: Vec<T>)
    ensures
        r@ == (if is_file {
            seq![root]
        } else {
            paths_only(walked_files(entries@))
        }),
{
    let mut files: Vec<T> = Vec::new();
    if is_file {
        files.push(root);
        assert(files@ =~= seq![root]);
        return files;
    }
    let ghost all = walked_files(entries@);
    for file in it: walk(entries)
        invariant
            it.seq() == all,
            files@ == paths_only(all.take(it.index() as int)),
    {
        let (path, _) = file;
        files.push(path);
        assert(files@ =~= paths_only(all.take(it.index() + 1)));
    }
    assert(all.take(all.len() as int) =~= all);
    files
}

/// Error context for a file that could not be indexed.
pub fn index_context(path: &str, exists: bool) -> (r: String)
    ensures
        r@ == "failed to index "@ + path@ + (if exists {
            ""@
        } else {
            " (file disappeared during indexing)"@
        }),
{
    let mut r: String = "failed to index ".to_owned();
    r.append(path);
    if !exists {
        r.append(" (file disappeared during indexing)");
    } else {
        proof {
            reveal_strlit("");
            assert(r@ =~= r@ + ""@);
        }
    }
    r
}

/// A file below a directory that is sent, with its path from there, where it has one.
#[derive(Debug)]
pub struct DirFile<T> {
    pub path: T,
    pub rel: Option<String>,
}

/// What a path to import is.
#[derive(Debug)]
pub enum ImportSource<T> {
    File(T),
    Dir(Vec<DirFile<T>>),
    Other,
}

/// What to do next to import a path.
#[derive(Debug)]
pub enum ImportStep<T> {
    /// Add the file at `path`, to appear in the manifest as `name`.
    Add { path: T, name: String },
    /// Print this warning.
    Warn(String),
    /// Give up with this error.
    Fail(String),
}

/// What an [`ImportStep`] says.
pub enum ImportView<T> {
    Add { path: T, name: Seq<char> },
    Warn(Seq<char>),
    Fail(Seq<char>),
}

impl<T> View for ImportStep<T> {
    type V = ImportView<T>;

    open spec fn view(&self) -> ImportView<T> {
        match self {
            ImportStep::Add { path, name } => ImportView::Add { path: *path, name: name@ },
            ImportStep::Warn(t) => ImportView::Warn(t@),
            ImportStep::Fail(e) => ImportView::Fail(e@),
        }
    }
}

/// What a list of steps says.
pub open spec fn steps_view<T>(steps: Seq<ImportStep<T>>) -> Seq<ImportView<T>> {
    steps.map_values(|s: ImportStep<T>| s@)
}

/// The step for a file below a directory.
pub open spec fn dir_step<T>(root_name: Seq<char>, file: DirFile<T>) -> ImportView<T> {
    match file.rel {
        Some(rel) => ImportView::Add { path: file.path, name: joined_path(root_name, rel@) },
        None => ImportView::Fail("strip prefix"@),
    }
}

/// The steps to import one path.
pub open spec fn import_steps<T>(
    shown: Seq<char>,
    root_name: Option<Seq<char>>,
    source: ImportSource<T>,
) -> Seq<ImportView<T>> {
    match root_name {
        None => seq![ImportView::Fail("invalid path"@)],
        Some(root) => match source {
            ImportSource::File(path) => seq![ImportView::Add { path, name: root }],
            ImportSource::Dir(files) => files@.map_values(|f: DirFile<T>| dir_step(root, f)),
            ImportSource::Other => seq![
                ImportView::Warn(
                    "warning: skipping "@ + shown + " (not a file or directory)"@,
                ),
            ],
        },
    }
}

/// A name that may be absent.
pub open spec fn optional_name(name: Option<String>) -> Option<Seq<char>> {
    match name {
        Some(n) => Some(n@),
        None => None,
    }
}

/// The steps to import one path, in order: a file goes by the path's own name, the
/// files below a directory by their paths from there, with the directory's name in
/// front and forward slashes between. `shown` is the path for messages.
pub fn import<T>(shown: &str, root_name: Option<String>, source: ImportSource<T>) -> (r: Vec<
    ImportStep<T>,
>)
    ensures
        steps_view(r@) == import_steps(shown@, optional_name(root_name), source),
{
    let mut steps: Vec<ImportStep<T>> = Vec::new();
    let root = match root_name {
        None => {
            steps.push(ImportStep::Fail("invalid path".to_owned()));
            assert(steps_view(steps@) =~= seq![ImportView::<T>::Fail("invalid path"@)]);
            return steps;
        },
        Some(root) => root,
    };
    match source {
        ImportSource::File(path) => {
            let ghost name = root@;
            steps.push(ImportStep::Add { path, name: root });
            assert(steps_view(steps@) =~= seq![ImportView::Add { path, name }]);
        },
        ImportSource::Dir(files) => {
            let ghost all = files@;
            for file in it: files
                invariant
                    it.seq() == all,
                    steps@.len() == it.index(),
                    forall|k: int|
                        0 <= k < it.index() ==> (#[trigger] steps@[k])@ == dir_step(
                            root@,
                            all[k],
                        ),
            {
                match file.rel {
                    Some(rel) => {
                        let name = manifest_path(root.as_str(), rel.as_str());
                        steps.push(ImportStep::Add { path: file.path, name });
                    },
                    None => {
                        steps.push(ImportStep::Fail("strip prefix".to_owned()));
                    },
                }
            }
            assert(steps_view(steps@) =~= all.map_values(|f: DirFile<T>| dir_step(root@, f)));
        },
        ImportSource::Other => {
            let mut t: String = "warning: skipping ".to_owned();
            t.append(shown);
            t.append(" (not a file or directory)");
            let ghost shown_text = t@;
            steps.push(ImportStep::Warn(t));
            assert(steps_view(steps@) =~= seq![ImportView::<T>::Warn(shown_text)]);
        },
    }
    steps
}

/// The manifest entries of files with the given names and hashes.
pub open spec fn described(names: Seq<Seq<char>>, hashes: Seq<Seq<u8>>) -> Seq<EntryView> {
    Seq::new(names.len(), |i: int| EntryView { path: names[i], hash: hex(hashes[i]) })
}

/// One hash of 32 bytes for each name.
pub open spec fn has_hashes(names: Seq<Seq<char>>, hashes: Seq<Seq<u8>>) -> bool {
    &&& names.len() == hashes.len()
    &&& forall|i: int| 0 <= i < hashes.len() ==> (#[trigger] hashes[i]).len() == 32
}

/// The files that have been added to the store.
#[derive(Debug)]
pub struct Imported {
    files: Vec<FileEntry>,
    hashes: Vec<BlobHash>,
}

impl Imported {
    /// Each file has its hash, in the manifest and in the list.
    #[verifier::type_invariant]
    closed spec fn is_consistent(self) -> bool {
        &&& self.files@.len() == self.hashes@.len()
        &&& entries(self.files@) == described(self.names(), self.hashes())
    }

    /// Names in the manifest.
    pub closed spec fn names(self) -> Seq<Seq<char>> {
        self.files@.map_values(|f: FileEntry| f.path@)
    }

    /// Hashes of the contents.
    pub closed spec fn hashes(self) -> Seq<Seq<u8>> {
        hashes_view(self.hashes@)
    }

    /// No files yet.
    pub fn new() -> (r: Imported)
        ensures
            r.names() == Seq::<Seq<char>>::empty(),
            r.hashes() == Seq::<Seq<u8>>::empty(),
    {
        let files: Vec<FileEntry> = Vec::new();
        let hashes: Vec<BlobHash> = Vec::new();
        proof {
            let names = files@.map_values(|f: FileEntry| f.path@);
            assert(names =~= Seq::<Seq<char>>::empty());
            assert(hashes_view(hashes@) =~= Seq::<Seq<u8>>::empty());
            assert(entries(files@) =~= described(names, hashes_view(hashes@)));
        }
        Imported { files, hashes }
    }

    /// One more file.
    pub fn with(self, name: String, hash: BlobHash) -> (r: Imported)
        ensures
            r.names() == self.names().push(name@),
            r.hashes() == self.hashes().push(hash@),
    {
        proof {
            use_type_invariant(&self);
        }
        let ghost names = self.names();
        let ghost digests = self.hashes();
        let ghost before = entries(self.files@);
        let ghost path = name@;
        let mut files = self.files;
        let mut hashes = self.hashes;
        files.push(FileEntry { path: name, hash: hash.to_hex() });
        hashes.push(hash);
        proof {
            let now = files@.map_values(|f: FileEntry| f.path@);
            assert(now =~= names.push(path));
            assert(hashes_view(hashes@) =~= digests.push(hash@));
            assert(entries(files@) =~= before.push(EntryView { path, hash: hex(hash@) }));
            assert(described(now, hashes_view(hashes@)) =~= before.push(
                EntryView { path, hash: hex(hash@) },
            ));
        }
        Imported { files, hashes }
    }

    /// The manifest of all files.
    pub fn manifest(&self) -> (r: Manifest)
        ensures
            entries(r.files@) == described(self.names(), self.hashes()),
            r.root@ == ""@,
            has_hashes(self.names(), self.hashes()),
    {
        proof {
            use_type_invariant(self);
        }
        let mut files: Vec<FileEntry> = Vec::new();
        let mut i: usize = 0;
        while i < self.files.len()
            invariant
                i <= self.files.len(),
                files@.len() == i,
                forall|k: int| 0 <= k < i ==> (#[trigger] files@[k])@ == self.files@[k]@,
            decreases self.files.len() - i,
        {
            files.push(self.files[i].copy());
            i = i + 1;
        }
        assert(entries(files@) =~= entries(self.files@));
        Manifest { root: "".to_owned(), files }
    }

    /// The bytes of the index: the hash of the manifest, then those of the files.
    pub fn index(&self, manifest: &BlobHash) -> (r: Vec<u8>)
        ensures
            r@ == index_bytes(manifest@, self.hashes()),
            has_hashes(self.names(), self.hashes()),
    {
        proof {
            use_type_invariant(self);
        }
        encode_index(manifest, &self.hashes)
    }
}

/// The format of every transfer: a list of hashes, even where it is of one file.
pub fn transfer_format() -> (r: BlobFormat)
    ensures
        r is HashSeq,
{
    BlobFormat::HashSeq
}

/// The ticket for a transfer whose index has the given hash, in its string form. `None`
/// where an address cannot be parsed.
pub fn transfer_ticket(addr: &EndpointAddr, index: &BlobHash) -> (r: Option<String>)
    ensures
        r is Some <==> issued(addr.id@, addr.addrs@, index@, BlobFormat::HashSeq) is Some,
        r matches Some(t) ==> {
            &&& issued(addr.id@, addr.addrs@, index@, BlobFormat::HashSeq) == Some(t@)
            &&& is_word(t@)
            &&& reads_back(first_relay(addr.addrs@)) ==> {
                &&& ticket_of(t@) matches Some(ticket)
                &&& ticket.hash == index@
                &&& ticket.format is HashSeq
            }
        },
{
    issue_ticket(addr, index, transfer_format())
}

/// The receiver finds in the index what the sender imported: it is well formed, its
/// first hash is that of the manifest, the others are those of the files, and there
/// are as many of them as entries in the manifest.
pub proof fn imported_transfer_loads(
    manifest: Seq<u8>,
    names: Seq<Seq<char>>,
    hashes: Seq<Seq<u8>>,
)
    requires
        manifest.len() == 32,
        has_hashes(names, hashes),
    ensures
        is_index(index_bytes(manifest, hashes)),
        nth_hash(index_bytes(manifest, hashes), 0) == manifest,
        index_hashes(index_bytes(manifest, hashes)) == hashes,
        described(names, hashes).len() == index_hashes(index_bytes(manifest, hashes)).len(),
{
    decode_after_encode(manifest, hashes);
    assert(index_hashes(index_bytes(manifest, hashes)) =~= hashes);
}

/// Outcome of a send session.
#[derive(Debug, Clone, Copy, PartialEq, Eq, Structural)]
pub enum ServeOutcome {
    /// The receiver signalled a successful transfer.
    Completed,
    /// The receiver signalled that it ended with an error.
    ReceiverError,
    /// The user aborted with Ctrl+C.
    Interrupted,
}

/// The status that a receiver signalled on its connection: the byte that was read,
/// 0 = success, anything else = error. A connection that ends without a byte is no
/// signal.
pub fn done_status(read: Option<u8>) -> (r: Option<u8>)
    ensures
        r == read,
{
    read
}

/// How a session ends that got this status, or none.
pub open spec fn outcome_of(status: Option<u8>) -> ServeOutcome {
    match status {
        Some(b) => if b == 0 {
            ServeOutcome::Completed
        } else {
            ServeOutcome::ReceiverError
        },
        None => ServeOutcome::Interrupted,
    }
}

/// How the session ends, once the wait for the receiver's signal is over: with the
/// status that was signalled, or without one where the user interrupted it.
pub fn wait_for_transfer(status: Option<u8>) -> (r: ServeOutcome)
    ensures
        r == outcome_of(status),
{
    match status {
        Some(0) => ServeOutcome::Completed,
        Some(_) => ServeOutcome::ReceiverError,
        None => ServeOutcome::Interrupted,
    }
}

/// The sender learns how the receiver ended: a signal of success, and only that,
/// completes the session.
pub proof fn signal_tells_the_outcome(ok: bool)
    ensures
        outcome_of(Some(status_byte(ok))) == if ok {
            ServeOutcome::Completed
        } else {
            ServeOutcome::ReceiverError
        },
{
}

/// There must be something to send.
pub fn require_paths(count: usize) -> (r: Result<(), String>)
    ensures
        r is Ok <==> count > 0,
        r matches Err(e) ==> e@ == "at least one --path is required"@,
{
    if count > 0 {
        Ok(())
    } else {
        Err("at least one --path is required".to_owned())
    }
}

/// What was found to send.
pub fn found_message(files: usize, total: u64) -> (r: String)
    ensures
        r@ == "Found "@ + decimal(files as nat) + " files, "@ + human(total as nat) + " total"@,
{
    let mut r: String = "Found ".to_owned();
    r.append(text::decimal_of(files as u64).as_str());
    r.append(" files, ");
    r.append(human_bytes(total).as_str());
    r.append(" total");
    r
}

/// What is printed at the end of a session.
pub fn outcome_message(outcome: ServeOutcome, files: usize, total: u64) -> (r: String)
    ensures
        r@ == (match outcome {
            ServeOutcome::Completed => "\nTransfer complete! All "@ + decimal(files as nat)
                + " files ("@ + human(total as nat) + " total) were sent."@,
            ServeOutcome::ReceiverError => "\nReceiver ended the session with an error."@,
            ServeOutcome::Interrupted => "Shutting down...\nDone."@,
        }),
{
    match outcome {
        ServeOutcome::Completed => {
            let mut r: String = "\nTransfer complete! All ".to_owned();
            r.append(text::decimal_of(files as u64).as_str());
            r.append(" files (");
            r.append(human_bytes(total).as_str());
            r.append(" total) were sent.");
            r
        },
        ServeOutcome::ReceiverError => "\nReceiver ended the session with an error.".to_owned(),
        ServeOutcome::Interrupted => "Shutting down...\nDone.".to_owned(),
    }
}

/// A walk gives its files one by one, in order: files and symlinks to files, with the
/// size 0 where it is unknown. Entries that are neither, or cannot be read, are passed
/// over.
pub proof fn walks_give_their_files_one_by_one<T>(
    entries: Seq<Option<WalkEntry<T>>>,
    entry: WalkEntry<T>,
)
    ensures
        walked_files(Seq::<Option<WalkEntry<T>>>::empty()) == Seq::<(T, u64)>::empty(),
        walked_files(entries.push(None)) == walked_files(entries),
        entry.is_file || (entry.is_symlink && entry.target_is_file) ==> walked_files(
            entries.push(Some(entry)),
        ) == walked_files(entries).push(
            (
                entry.path,
                match entry.size {
                    Some(size) => size,
                    None => 0,
                },
            ),
        ),
        !entry.is_file && !(entry.is_symlink && entry.target_is_file) ==> walked_files(
            entries.push(Some(entry)),
        ) == walked_files(entries),
{
    reveal(Seq::filter_map);
    let more = entries.push(Some(entry));
    assert(more.drop_last() =~= entries);
    assert(entries.push(None).drop_last() =~= entries);
    assert(walked_files(Seq::<Option<WalkEntry<T>>>::empty()) =~= Seq::<(T, u64)>::empty());
    assert(walked_files(entries.push(None)) =~= walked_files(entries));
    match walked_file(Some(entry)) {
        Some(file) => {
            assert(walked_files(more) =~= walked_files(entries).push(file));
        },
        None => {
            assert(walked_files(more) =~= walked_files(entries));
        },
    }
}

/// A scan goes through the paths in order: a file stands for itself, a directory for
/// what its walk gives, and anything else for nothing.
pub proof fn scans_go_through_all_paths<T>(
    paths: Seq<ScanPath<T>>,
    path: T,
    size: Option<u64>,
    entries: Vec<Option<WalkEntry<T>>>,
)
    ensures
        all_files(Seq::<ScanPath<T>>::empty()) == Seq::<(T, u64)>::empty(),
        all_files(paths.push(ScanPath::File { path, size })) == all_files(paths).push(
            (
                path,
                match size {
                    Some(size) => size,
                    None => 0,
                },
            ),
        ),
        all_files(paths.push(ScanPath::Dir { entries })) == all_files(paths) + walked_files(
            entries@,
        ),
        all_files(paths.push(ScanPath::Other)) == all_files(paths),
{
    let file = ScanPath::File { path, size };
    let dir = ScanPath::Dir { entries };
    assert(paths.push(file).drop_last() =~= paths);
    assert(paths.push(dir).drop_last() =~= paths);
    assert(paths.push(ScanPath::Other).drop_last() =~= paths);
    assert(all_files(paths.push(file)) =~= all_files(paths).push((path, known_size(size))));
    assert(all_files(paths.push(dir)) =~= all_files(paths) + walked_files(entries@));
    assert(all_files(paths.push(ScanPath::Other)) =~= all_files(paths));
}

/// Every file counts with its size, and comes with its path.
pub proof fn every_file_counts<T>(files: Seq<(T, u64)>, path: T, size: u64)
    ensures
        total_size(Seq::<(T, u64)>::empty()) == 0,
        total_size(files.push((path, size))) == total_size(files) + size,
        paths_only(files).len() == files.len(),
        forall|i: int| 0 <= i < files.len() ==> #[trigger] paths_only(files)[i] == files[i].0,
{
    assert(files.push((path, size)).drop_last() =~= files);
}

/// A file is a file, or a symlink to one.
pub proof fn files_and_links_to_files(is_file: bool, is_symlink: bool, target_is_file: bool)
    ensures
        is_file ==> indexable(is_file, is_symlink, target_is_file),
        !is_file && !is_symlink ==> !indexable(is_file, is_symlink, target_is_file),
        !is_file && is_symlink ==> (indexable(is_file, is_symlink, target_is_file)
            <==> target_is_file),
{
}

/// Importing a file adds it under its name; importing a directory adds each file below
/// it, in order, under the directory's name and its path from there; anything else is
/// warned of, and a path without a name is an error.
pub proof fn everything_given_is_imported<T>(
    shown: Seq<char>,
    root: Seq<char>,
    source: ImportSource<T>,
    path: T,
    files: Vec<DirFile<T>>,
)
    ensures
        import_steps(shown, None, source) == seq![ImportView::<T>::Fail("invalid path"@)],
        import_steps(shown, Some(root), ImportSource::File(path)) == seq![
            ImportView::Add { path, name: root },
        ],
        import_steps(shown, Some(root), ImportSource::<T>::Other) == seq![
            ImportView::<T>::Warn("warning: skipping "@ + shown + " (not a file or directory)"@),
        ],
        import_steps(shown, Some(root), ImportSource::Dir(files)).len() == files@.len(),
        forall|i: int|
            0 <= i < files@.len() ==> match (#[trigger] files@[i]).rel {
                Some(rel) => import_steps(shown, Some(root), ImportSource::Dir(files))[i] == (
                ImportView::Add { path: files@[i].path, name: joined_path(root, rel@) }),
                None => import_steps(shown, Some(root), ImportSource::Dir(files))[i]
                    == ImportView::<T>::Fail("strip prefix"@),
            },
{
}

/// The manifest has an entry for each file, in order, with its name and its hash in
/// hexadecimal.
pub proof fn every_file_is_described(names: Seq<Seq<char>>, hashes: Seq<Seq<u8>>)
    ensures
        described(names, hashes).len() == names.len(),
        forall|i: int|
            0 <= i < names.len() ==> (#[trigger] described(names, hashes)[i]).path == names[i]
                && described(names, hashes)[i].hash == hex(hashes[i]),
        has_hashes(names, hashes) <==> names.len() == hashes.len() && forall|i: int|
            0 <= i < hashes.len() ==> (#[trigger] hashes[i]).len() == 32,
{
}

/// Zero means success, every other byte an error, and no byte an interruption.
pub proof fn only_zero_means_success(status: u8)
    ensures
        outcome_of(None) == ServeOutcome::Interrupted,
        status == 0 ==> outcome_of(Some(status)) == ServeOutcome::Completed,
        status != 0 ==> outcome_of(Some(status)) == ServeOutcome::ReceiverError,
{
}

/// Steps and names stand in the laws for what they hold.
pub proof fn import_views_hold_it_all<T>(steps: Seq<ImportStep<T>>, path: T, name: String)
    ensures
        (ImportStep::Add { path, name })@ == (ImportView::Add { path, name: name@ }),
        ImportStep::<T>::Warn(name)@ == ImportView::<T>::Warn(name@),
        ImportStep::<T>::Fail(name)@ == ImportView::<T>::Fail(name@),
        steps_view(steps).len() == steps.len(),
        forall|i: int| 0 <= i < steps.len() ==> steps_view(steps)[i] == (#[trigger] steps[i])@,
        optional_name(Some(name)) == Some(name@),
        optional_name(None) is None,
{
}

} // verus!
