//! The receiving side: which files of a transfer are fetched, written and
//! checked, and what is reported.
use vstd::prelude::*;

use crate::failed_list::{list_text, only_view, push_to_set, wanted, PathSet};
use crate::hash::{hashes_view, BlobHash};
use crate::hashseq::{decode_after_encode, encode_after_decode, index_bytes};
use crate::hashseq::{decode_index, index_error_text, nth_hash, Index, IndexError};
use crate::manifest::{entries, paths, prepare_manifest, prepared, EntryView, FileEntry, Manifest};
use crate::text::{debug_list, debug_list_form, decimal, decimal_of, hex, join, same, texts};

verus! {

/// Why a transfer could not be loaded.
#[derive(Debug, Clone, Copy, PartialEq, Eq)]
pub enum LoadError {
    /// The index is malformed.
    BadIndex(IndexError),
    /// The index names a manifest that is not in the store.
    ManifestMissing,
    /// The manifest does not have one entry per file hash.
    CountMismatch { files: usize, hashes: usize },
}

/// Description of a load error.
pub open spec fn load_error_text(e: LoadError) -> Seq<char> {
    match e {
        LoadError::BadIndex(i) => index_error_text(i),
        LoadError::ManifestMissing => "manifest blob not downloaded"@,
        LoadError::CountMismatch { files, hashes } => "manifest/file count mismatch: "@ + decimal(
            files as nat,
        ) + " vs "@ + decimal(hashes as nat),
    }
}

impl LoadError {
    /// Human-readable description.
    pub fn message(&self) -> (r: String)
        ensures
            r@ == load_error_text(*self),
    {
        match self {
            LoadError::BadIndex(i) => i.message(),
            LoadError::ManifestMissing => "manifest blob not downloaded".to_owned(),
            LoadError::CountMismatch { files, hashes } => {
                let mut r: String = "manifest/file count mismatch: ".to_owned();
                r.append(decimal_of(*files as u64).as_str());
                r.append(" vs ");
                r.append(decimal_of(*hashes as u64).as_str());
                r
            },
        }
    }
}

/// The file hashes in the bytes of an index.
pub open spec fn index_hashes(data: Seq<u8>) -> Seq<Seq<u8>> {
    Seq::new((data.len() / 32 - 1) as nat, |i: int| nth_hash(data, i + 1))
}

/// Whether bytes are an index.
pub open spec fn is_index(data: Seq<u8>) -> bool {
    data.len() >= 32 && data.len() % 32 == 0
}

/// Which error bytes that are no index give.
pub open spec fn index_error(data: Seq<u8>) -> IndexError {
    if data.len() < 32 {
        IndexError::TooShort
    } else {
        IndexError::NotAligned
    }
}

/// The transfer that the bytes of an index and the manifest it names describe,
/// with the manifest paths prepared for the receiver. The counts of entries and
/// hashes are not compared here.
pub fn fetch_index_and_manifest(data: &[u8], manifest: Manifest, strip_root: bool) -> (r: Result<
    (Manifest, Vec<BlobHash>),
    IndexError,
>)
    ensures
        r is Ok <==> is_index(data@),
        r matches Err(e) ==> e == index_error(data@),
        r matches Ok(pair) ==> {
            &&& pair.0.root@ == manifest.root@
            &&& entries(pair.0.files@) == prepared(entries(manifest.files@), strip_root)
            &&& hashes_view(pair.1@) == index_hashes(data@)
        },
{
    match decode_index(data) {
        Err(e) => Err(e),
        Ok(index) => {
            let Index { manifest: _, files } = index;
            assert(hashes_view(files@) =~= index_hashes(data@));
            Ok((prepare_manifest(manifest, strip_root), files))
        },
    }
}

/// A loaded transfer: one hash per manifest entry.
#[derive(Debug, PartialEq, Eq)]
pub struct TransferInfo {
    manifest: Manifest,
    file_hashes: Vec<BlobHash>,
}

impl TransferInfo {
    #[verifier::type_invariant]
    closed spec fn one_hash_per_entry(self) -> bool {
        self.manifest.files@.len() == self.file_hashes@.len()
    }

    /// The manifest entries.
    pub closed spec fn entries(self) -> Seq<EntryView> {
        entries(self.manifest.files@)
    }

    /// The hashes from the index.
    pub closed spec fn hashes(self) -> Seq<Seq<u8>> {
        hashes_view(self.file_hashes@)
    }
}

/// Load a transfer from the bytes of its index and its manifest, `None` where
/// the manifest is not in the store.
pub fn load_transfer(data: &[u8], manifest: Option<Manifest>, strip_root: bool) -> (r: Result<
    TransferInfo,
    LoadError,
>)
    ensures
        r == Err::<TransferInfo, LoadError>(LoadError::BadIndex(index_error(data@))) <==> !is_index(
            data@,
        ),
        r == Err::<TransferInfo, LoadError>(LoadError::ManifestMissing) <==> is_index(data@)
            && manifest is None,
        is_index(data@) ==> (manifest matches Some(m) ==> if m.files@.len() == index_hashes(
            data@,
        ).len() {
            &&& r matches Ok(info)
            &&& info.entries() == prepared(entries(m.files@), strip_root)
            &&& info.hashes() == index_hashes(data@)
        } else {
            &&& r matches Err(LoadError::CountMismatch { files, hashes })
            &&& files == m.files@.len()
            &&& hashes == index_hashes(data@).len()
        }),
{
    let index = match decode_index(data) {
        Err(e) => {
            return Err(LoadError::BadIndex(e));
        },
        Ok(index) => index,
    };
    let Index { manifest: _, files: file_hashes } = index;
    assert(hashes_view(file_hashes@) =~= index_hashes(data@));
    match manifest {
        None => Err(LoadError::ManifestMissing),
        Some(m) => {
            let ghost before = entries(m.files@);
            let manifest = prepare_manifest(m, strip_root);
            assert(entries(manifest.files@).len() == before.len());
            if manifest.files.len() != file_hashes.len() {
                return Err(
                    LoadError::CountMismatch {
                        files: manifest.files.len(),
                        hashes: file_hashes.len(),
                    },
                );
            }
            Ok(TransferInfo { manifest, file_hashes })
        },
    }
}

/// A file to fetch or to write: its manifest path and its hash.
#[derive(Debug, PartialEq, Eq)]
pub struct Target {
    pub path: String,
    pub hash: BlobHash,
}

/// What a [`Target`] says.
#[verifier::ext_equal]
pub struct TargetView {
    pub path: Seq<char>,
    pub hash: Seq<u8>,
}

impl View for Target {
    type V = TargetView;

    open spec fn view(&self) -> TargetView {
        TargetView { path: self.path@, hash: self.hash@ }
    }
}

/// What a list of targets says.
pub open spec fn targets_view(targets: Seq<Target>) -> Seq<TargetView> {
    targets.map_values(|t: Target| t@)
}

/// Entries paired with their hashes; what has no partner is left out.
pub open spec fn paired(files: Seq<EntryView>, hashes: Seq<Seq<u8>>) -> Seq<TargetView> {
    let n = if files.len() <= hashes.len() {
        files.len()
    } else {
        hashes.len()
    };
    Seq::new(n, |i: int| TargetView { path: files[i].path, hash: hashes[i] })
}

/// The files to transfer: all of them, or those in `only`, in manifest order.
pub open spec fn chosen(
    files: Seq<EntryView>,
    hashes: Seq<Seq<u8>>,
    only: Option<Set<Seq<char>>>,
) -> Seq<TargetView> {
    paired(files, hashes).filter(|t: TargetView| wanted(only, t.path))
}

fn is_wanted(only: Option<&PathSet>, path: &str) -> (r: bool)
    ensures
        r == wanted(only_view(only), path@),
{
    match only {
        Some(set) => set.contains(path),
        None => true,
    }
}

fn choose_targets(files: &Vec<FileEntry>, hashes: &Vec<BlobHash>, only: Option<&PathSet>) -> (r:
    Vec<Target>)
    ensures
        targets_view(r@) == chosen(entries(files@), hashes_view(hashes@), only_view(only)),
{
    let n: usize = if files.len() <= hashes.len() {
        files.len()
    } else {
        hashes.len()
    };
    let ghost all = paired(entries(files@), hashes_view(hashes@));
    let ghost pred = |t: TargetView| wanted(only_view(only), t.path);
    let mut r: Vec<Target> = Vec::new();
    let mut i: usize = 0;
    proof {
        reveal(Seq::filter);
        assert(targets_view(r@) =~= all.take(0).filter(pred));
    }
    while i < n
        invariant
            i <= n,
            n <= files.len(),
            n <= hashes.len(),
            n == all.len(),
            all == paired(entries(files@), hashes_view(hashes@)),
            pred == (|t: TargetView| wanted(only_view(only), t.path)),
            targets_view(r@) == all.take(i as int).filter(pred),
        decreases n - i,
    {
        let ghost before = targets_view(r@);
        proof {
            reveal(Seq::filter);
            assert(all.take(i + 1).drop_last() =~= all.take(i as int));
            assert(all.take(i + 1).last() == all[i as int]);
        }
        if is_wanted(only, files[i].path.as_str()) {
            r.push(Target { path: files[i].path.clone(), hash: hashes[i] });
            assert(targets_view(r@) =~= before.push(all[i as int]));
        }
        i = i + 1;
    }
    assert(all.take(i as int) =~= all);
    r
}

/// Which files to download, and the line that announces it.
#[derive(Debug, PartialEq, Eq)]
pub struct DownloadPlan {
    pub targets: Vec<Target>,
    /// How many files are downloaded at a time.
    pub streams: usize,
    pub notice: String,
}

/// What a [`DownloadPlan`] says.
#[verifier::ext_equal]
pub struct PlanView {
    pub targets: Seq<TargetView>,
    pub streams: nat,
    pub notice: Seq<char>,
}

impl View for DownloadPlan {
    type V = PlanView;

    open spec fn view(&self) -> PlanView {
        PlanView {
            targets: targets_view(self.targets@),
            streams: self.streams as nat,
            notice: self.notice@,
        }
    }
}

/// The plan to download the files in `only`, or all of them.
pub open spec fn download_plan(
    files: Seq<EntryView>,
    hashes: Seq<Seq<u8>>,
    only: Option<Set<Seq<char>>>,
    parallel: nat,
) -> PlanView {
    let targets = chosen(files, hashes, only);
    PlanView {
        targets,
        streams: parallel,
        notice: "downloading "@ + decimal(targets.len()) + " files ("@ + decimal(parallel)
            + " parallel streams)..."@,
    }
}

/// The given files (all of them unless `only` is set), to be downloaded over
/// `parallel` streams.
pub fn download_files(
    manifest: &Manifest,
    file_hashes: &Vec<BlobHash>,
    only: Option<&PathSet>,
    parallel: usize,
) -> (r: DownloadPlan)
    ensures
        r@ == download_plan(
            entries(manifest.files@),
            hashes_view(file_hashes@),
            only_view(only),
            parallel as nat,
        ),
{
    let targets = choose_targets(&manifest.files, file_hashes, only);
    assert(targets_view(targets@).len() == targets@.len());
    let mut notice: String = "downloading ".to_owned();
    notice.append(decimal_of(targets.len() as u64).as_str());
    notice.append(" files (");
    notice.append(decimal_of(parallel as u64).as_str());
    notice.append(" parallel streams)...");
    DownloadPlan { targets, streams: parallel, notice }
}

/// How many streams a download uses: as many as asked for, and at least one.
pub open spec fn streams_for(parallel: nat) -> nat {
    if parallel == 0 {
        1
    } else {
        parallel
    }
}

/// How many streams a download uses: as many as asked for, and at least one.
pub fn download_streams(parallel: usize) -> (r: usize)
    ensures
        r == streams_for(parallel as nat),
{
    if parallel == 0 {
        1
    } else {
        parallel
    }
}

/// None of the files that were asked for is in the manifest.
#[derive(Debug, PartialEq, Eq)]
pub struct NoneMatched {
    /// How many files were asked for.
    pub requested: usize,
    /// The first manifest paths.
    pub sample: Vec<String>,
}

/// Description of the error.
pub open spec fn none_matched_text(requested: nat, sample: Seq<Seq<char>>) -> Seq<char> {
    "none of the "@ + decimal(requested)
        + " requested file(s) matched the manifest (manifest paths e.g.: "@ + debug_list_form(
        sample,
    ) + "); the retry list may be stale or malformed"@
}

impl NoneMatched {
    /// Human-readable description.
    pub fn message(&self) -> (r: String)
        ensures
            r@ == none_matched_text(self.requested as nat, texts(self.sample@)),
    {
        let mut r: String = "none of the ".to_owned();
        r.append(decimal_of(self.requested as u64).as_str());
        r.append(" requested file(s) matched the manifest (manifest paths e.g.: ");
        r.append(debug_list(&self.sample).as_str());
        r.append("); the retry list may be stale or malformed");
        r
    }
}

/// Whether an operation restricted to `only` would touch no file at all although
/// it was asked to.
pub open spec fn matches_nothing(files: Seq<EntryView>, only: Option<Set<Seq<char>>>) -> bool {
    &&& only is Some
    &&& forall|i: int| 0 <= i < files.len() ==> !wanted(only, (#[trigger] files[i]).path)
}

/// The first three paths, or all of them if there are fewer.
pub open spec fn first_paths(files: Seq<EntryView>) -> Seq<Seq<char>> {
    if files.len() <= 3 {
        paths(files)
    } else {
        paths(files).take(3)
    }
}

fn none_matched(files: &Vec<FileEntry>, only: Option<&PathSet>) -> (r: NoneMatched)
    requires
        only is Some,
    ensures
        r.requested == only->0@.len(),
        texts(r.sample@) == first_paths(entries(files@)),
{
    let requested: usize = match only {
        Some(set) => set.len(),
        None => 0,
    };
    let mut sample: Vec<String> = Vec::new();
    let mut i: usize = 0;
    while i < files.len() && i < 3
        invariant
            i <= files.len(),
            i <= 3,
            sample@.len() == i,
            forall|k: int| 0 <= k < i ==> (#[trigger] sample@[k])@ == files@[k].path@,
        decreases 3 - i,
    {
        sample.push(files[i].path.clone());
        i = i + 1;
    }
    assert(texts(sample@) =~= first_paths(entries(files@)));
    NoneMatched { requested, sample }
}

/// The files to write, and the line that announces it.
#[derive(Debug, PartialEq, Eq)]
pub struct ExportPlan {
    pub targets: Vec<Target>,
    pub notice: String,
}

proof fn chosen_empty(
    files: Seq<EntryView>,
    hashes: Seq<Seq<u8>>,
    only: Option<Set<Seq<char>>>,
)
    requires
        files.len() == hashes.len(),
    ensures
        chosen(files, hashes, only).len() == 0 <==> forall|i: int|
            0 <= i < files.len() ==> !wanted(only, (#[trigger] files[i]).path),
{
    broadcast use vstd::seq_lib::group_filter_ensures;

    let all = paired(files, hashes);
    let pred = |t: TargetView| wanted(only, t.path);
    if chosen(files, hashes, only).len() == 0 {
        assert forall|i: int| 0 <= i < files.len() implies !wanted(
            only,
            (#[trigger] files[i]).path,
        ) by {
            if pred(all[i]) {
                assert(all.filter(pred).contains(all[i]));
            }
        }
    } else {
        let t = all.filter(pred)[0];
        assert(pred(t));
        all.lemma_filter_contains_rev(pred, t);
        let i = choose|i: int| 0 <= i < all.len() && all[i] == t;
        assert(wanted(only, files[i].path));
    }
}

/// Which files of a loaded transfer are written to `output`: all of them, or
/// those in `only`. It is an error if `only` is set and matches nothing.
pub fn export_hashseq(info: &TransferInfo, output: &str, only: Option<&PathSet>) -> (r: Result<
    ExportPlan,
    NoneMatched,
>)
    ensures
        r is Err <==> matches_nothing(info.entries(), only_view(only)),
        r matches Err(e) ==> {
            &&& e.requested == only->0@.len()
            &&& texts(e.sample@) == first_paths(info.entries())
        },
        r matches Ok(plan) ==> {
            &&& targets_view(plan.targets@) == chosen(
                info.entries(),
                info.hashes(),
                only_view(only),
            )
            &&& plan.notice@ == "Exporting "@ + decimal(plan.targets@.len()) + " files to "@
                + output@ + "..."@
        },
{
    let targets = choose_targets(&info.manifest.files, &info.file_hashes, only);
    proof {
        use_type_invariant(info);
        chosen_empty(info.entries(), info.hashes(), only_view(only));
        assert(targets_view(targets@).len() == targets@.len());
    }
    if only.is_some() && targets.len() == 0 {
        return Err(none_matched(&info.manifest.files, only));
    }
    let mut notice: String = "Exporting ".to_owned();
    notice.append(decimal_of(targets.len() as u64).as_str());
    notice.append(" files to ");
    notice.append(output);
    notice.append("...");
    Ok(ExportPlan { targets, notice })
}

/// Before a file is written its contents must be in the store.
pub fn require_downloaded(path: &str, in_store: bool) -> (r: Result<(), String>)
    ensures
        r is Ok <==> in_store,
        r matches Err(e) ==> e@ == "file blob not downloaded: "@ + path@,
{
    if in_store {
        Ok(())
    } else {
        let mut e: String = "file blob not downloaded: ".to_owned();
        e.append(path);
        Err(e)
    }
}

/// The entries to check: all of them, or those in `only`, in manifest order.
pub open spec fn chosen_entries(files: Seq<EntryView>, only: Option<Set<Seq<char>>>) -> Seq<
    EntryView,
> {
    files.filter(|e: EntryView| wanted(only, e.path))
}

proof fn chosen_entries_empty(files: Seq<EntryView>, only: Option<Set<Seq<char>>>)
    ensures
        chosen_entries(files, only).len() == 0 <==> forall|i: int|
            0 <= i < files.len() ==> !wanted(only, (#[trigger] files[i]).path),
{
    broadcast use vstd::seq_lib::group_filter_ensures;

    let pred = |e: EntryView| wanted(only, e.path);
    if chosen_entries(files, only).len() == 0 {
        assert forall|i: int| 0 <= i < files.len() implies !wanted(
            only,
            (#[trigger] files[i]).path,
        ) by {
            if pred(files[i]) {
                assert(files.filter(pred).contains(files[i]));
            }
        }
    } else {
        let e = files.filter(pred)[0];
        assert(pred(e));
        files.lemma_filter_contains_rev(pred, e);
        let i = choose|i: int| 0 <= i < files.len() && files[i] == e;
        assert(wanted(only, files[i].path));
    }
}

/// Which files of a loaded transfer are verified: all of them, or those in
/// `only`. It is an error if `only` is set and matches nothing.
pub fn select_for_verify(info: &TransferInfo, only: Option<&PathSet>) -> (r: Result<
    Vec<FileEntry>,
    NoneMatched,
>)
    ensures
        r is Err <==> matches_nothing(info.entries(), only_view(only)),
        r matches Err(e) ==> {
            &&& e.requested == only->0@.len()
            &&& texts(e.sample@) == first_paths(info.entries())
        },
        r matches Ok(selected) ==> entries(selected@) == chosen_entries(
            info.entries(),
            only_view(only),
        ),
{
    let files = &info.manifest.files;
    let ghost all = entries(files@);
    let ghost pred = |e: EntryView| wanted(only_view(only), e.path);
    let mut selected: Vec<FileEntry> = Vec::new();
    let mut i: usize = 0;
    proof {
        reveal(Seq::filter);
        assert(entries(selected@) =~= all.take(0).filter(pred));
    }
    while i < files.len()
        invariant
            i <= files.len(),
            all == entries(files@),
            pred == (|e: EntryView| wanted(only_view(only), e.path)),
            entries(selected@) == all.take(i as int).filter(pred),
        decreases files.len() - i,
    {
        let ghost before = entries(selected@);
        proof {
            reveal(Seq::filter);
            assert(all.take(i + 1).drop_last() =~= all.take(i as int));
            assert(all.take(i + 1).last() == all[i as int]);
        }
        if is_wanted(only, files[i].path.as_str()) {
            selected.push(files[i].copy());
            assert(entries(selected@) =~= before.push(all[i as int]));
        }
        i = i + 1;
    }
    proof {
        assert(all.take(i as int) =~= all);
        chosen_entries_empty(all, only_view(only));
        assert(entries(selected@).len() == selected@.len());
    }
    if only.is_some() && selected.len() == 0 {
        return Err(none_matched(files, only));
    }
    Ok(selected)
}

/// What is found when an exported file is read back.
#[derive(Debug, PartialEq, Eq)]
pub enum FileStatus {
    /// There is no file.
    Missing,
    /// The file could not be read.
    Unreadable { cause: String },
    /// The file was read; this is the hash of its contents.
    Hashed { hash: BlobHash },
}

/// An exported file as it is found on disk.
#[derive(Debug, PartialEq, Eq)]
pub struct FileCheck {
    /// Where the file is, for messages.
    pub dest: String,
    pub status: FileStatus,
}

/// Where a checked file is and what is wrong with it, if anything.
pub open spec fn failure_detail(entry: EntryView, check: FileCheck) -> Option<Seq<char>> {
    match check.status {
        FileStatus::Missing => Some("missing: "@ + check.dest@),
        FileStatus::Unreadable { cause } => Some(
            "read error: "@ + check.dest@ + " ("@ + cause@ + ")"@,
        ),
        FileStatus::Hashed { hash } => if hex(hash@) == entry.hash {
            None
        } else {
            Some(
                "checksum mismatch: "@ + check.dest@ + " (expected "@ + entry.hash + ", got "@
                    + hex(hash@) + ")"@,
            )
        },
    }
}

/// A file that failed verification.
#[derive(Debug, PartialEq, Eq)]
pub struct Failure {
    /// Manifest path.
    pub path: String,
    /// What is wrong.
    pub detail: String,
}

/// What a [`Failure`] says.
#[verifier::ext_equal]
pub struct FailureView {
    pub path: Seq<char>,
    pub detail: Seq<char>,
}

impl View for Failure {
    type V = FailureView;

    open spec fn view(&self) -> FailureView {
        FailureView { path: self.path@, detail: self.detail@ }
    }
}

/// What a list of failures says.
pub open spec fn failures_view(failures: Seq<Failure>) -> Seq<FailureView> {
    failures.map_values(|f: Failure| f@)
}

/// The paths of a list of failures.
pub open spec fn failed_paths(failures: Seq<FailureView>) -> Seq<Seq<char>> {
    failures.map_values(|f: FailureView| f.path)
}

/// The failure of one file, if it failed.
pub open spec fn failure_of(pair: (EntryView, FileCheck)) -> Option<FailureView> {
    match failure_detail(pair.0, pair.1) {
        Some(detail) => Some(FailureView { path: pair.0.path, detail }),
        None => None,
    }
}

/// The failures among checked files, in order.
pub open spec fn failures_among(files: Seq<EntryView>, checks: Seq<FileCheck>) -> Seq<
    FailureView,
> {
    files.zip_with(checks).filter_map(|p: (EntryView, FileCheck)| failure_of(p))
}

fn find_failure(entry: &FileEntry, check: &FileCheck) -> (r: Option<String>)
    ensures
        r is Some <==> failure_detail(entry@, *check) is Some,
        r matches Some(d) ==> d@ == failure_detail(entry@, *check)->0,
{
    match &check.status {
        FileStatus::Missing => {
            let mut d: String = "missing: ".to_owned();
            d.append(check.dest.as_str());
            Some(d)
        },
        FileStatus::Unreadable { cause } => {
            let mut d: String = "read error: ".to_owned();
            d.append(check.dest.as_str());
            d.append(" (");
            d.append(cause.as_str());
            d.append(")");
            Some(d)
        },
        FileStatus::Hashed { hash } => {
            let got = hash.to_hex();
            if same(got.as_str(), entry.hash.as_str()) {
                None
            } else {
                let mut d: String = "checksum mismatch: ".to_owned();
                d.append(check.dest.as_str());
                d.append(" (expected ");
                d.append(entry.hash.as_str());
                d.append(", got ");
                d.append(got.as_str());
                d.append(")");
                Some(d)
            }
        },
    }
}

/// The files among `files` that are missing or do not match, given how each of
/// them was found on disk.
pub fn check_exported_files(files: &Vec<FileEntry>, checks: &Vec<FileCheck>) -> (r: Vec<Failure>)
    requires
        files@.len() == checks@.len(),
    ensures
        failures_view(r@) == failures_among(entries(files@), checks@),
{
    let ghost all = entries(files@).zip_with(checks@);
    let ghost f = |p: (EntryView, FileCheck)| failure_of(p);
    let mut failures: Vec<Failure> = Vec::new();
    let mut i: usize = 0;
    assert(failures_view(failures@) =~= all.take(0).filter_map(f));
    while i < files.len()
        invariant
            i <= files.len(),
            files@.len() == checks@.len(),
            all == entries(files@).zip_with(checks@),
            f == (|p: (EntryView, FileCheck)| failure_of(p)),
            failures_view(failures@) == all.take(i as int).filter_map(f),
        decreases files.len() - i,
    {
        let ghost before = failures_view(failures@);
        proof {
            assert(all.take(i + 1).drop_last() =~= all.take(i as int));
            assert(all.take(i + 1).last() == (files@[i as int]@, checks@[i as int]));
        }
        match find_failure(&files[i], &checks[i]) {
            Some(detail) => {
                failures.push(Failure { path: files[i].path.clone(), detail });
                assert(failures_view(failures@) =~= all.take(i + 1).filter_map(f));
            },
            None => {},
        }
        i = i + 1;
    }
    assert(all.take(i as int) =~= all);
    failures
}

/// The set of the paths of `failures`.
pub fn failed_set(failures: &Vec<Failure>) -> (r: PathSet)
    ensures
        r@ == failed_paths(failures_view(failures@)).to_set(),
{
    let ghost all = failed_paths(failures_view(failures@));
    let mut set = PathSet::new();
    let mut i: usize = 0;
    assert(set@ =~= all.take(0).to_set());
    while i < failures.len()
        invariant
            i <= failures.len(),
            all == failed_paths(failures_view(failures@)),
            set@ == all.take(i as int).to_set(),
        decreases failures.len() - i,
    {
        set = set.with(failures[i].path.clone());
        proof {
            assert(all.take(i + 1) =~= all.take(i as int).push(all[i as int]));
            push_to_set(all.take(i as int), all[i as int]);
        }
        i = i + 1;
    }
    assert(all.take(i as int) =~= all);
    set
}

/// Why a verification failed.
#[derive(Debug, PartialEq, Eq)]
pub struct VerifyFailure {
    /// The manifest paths of the files that failed.
    pub failed: PathSet,
    /// What to write to the failed-file list.
    pub list: String,
    /// What to report.
    pub message: String,
}

/// The details of all failures, a line each.
pub open spec fn failure_lines(failures: Seq<FailureView>) -> Seq<char>
    decreases failures.len(),
{
    if failures.len() == 0 {
        Seq::empty()
    } else {
        failure_lines(failures.drop_last()) + "\n  - "@ + failures.last().detail
    }
}

/// The report of a failed verification.
pub open spec fn failure_report(failures: Seq<FailureView>, total: nat) -> Seq<char> {
    decimal(failures.len()) + "/"@ + decimal(total) + " files failed verification:"@
        + failure_lines(failures)
}

/// The outcome of checking the selected files. All of them were checked, and
/// all failures are reported together, with their manifest paths, so that just
/// those files can be transferred again.
pub fn verify(selected: &Vec<FileEntry>, checks: &Vec<FileCheck>) -> (r: Result<
    String,
    VerifyFailure,
>)
    requires
        selected@.len() == checks@.len(),
    ensures
        ({
            let failures = failures_among(entries(selected@), checks@);
            match r {
                Ok(notice) => {
                    &&& failures.len() == 0
                    &&& notice@ == "All "@ + decimal(selected@.len()) + " files verified."@
                },
                Err(e) => {
                    &&& failures.len() > 0
                    &&& e.failed@ == failed_paths(failures).to_set()
                    &&& e.list@ == list_text(failed_paths(failures))
                    &&& e.message@ == failure_report(failures, selected@.len())
                },
            }
        }),
{
    let failures = check_exported_files(selected, checks);
    assert(failures_view(failures@).len() == failures@.len());
    if failures.len() == 0 {
        let mut notice: String = "All ".to_owned();
        notice.append(decimal_of(selected.len() as u64).as_str());
        notice.append(" files verified.");
        return Ok(notice);
    }
    let ghost view = failures_view(failures@);
    let mut failed: Vec<String> = Vec::new();
    let mut message: String = decimal_of(failures.len() as u64);
    message.append("/");
    message.append(decimal_of(selected.len() as u64).as_str());
    message.append(" files failed verification:");
    let ghost head = message@;
    assert(message@ =~= head + failure_lines(view.take(0)));
    let mut i: usize = 0;
    while i < failures.len()
        invariant
            i <= failures.len(),
            view == failures_view(failures@),
            failed@.len() == i,
            forall|k: int| 0 <= k < i ==> (#[trigger] failed@[k])@ == failures@[k].path@,
            message@ == head + failure_lines(view.take(i as int)),
        decreases failures.len() - i,
    {
        failed.push(failures[i].path.clone());
        message.append("\n  - ");
        message.append(failures[i].detail.as_str());
        proof {
            assert(view.take(i + 1).drop_last() =~= view.take(i as int));
            assert(message@ =~= head + failure_lines(view.take(i + 1)));
        }
        i = i + 1;
    }
    assert(view.take(i as int) =~= view);
    assert(texts(failed@) =~= failed_paths(view));
    Err(
        VerifyFailure {
            failed: failed_set(&failures),
            list: join(&failed, "\n"),
            message,
        },
    )
}

/// Compare the hash of a single exported file with the one that was announced.
pub fn verify_single(expected: &BlobHash, got: &BlobHash) -> (r: Result<String, String>)
    ensures
        r is Ok <==> expected@ == got@,
        r matches Ok(notice) ==> notice@ == "File verified."@,
        r matches Err(e) ==> e@ == "checksum mismatch: expected "@ + hex(expected@) + ", got "@
            + hex(got@),
{
    if expected.same(got) {
        return Ok("File verified.".to_owned());
    }
    let mut e: String = "checksum mismatch: expected ".to_owned();
    e.append(expected.to_hex().as_str());
    e.append(", got ");
    e.append(got.to_hex().as_str());
    Err(e)
}

/// Whether `t` is the entry at `i` with its own hash, and there is no restriction or its
/// path is in the set.
pub open spec fn is_wanted_entry(
    files: Seq<EntryView>,
    hashes: Seq<Seq<u8>>,
    only: Option<Set<Seq<char>>>,
    t: TargetView,
    i: int,
) -> bool {
    &&& 0 <= i < files.len()
    &&& i < hashes.len()
    &&& t.path == files[i].path
    &&& t.hash == hashes[i]
    &&& only is None || only->0.contains(files[i].path)
}

/// A download is complete, whatever the number of streams: every entry that has a hash
/// and is wanted is a target, with its own hash, and every target is such an entry. The
/// number of streams is the one that was asked for.
pub proof fn download_is_complete(
    files: Seq<EntryView>,
    hashes: Seq<Seq<u8>>,
    only: Option<Set<Seq<char>>>,
    parallel: nat,
    t: TargetView,
)
    ensures
        download_plan(files, hashes, only, parallel).targets.contains(t) <==> exists|i: int|
            is_wanted_entry(files, hashes, only, t, i),
        download_plan(files, hashes, only, parallel).streams == parallel,
        download_plan(files, hashes, only, parallel).notice == "downloading "@ + decimal(
            download_plan(files, hashes, only, parallel).targets.len(),
        ) + " files ("@ + decimal(parallel) + " parallel streams)..."@,
{
    broadcast use vstd::seq_lib::group_filter_ensures;

    let targets = download_plan(files, hashes, only, parallel).targets;
    let all = paired(files, hashes);
    let pred = |t: TargetView| wanted(only, t.path);
    if exists|i: int| is_wanted_entry(files, hashes, only, t, i) {
        let i = choose|i: int| is_wanted_entry(files, hashes, only, t, i);
        assert(all[i] == t);
        assert(pred(all[i]));
        assert(all.filter(pred).contains(all[i]));
    }
    if targets.contains(t) {
        let k = choose|k: int| 0 <= k < targets.len() && targets[k] == t;
        assert(pred(all.filter(pred)[k]));
        all.lemma_filter_contains_rev(pred, t);
        let i = choose|i: int| 0 <= i < all.len() && all[i] == t;
        assert(is_wanted_entry(files, hashes, only, t, i));
    }
}

/// One more file in a transfer is one more target at the end where it is wanted, and
/// changes nothing where it is not; so the targets keep the order of the manifest, each
/// as often as it is there. The same holds of the entries that are verified.
pub proof fn one_more_file_is_one_more_target(
    files: Seq<EntryView>,
    hashes: Seq<Seq<u8>>,
    only: Option<Set<Seq<char>>>,
    parallel: nat,
    entry: EntryView,
    hash: Seq<u8>,
)
    requires
        files.len() == hashes.len(),
    ensures
        ({
            let before = download_plan(files, hashes, only, parallel).targets;
            let after = download_plan(
                files.push(entry),
                hashes.push(hash),
                only,
                parallel,
            ).targets;
            let selected = chosen_entries(files, only);
            let selected_after = chosen_entries(files.push(entry), only);
            if only is None || only->0.contains(entry.path) {
                &&& after == before.push(TargetView { path: entry.path, hash })
                &&& selected_after == selected.push(entry)
            } else {
                &&& after == before
                &&& selected_after == selected
            }
        }),
        download_plan(Seq::empty(), Seq::empty(), only, parallel).targets.len() == 0,
        chosen_entries(Seq::empty(), only).len() == 0,
{
    reveal(Seq::filter);
    let pred = |t: TargetView| wanted(only, t.path);
    let keep = |e: EntryView| wanted(only, e.path);
    let last = TargetView { path: entry.path, hash };
    let all = paired(files.push(entry), hashes.push(hash));
    assert(all.drop_last() =~= paired(files, hashes));
    assert(all.last() == last);
    assert(files.push(entry).drop_last() =~= files);
    assert(files.push(entry).last() == entry);
    assert(pred(last) == keep(entry));
    assert(paired(Seq::empty(), Seq::empty()).len() == 0);
}

/// Files that were asked for match nothing if and only if the manifest names none of
/// them; an operation on everything always matches.
pub proof fn nothing_matches_only_strangers(
    files: Seq<EntryView>,
    only: Option<Set<Seq<char>>>,
)
    ensures
        only is None ==> !matches_nothing(files, only),
        only matches Some(set) ==> (matches_nothing(files, only) <==> forall|path: Seq<char>|
            #[trigger] set.contains(path) ==> !paths(files).contains(path)),
{
    if let Some(set) = only {
        if matches_nothing(files, only) {
            assert forall|path: Seq<char>| #[trigger] set.contains(path) implies !paths(
                files,
            ).contains(path) by {
                if paths(files).contains(path) {
                    let i = choose|i: int| 0 <= i < paths(files).len() && paths(files)[i] == path;
                    assert(files[i].path == path);
                }
            }
        } else {
            let i = choose|i: int| 0 <= i < files.len() && wanted(only, (#[trigger] files[i]).path);
            assert(paths(files)[i] == files[i].path);
            assert(paths(files).contains(files[i].path));
            assert(set.contains(files[i].path));
        }
    }
}

/// The paths given as examples are those of the first three entries, or of all where
/// there are fewer.
pub proof fn examples_are_the_first_paths(files: Seq<EntryView>)
    ensures
        first_paths(files).len() == if files.len() < 3 {
            files.len()
        } else {
            3
        },
        forall|i: int|
            0 <= i < first_paths(files).len() ==> #[trigger] first_paths(files)[i]
                == files[i].path,
{
}

/// A file passes if and only if it was read and the hexadecimal form of its hash is what
/// the manifest has; otherwise it is told what is wrong with it, and where it is.
pub proof fn failure_says_what_is_wrong(entry: EntryView, check: FileCheck)
    ensures
        failure_detail(entry, check) is None <==> (check.status matches FileStatus::Hashed { hash }
            && hex(hash@) == entry.hash),
        check.status is Missing ==> failure_detail(entry, check) == Some(
            "missing: "@ + check.dest@,
        ),
        check.status matches FileStatus::Unreadable { cause } ==> failure_detail(entry, check)
            == Some("read error: "@ + check.dest@ + " ("@ + cause@ + ")"@),
        check.status matches FileStatus::Hashed { hash } ==> hex(hash@) != entry.hash
            ==> failure_detail(entry, check) == Some(
            "checksum mismatch: "@ + check.dest@ + " (expected "@ + entry.hash + ", got "@ + hex(
                hash@,
            ) + ")"@,
        ),
{
}

/// One more checked file is one more failure at the end where it fails, under its own
/// path, and changes nothing where it passes.
pub proof fn one_more_check_is_one_more_failure(
    files: Seq<EntryView>,
    checks: Seq<FileCheck>,
    entry: EntryView,
    check: FileCheck,
)
    requires
        files.len() == checks.len(),
    ensures
        failures_among(files.push(entry), checks.push(check)) == match failure_detail(
            entry,
            check,
        ) {
            Some(detail) => failures_among(files, checks).push(
                FailureView { path: entry.path, detail },
            ),
            None => failures_among(files, checks),
        },
        failures_among(Seq::empty(), Seq::empty()).len() == 0,
{
    reveal(Seq::filter_map);
    let f = |p: (EntryView, FileCheck)| failure_of(p);
    let all = files.push(entry).zip_with(checks.push(check));
    assert(all.drop_last() =~= files.zip_with(checks));
    assert(all.last() == (entry, check));
    let none: Seq<(EntryView, FileCheck)> = Seq::<EntryView>::empty().zip_with(
        Seq::<FileCheck>::empty(),
    );
    assert(none.len() == 0);
    assert(none.filter_map(f).len() == 0);
    if let Some(detail) = failure_detail(entry, check) {
        assert(all.filter_map(f) =~= files.zip_with(checks).filter_map(f).push(
            FailureView { path: entry.path, detail },
        ));
    }
}

/// The report counts the failures and the files, and has a line for each failure in
/// order, after those of the failures before it.
pub proof fn report_has_a_line_for_each_failure(
    failures: Seq<FailureView>,
    failure: FailureView,
    total: nat,
)
    ensures
        failure_report(failures, total) == decimal(failures.len()) + "/"@ + decimal(total)
            + " files failed verification:"@ + failure_lines(failures),
        failure_lines(failures.push(failure)) == failure_lines(failures) + "\n  - "@
            + failure.detail,
        failure_lines(Seq::empty()) == Seq::<char>::empty(),
{
    assert(failures.push(failure).drop_last() =~= failures);
}

/// Bytes are an index if and only if they are what a sender writes for some manifest
/// hash and some file hashes of 32 bytes; the file hashes read from it are those.
pub proof fn an_index_is_what_a_sender_writes(data: Seq<u8>)
    ensures
        is_index(data) <==> exists|manifest: Seq<u8>, files: Seq<Seq<u8>>|
            is_written_index(data, manifest, files),
        forall|manifest: Seq<u8>, files: Seq<Seq<u8>>| #[trigger]
            is_written_index(data, manifest, files) ==> index_hashes(data) == files,
        data.len() < 32 ==> index_error(data) is TooShort,
        data.len() >= 32 ==> index_error(data) is NotAligned,
{
    if is_index(data) {
        let files = index_hashes(data);
        let manifest = nth_hash(data, 0);
        assert forall|i: int| #![trigger files[i]] 0 <= i < files.len() implies files[i] == nth_hash(
            data,
            i + 1,
        ) && files[i].len() == 32 by {}
        encode_after_decode(data, files);
        assert(is_written_index(data, manifest, files));
    }
    assert forall|manifest: Seq<u8>, files: Seq<Seq<u8>>| #[trigger]
        is_written_index(data, manifest, files) implies is_index(data) && index_hashes(data)
        == files by {
        decode_after_encode(manifest, files);
        assert(index_hashes(data) =~= files);
    }
}

/// Whether bytes are what is written for the given hashes.
pub open spec fn is_written_index(data: Seq<u8>, manifest: Seq<u8>, files: Seq<Seq<u8>>) -> bool {
    &&& manifest.len() == 32
    &&& forall|i: int| 0 <= i < files.len() ==> (#[trigger] files[i]).len() == 32
    &&& index_bytes(manifest, files) == data
}

/// At least one stream is used, and otherwise just as many as were asked for.
pub proof fn some_stream_is_used(parallel: nat)
    ensures
        streams_for(parallel) >= 1,
        parallel >= 1 ==> streams_for(parallel) == parallel,
        streams_for(0) == 1,
{
}

/// Targets and failures stand in the laws for what they hold, one for one.
pub proof fn receiver_views_hold_it_all(
    targets: Seq<Target>,
    plan: DownloadPlan,
    failures: Seq<Failure>,
)
    ensures
        targets_view(targets).len() == targets.len(),
        forall|i: int|
            #![trigger targets[i]]
            0 <= i < targets.len() ==> {
                &&& targets_view(targets)[i].path == targets[i].path@
                &&& targets_view(targets)[i].hash == targets[i].hash@
            },
        plan@.targets == targets_view(plan.targets@),
        plan@.streams == plan.streams,
        plan@.notice == plan.notice@,
        failures_view(failures).len() == failures.len(),
        forall|i: int|
            #![trigger failures[i]]
            0 <= i < failures.len() ==> {
                &&& failures_view(failures)[i].path == failures[i].path@
                &&& failures_view(failures)[i].detail == failures[i].detail@
                &&& failed_paths(failures_view(failures))[i] == failures[i].path@
            },
{
}

/// A transfer that cannot be loaded, and a restriction that nothing meets, are told
/// with what is wrong.
pub proof fn loading_errors_are_told(
    e: LoadError,
    requested: nat,
    sample: Seq<Seq<char>>,
)
    ensures
        load_error_text(e) == (match e {
            LoadError::BadIndex(IndexError::TooShort) => "invalid hashseq: too short"@,
            LoadError::BadIndex(IndexError::NotAligned) => "invalid hashseq: not aligned"@,
            LoadError::ManifestMissing => "manifest blob not downloaded"@,
            LoadError::CountMismatch { files, hashes } => "manifest/file count mismatch: "@
                + decimal(files as nat) + " vs "@ + decimal(hashes as nat),
        }),
        none_matched_text(requested, sample) == "none of the "@ + decimal(requested)
            + " requested file(s) matched the manifest (manifest paths e.g.: "@ + debug_list_form(
            sample,
        ) + "); the retry list may be stale or malformed"@,
{
}

/// What is exported is what is downloaded, whatever the number of streams.
pub proof fn downloaded_files_are_exported(
    files: Seq<EntryView>,
    hashes: Seq<Seq<u8>>,
    only: Option<Set<Seq<char>>>,
    parallel: nat,
)
    ensures
        chosen(files, hashes, only) == download_plan(files, hashes, only, parallel).targets,
{
}

/// An entry without a hash, or a hash without an entry, has no target and takes away
/// none.
pub proof fn only_pairs_are_targets(
    files: Seq<EntryView>,
    hashes: Seq<Seq<u8>>,
    only: Option<Set<Seq<char>>>,
    entry: EntryView,
    hash: Seq<u8>,
)
    ensures
        files.len() >= hashes.len() ==> chosen(files.push(entry), hashes, only) == chosen(
            files,
            hashes,
            only,
        ),
        hashes.len() >= files.len() ==> chosen(files, hashes.push(hash), only) == chosen(
            files,
            hashes,
            only,
        ),
{
    if files.len() >= hashes.len() {
        assert(paired(files.push(entry), hashes) =~= paired(files, hashes));
    }
    if hashes.len() >= files.len() {
        assert(paired(files, hashes.push(hash)) =~= paired(files, hashes));
    }
}

/// Bytes are an index if and only if they are one or more whole hashes; every hash but
/// the first is that of a file, in place.
pub proof fn indexes_are_whole_hashes(data: Seq<u8>)
    ensures
        is_index(data) <==> data.len() > 0 && data.len() % 32 == 0,
        is_index(data) ==> index_hashes(data).len() + 1 == data.len() / 32,
        forall|i: int|
            0 <= i < data.len() / 32 - 1 ==> #[trigger] index_hashes(data)[i] == data.subrange(
                32 * (i + 1),
                32 * (i + 2),
            ),
{
    assert forall|i: int| 0 <= i < data.len() / 32 - 1 implies #[trigger] index_hashes(data)[i]
        == data.subrange(32 * (i + 1), 32 * (i + 2)) by {
        assert(index_hashes(data)[i] =~= data.subrange(32 * (i + 1), 32 * (i + 2)));
    }
}

} // verus!
