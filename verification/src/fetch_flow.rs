//! What is fetched of a transfer, and in which order: a single file at once, or else the
//! index, the manifest that it names, and then the files.
use vstd::prelude::*;

use crate::failed_list::{only_view, PathSet};
use crate::hash::{hashes_view, BlobHash};
use crate::hashseq::{decode_index, index_error_text, nth_hash};
use crate::manifest::{entries, prepared, EntryView, Manifest};
use crate::receive_flow::outcome_view;
use crate::receiver::{
    download_files, download_plan, download_streams, fetch_index_and_manifest, index_error,
    index_hashes, is_index, streams_for, DownloadPlan,
};
use crate::ticket::BlobFormat;

verus! {

/// Whether a transfer is a single file.
pub fn is_single(format: BlobFormat) -> (r: bool)
    ensures
        r == (format is Raw),
{
    match format {
        BlobFormat::Raw => true,
        BlobFormat::HashSeq => false,
    }
}

/// What is to be fetched next.
#[derive(Debug, PartialEq, Eq)]
pub enum FetchStep {
    /// The only file.
    Single,
    /// The index.
    Index,
    /// The manifest with this hash; `data` is the index.
    Manifest { hash: BlobHash, data: Vec<u8> },
    /// Files of this manifest, which have these hashes.
    Files { manifest: Manifest, hashes: Vec<BlobHash> },
    /// Nothing; the transfer has been fetched, or cannot be.
    Finished { outcome: Result<(), String> },
}

/// What a [`FetchStep`] says. A manifest stands by its entries; its root, which no step
/// reads, is left out.
pub enum FetchView {
    Single,
    Index,
    Manifest(Seq<u8>, Seq<u8>),
    Files(Seq<EntryView>, Seq<Seq<u8>>),
    Finished(Result<(), Seq<char>>),
}

impl View for FetchStep {
    type V = FetchView;

    open spec fn view(&self) -> FetchView {
        match *self {
            FetchStep::Single => FetchView::Single,
            FetchStep::Index => FetchView::Index,
            FetchStep::Manifest { hash, data } => FetchView::Manifest(hash@, data@),
            FetchStep::Files { manifest, hashes } => FetchView::Files(
                entries(manifest.files@),
                hashes_view(hashes@),
            ),
            FetchStep::Finished { outcome } => FetchView::Finished(outcome_view(outcome)),
        }
    }
}

/// How fetching went.
#[derive(Debug, PartialEq, Eq)]
pub enum FetchEvent {
    /// It is done.
    Done,
    /// It failed.
    Failed { error: String },
    /// The index is here.
    Index { data: Vec<u8> },
    /// The manifest is here.
    Manifest { manifest: Manifest },
}

/// What a [`FetchEvent`] says. A manifest stands by its entries.
pub enum FetchEventView {
    Done,
    Failed(Seq<char>),
    Index(Seq<u8>),
    Manifest(Seq<EntryView>),
}

impl View for FetchEvent {
    type V = FetchEventView;

    open spec fn view(&self) -> FetchEventView {
        match *self {
            FetchEvent::Done => FetchEventView::Done,
            FetchEvent::Failed { error } => FetchEventView::Failed(error@),
            FetchEvent::Index { data } => FetchEventView::Index(data@),
            FetchEvent::Manifest { manifest } => FetchEventView::Manifest(
                entries(manifest.files@),
            ),
        }
    }
}

/// What is fetched after `step`, given how it went. An event that does not answer the
/// step changes nothing.
pub open spec fn fetch_after(step: FetchView, event: FetchEventView, strip_root: bool) -> FetchView {
    match (step, event) {
        (FetchView::Finished(_), _) => step,
        (_, FetchEventView::Failed(e)) => FetchView::Finished(Err(e)),
        (FetchView::Single, FetchEventView::Done) => FetchView::Finished(Ok(())),
        (FetchView::Index, FetchEventView::Index(data)) => if is_index(data) {
            FetchView::Manifest(nth_hash(data, 0), data)
        } else {
            FetchView::Finished(Err(index_error_text(index_error(data))))
        },
        (FetchView::Manifest(_, data), FetchEventView::Manifest(files)) => if is_index(data) {
            FetchView::Files(prepared(files, strip_root), index_hashes(data))
        } else {
            FetchView::Finished(Err(index_error_text(index_error(data))))
        },
        (FetchView::Files(_, _), FetchEventView::Done) => FetchView::Finished(Ok(())),
        _ => step,
    }
}

/// What is fetched first.
pub fn first_fetch(format: BlobFormat) -> (r: FetchStep)
    ensures
        r@ == (match format {
            BlobFormat::Raw => FetchView::Single,
            BlobFormat::HashSeq => FetchView::Index,
        }),
{
    if is_single(format) {
        FetchStep::Single
    } else {
        FetchStep::Index
    }
}

/// What is fetched after `step`, given how it went.
pub fn next_fetch(step: FetchStep, event: FetchEvent, strip_root: bool) -> (r: FetchStep)
    ensures
        r@ == fetch_after(step@, event@, strip_root),
{
    match (step, event) {
        (FetchStep::Finished { outcome }, _) => FetchStep::Finished { outcome },
        (_, FetchEvent::Failed { error }) => FetchStep::Finished { outcome: Err(error) },
        (FetchStep::Single, FetchEvent::Done) => FetchStep::Finished { outcome: Ok(()) },
        (FetchStep::Index, FetchEvent::Index { data }) => match decode_index(data.as_slice()) {
            Ok(index) => FetchStep::Manifest { hash: index.manifest, data },
            Err(e) => FetchStep::Finished { outcome: Err(e.message()) },
        },
        (FetchStep::Manifest { hash: _, data }, FetchEvent::Manifest { manifest }) => {
            match fetch_index_and_manifest(data.as_slice(), manifest, strip_root) {
                Ok((manifest, hashes)) => FetchStep::Files { manifest, hashes },
                Err(e) => FetchStep::Finished { outcome: Err(e.message()) },
            }
        },
        (FetchStep::Files { .. }, FetchEvent::Done) => FetchStep::Finished { outcome: Ok(()) },
        (step, _) => step,
    }
}

/// Which files a download fetches once the manifest is here: all of them, or those in
/// `only`, over at least one stream.
pub fn plan_download(
    manifest: &Manifest,
    hashes: &Vec<BlobHash>,
    only: Option<&PathSet>,
    parallel: usize,
) -> (r: DownloadPlan)
    ensures
        r@ == download_plan(
            entries(manifest.files@),
            hashes_view(hashes@),
            only_view(only),
            streams_for(parallel as nat),
        ),
{
    download_files(manifest, hashes, only, download_streams(parallel))
}

/// What fetching an index and then its manifest gives is what loading the same transfer
/// gives, so that the paths that are downloaded are the paths that are exported and
/// verified: the manifest's own entries where the root is kept; with the root stripped,
/// an entry for each of them with the same hash. The hashes are those of the index, and
/// the manifest that is fetched is the one that the index names first.
pub proof fn fetched_files_are_the_loaded_ones(
    data: Seq<u8>,
    files: Seq<EntryView>,
    strip_root: bool,
)
    requires
        data.len() >= 32,
        data.len() % 32 == 0,
    ensures
        ({
            let index = fetch_after(FetchView::Index, FetchEventView::Index(data), strip_root);
            let got = fetch_after(index, FetchEventView::Manifest(files), strip_root);
            &&& index == FetchView::Manifest(data.subrange(0, 32), data)
            &&& got matches FetchView::Files(entries, hashes)
            &&& entries == prepared(files, strip_root)
            &&& !strip_root ==> entries == files
            &&& entries.len() == files.len()
            &&& forall|i: int|
                0 <= i < files.len() ==> (#[trigger] entries[i]).hash == files[i].hash
            &&& hashes == index_hashes(data)
            &&& hashes.len() == data.len() / 32 - 1
            &&& forall|i: int|
                0 <= i < hashes.len() ==> #[trigger] hashes[i] == data.subrange(
                    32 * (i + 1),
                    32 * (i + 2),
                )
        }),
{
    let hashes = index_hashes(data);
    assert(data.subrange(0, 32) =~= nth_hash(data, 0));
    assert forall|i: int| 0 <= i < hashes.len() implies #[trigger] hashes[i] == data.subrange(
        32 * (i + 1),
        32 * (i + 2),
    ) by {
        assert(hashes[i] =~= data.subrange(32 * (i + 1), 32 * (i + 2)));
    }
}

/// Bytes that are no index are refused before anything else is fetched, with what is
/// wrong with them.
pub proof fn malformed_index_ends_a_fetch(data: Seq<u8>, strip_root: bool)
    ensures
        fetch_after(FetchView::Index, FetchEventView::Index(data), strip_root) is Finished
            <==> data.len() < 32 || data.len() % 32 != 0,
        data.len() < 32 ==> fetch_after(FetchView::Index, FetchEventView::Index(data), strip_root)
            == FetchView::Finished(Err("invalid hashseq: too short"@)),
        data.len() >= 32 && data.len() % 32 != 0 ==> fetch_after(
            FetchView::Index,
            FetchEventView::Index(data),
            strip_root,
        ) == FetchView::Finished(Err("invalid hashseq: not aligned"@)),
{
}

/// A fetch ends well once its single file, or its files, are here and only then; it
/// fails with the error of what failed; and an event that does not answer the step
/// changes nothing.
pub proof fn fetch_ends_when_files_are_here(
    step: FetchView,
    event: FetchEventView,
    strip_root: bool,
)
    ensures
        fetch_after(step, event, strip_root) == FetchView::Finished(Ok(())) <==> step
            == FetchView::Finished(Ok(())) || ((step is Single || step is Files) && event is Done),
        step !is Finished ==> (event matches FetchEventView::Failed(e) ==> fetch_after(
            step,
            event,
            strip_root,
        ) == FetchView::Finished(Err(e))),
        step is Finished ==> fetch_after(step, event, strip_root) == step,
        event is Done && (step is Index || step is Manifest) ==> fetch_after(
            step,
            event,
            strip_root,
        ) == step,
        event is Index && step !is Index ==> fetch_after(step, event, strip_root) == step,
        event is Manifest && step !is Manifest ==> fetch_after(step, event, strip_root) == step,
{
}

/// What is fetched, and how that went, stand in the laws for what they hold.
pub proof fn fetch_views_hold_it_all(
    hash: BlobHash,
    data: Vec<u8>,
    manifest: Manifest,
    hashes: Vec<BlobHash>,
    error: String,
)
    ensures
        FetchStep::Single@ == FetchView::Single,
        FetchStep::Index@ == FetchView::Index,
        (FetchStep::Manifest { hash, data })@ == FetchView::Manifest(hash.bytes@, data@),
        (FetchStep::Files { manifest, hashes })@ == FetchView::Files(
            entries(manifest.files@),
            hashes_view(hashes@),
        ),
        (FetchStep::Finished { outcome: Ok(()) })@ == FetchView::Finished(Ok(())),
        (FetchStep::Finished { outcome: Err(error) })@ == FetchView::Finished(Err(error@)),
        FetchEvent::Done@ == FetchEventView::Done,
        (FetchEvent::Failed { error })@ == FetchEventView::Failed(error@),
        (FetchEvent::Index { data })@ == FetchEventView::Index(data@),
        (FetchEvent::Manifest { manifest })@ == FetchEventView::Manifest(entries(manifest.files@)),
{
}

} // verus!
