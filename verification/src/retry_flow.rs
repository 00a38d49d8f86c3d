//! Retry of a transfer for files that failed a previous verification: which step
//! comes next, given how the last one went.
//!
//! If a failed-file list exists, only the files it names are transferred again.
//! Otherwise the local files are checked against the sender's manifest, and every
//! file that is missing or mismatched is transferred again. In both cases only
//! the failing files are downloaded, exported and verified.
use vstd::prelude::*;

use crate::failed_list::{
    listed, lists_ascending, listing_text, parse_failed_list, retried_listing, wanted, PathSet,
};
use crate::hash::{hashes_view, BlobHash};
use crate::manifest::{entries, paths, EntryView, Manifest};
use crate::receive_flow::outcome_view;
use crate::receiver::{download_is_complete, is_wanted_entry};
use crate::receiver::{
    chosen, download_files, download_plan, download_streams, failed_paths, failed_set,
    failures_view, paired, streams_for, DownloadPlan, Failure, FailureView, PlanView, TargetView,
};
use crate::text::{decimal, decimal_of};

verus! {

/// The step that is to be done next.
#[derive(Debug, PartialEq, Eq)]
pub enum RetryStep {
    /// Download the only file.
    DownloadSingle,
    /// Export the only file.
    ExportSingle,
    /// Verify the only file.
    VerifySingle,
    /// Fetch the index and the manifest.
    FetchIndex,
    /// Read the failed-file list.
    ReadList { manifest: Manifest, hashes: Vec<BlobHash> },
    /// Check the local files against the manifest.
    CheckLocal { manifest: Manifest, hashes: Vec<BlobHash> },
    /// Download what `plan` says, which is what `files` selects.
    Download { plan: DownloadPlan, files: PathSet },
    /// Export `files`.
    Export { files: PathSet },
    /// Verify `files`.
    Verify { files: PathSet },
    /// Remove the stale failed-file list.
    RemoveList { files: PathSet },
    /// Nothing; the flow has ended.
    Finished { outcome: Result<(), String> },
}

/// What a [`RetryStep`] says. A manifest stands by its entries; its root, which no step
/// reads, is left out.
pub enum RetryView {
    DownloadSingle,
    ExportSingle,
    VerifySingle,
    FetchIndex,
    ReadList(Seq<EntryView>, Seq<Seq<u8>>),
    CheckLocal(Seq<EntryView>, Seq<Seq<u8>>),
    Download(PlanView, Set<Seq<char>>),
    Export(Set<Seq<char>>),
    Verify(Set<Seq<char>>),
    RemoveList(Set<Seq<char>>),
    Finished(Result<(), Seq<char>>),
}

impl View for RetryStep {
    type V = RetryView;

    open spec fn view(&self) -> RetryView {
        match *self {
            RetryStep::DownloadSingle => RetryView::DownloadSingle,
            RetryStep::ExportSingle => RetryView::ExportSingle,
            RetryStep::VerifySingle => RetryView::VerifySingle,
            RetryStep::FetchIndex => RetryView::FetchIndex,
            RetryStep::ReadList { manifest, hashes } => RetryView::ReadList(
                entries(manifest.files@),
                hashes_view(hashes@),
            ),
            RetryStep::CheckLocal { manifest, hashes } => RetryView::CheckLocal(
                entries(manifest.files@),
                hashes_view(hashes@),
            ),
            RetryStep::Download { plan, files } => RetryView::Download(plan@, files@),
            RetryStep::Export { files } => RetryView::Export(files@),
            RetryStep::Verify { files } => RetryView::Verify(files@),
            RetryStep::RemoveList { files } => RetryView::RemoveList(files@),
            RetryStep::Finished { outcome } => RetryView::Finished(outcome_view(outcome)),
        }
    }
}

/// How a step went.
#[derive(Debug, PartialEq, Eq)]
pub enum RetryEvent {
    /// It is done.
    Done,
    /// It failed.
    Failed { error: String },
    /// The index and the manifest are here.
    Fetched { manifest: Manifest, hashes: Vec<BlobHash> },
    /// The contents of the failed-file list, if there is one.
    List { content: Option<String> },
    /// The local files that are missing or do not match.
    Checked { failures: Vec<Failure> },
}

/// What a [`RetryEvent`] says. A manifest stands by its entries.
pub enum RetryEventView {
    Done,
    Failed(Seq<char>),
    Fetched(Seq<EntryView>, Seq<Seq<u8>>),
    List(Option<Seq<char>>),
    Checked(Seq<FailureView>),
}

impl View for RetryEvent {
    type V = RetryEventView;

    open spec fn view(&self) -> RetryEventView {
        match *self {
            RetryEvent::Done => RetryEventView::Done,
            RetryEvent::Failed { error } => RetryEventView::Failed(error@),
            RetryEvent::Fetched { manifest, hashes } => RetryEventView::Fetched(
                entries(manifest.files@),
                hashes_view(hashes@),
            ),
            RetryEvent::List { content } => RetryEventView::List(
                match content {
                    Some(c) => Some(c@),
                    None => None,
                },
            ),
            RetryEvent::Checked { failures } => RetryEventView::Checked(failures_view(failures@)),
        }
    }
}

/// The download of the files in `set`.
pub open spec fn download_of(
    files: Seq<EntryView>,
    hashes: Seq<Seq<u8>>,
    set: Set<Seq<char>>,
    parallel: nat,
) -> RetryView {
    RetryView::Download(download_plan(files, hashes, Some(set), parallel), set)
}

/// The step after `step`, given how it went. An event that does not answer the
/// step changes nothing.
pub open spec fn retry_after(
    list: Seq<char>,
    parallel: nat,
    step: RetryView,
    event: RetryEventView,
) -> RetryView {
    match (step, event) {
        (RetryView::Finished(_), _) => step,
        (RetryView::RemoveList(_), RetryEventView::Done) => RetryView::Finished(Ok(())),
        (RetryView::RemoveList(_), RetryEventView::Failed(_)) => RetryView::Finished(Ok(())),
        (_, RetryEventView::Failed(e)) => RetryView::Finished(Err(e)),
        (RetryView::DownloadSingle, RetryEventView::Done) => RetryView::ExportSingle,
        (RetryView::ExportSingle, RetryEventView::Done) => RetryView::VerifySingle,
        (RetryView::VerifySingle, RetryEventView::Done) => RetryView::Finished(Ok(())),
        (RetryView::FetchIndex, RetryEventView::Fetched(files, hashes)) => RetryView::ReadList(
            files,
            hashes,
        ),
        (RetryView::ReadList(files, hashes), RetryEventView::List(None)) => RetryView::CheckLocal(
            files,
            hashes,
        ),
        (RetryView::ReadList(files, hashes), RetryEventView::List(Some(content))) => if listed(
            content,
            paths(files),
        ) == Set::<Seq<char>>::empty() {
            RetryView::Finished(Err(list + " is empty"@))
        } else {
            download_of(files, hashes, listed(content, paths(files)), parallel)
        },
        (RetryView::CheckLocal(files, hashes), RetryEventView::Checked(failures)) => if failures.len()
            == 0 {
            RetryView::Finished(Ok(()))
        } else {
            download_of(files, hashes, failed_paths(failures).to_set(), parallel)
        },
        (RetryView::Download(_, set), RetryEventView::Done) => RetryView::Export(set),
        (RetryView::Export(set), RetryEventView::Done) => RetryView::Verify(set),
        (RetryView::Verify(set), RetryEventView::Done) => RetryView::RemoveList(set),
        _ => step,
    }
}

/// The line to print when `step` is left, if any. `output` and `list` name the
/// output file and the failed-file list.
pub open spec fn retry_notice(
    output: Seq<char>,
    list: Seq<char>,
    print_retried: bool,
    step: RetryView,
    event: RetryEventView,
) -> Option<Seq<char>> {
    match (step, event) {
        (RetryView::VerifySingle, RetryEventView::Done) => if print_retried {
            Some("Retrying file: "@ + output)
        } else {
            None
        },
        (RetryView::ReadList(_, _), RetryEventView::List(None)) => Some(
            "No failed-file list at "@ + list + "; checking local files against the sender..."@,
        ),
        (RetryView::ReadList(files, _), RetryEventView::List(Some(content))) => if listed(
            content,
            paths(files),
        ) == Set::<Seq<char>>::empty() {
            None
        } else {
            Some(
                "Retrying "@ + decimal(listed(content, paths(files)).len())
                    + " previously failed file(s) from "@ + list,
            )
        },
        (RetryView::CheckLocal(files, _), RetryEventView::Checked(failures)) => if failures.len()
            == 0 {
            Some(
                "All "@ + decimal(files.len())
                    + " local files already match the sender; nothing to retry."@,
            )
        } else {
            Some(
                decimal(failures.len()) + " of "@ + decimal(files.len())
                    + " local files differ; retrying only those."@,
            )
        },
        (RetryView::RemoveList(set), RetryEventView::Done) => Some(
            "All "@ + decimal(set.len()) + " retried files verified."@,
        ),
        (RetryView::RemoveList(set), RetryEventView::Failed(_)) => Some(
            "All "@ + decimal(set.len()) + " retried files verified."@,
        ),
        _ => None,
    }
}

/// What goes with the change from one step to the next.
#[derive(Debug, PartialEq, Eq)]
pub struct RetryNotes {
    /// A line to print.
    pub notice: Option<String>,
    /// The listing of the files that are retried, to print.
    pub listing: Option<String>,
}

/// A retry flow.
#[derive(Debug, PartialEq, Eq)]
pub struct RetryFlow {
    output: String,
    list: String,
    print_retried: bool,
    parallel: usize,
    step: RetryStep,
}

impl RetryFlow {
    /// The output path, for messages.
    pub closed spec fn output(self) -> Seq<char> {
        self.output@
    }

    /// Where the failed-file list is, for messages.
    pub closed spec fn list(self) -> Seq<char> {
        self.list@
    }

    /// Whether the files that are retried are listed.
    pub closed spec fn print_retried(self) -> bool {
        self.print_retried
    }

    /// How many streams a download uses.
    pub closed spec fn parallel(self) -> nat {
        self.parallel as nat
    }

    /// The step that is to be done next.
    pub closed spec fn at(self) -> RetryView {
        self.step@
    }

    /// A flow at its start. `single` says that the transfer is a single file. At least
    /// one stream is used.
    pub fn new(
        single: bool,
        output: String,
        list: String,
        parallel: usize,
        print_retried: bool,
    ) -> (r: RetryFlow)
        ensures
            r.output() == output@,
            r.list() == list@,
            r.print_retried() == print_retried,
            r.parallel() == streams_for(parallel as nat),
            r.at() == if single {
                RetryView::DownloadSingle
            } else {
                RetryView::FetchIndex
            },
    {
        let step = if single {
            RetryStep::DownloadSingle
        } else {
            RetryStep::FetchIndex
        };
        RetryFlow { output, list, print_retried, parallel: download_streams(parallel), step }
    }

    /// The step that is to be done next.
    pub fn step(&self) -> (r: &RetryStep)
        ensures
            r@ == self.at(),
    {
        &self.step
    }

    fn listing(print_retried: bool, files: &PathSet) -> (r: Option<String>)
        ensures
            r is Some <==> print_retried,
            r matches Some(text) ==> exists|order: Seq<Seq<char>>|
                lists_ascending(order, files@) && text@ == listing_text(order),
    {
        if print_retried {
            Some(retried_listing(files))
        } else {
            None
        }
    }

    /// The flow after its step was done, and what goes with the change.
    pub fn advance(self, event: RetryEvent) -> (r: (RetryFlow, RetryNotes))
        ensures
            r.0.output() == self.output(),
            r.0.list() == self.list(),
            r.0.print_retried() == self.print_retried(),
            r.0.parallel() == self.parallel(),
            r.0.at() == retry_after(self.list(), self.parallel(), self.at(), event@),
            match (
                r.1.notice,
                retry_notice(self.output(), self.list(), self.print_retried(), self.at(), event@),
            ) {
                (Some(n), Some(expected)) => n@ == expected,
                (None, None) => true,
                _ => false,
            },
            r.1.listing is Some <==> self.print_retried() && !(self.at() is Download)
                && r.0.at() is Download,
            r.1.listing matches Some(text) ==> exists|order: Seq<Seq<char>>|
                lists_ascending(order, r.0.at()->Download_1) && text@ == listing_text(order),
    {
        let ghost expected = retry_after(self.list(), self.parallel(), self.at(), event@);
        let RetryFlow { output, list, print_retried, parallel, step } = self;
        let mut notes = RetryNotes { notice: None, listing: None };
        let next = match (step, event) {
            (RetryStep::Finished { outcome }, _) => RetryStep::Finished { outcome },
            (RetryStep::RemoveList { files }, event) => match event {
                RetryEvent::Done | RetryEvent::Failed { .. } => {
                    let mut n: String = "All ".to_owned();
                    n.append(decimal_of(files.len() as u64).as_str());
                    n.append(" retried files verified.");
                    notes = RetryNotes { notice: Some(n), listing: None };
                    RetryStep::Finished { outcome: Ok(()) }
                },
                _ => RetryStep::RemoveList { files },
            },
            (_, RetryEvent::Failed { error }) => RetryStep::Finished { outcome: Err(error) },
            (RetryStep::DownloadSingle, RetryEvent::Done) => RetryStep::ExportSingle,
            (RetryStep::ExportSingle, RetryEvent::Done) => RetryStep::VerifySingle,
            (RetryStep::VerifySingle, RetryEvent::Done) => {
                if print_retried {
                    let mut n: String = "Retrying file: ".to_owned();
                    n.append(output.as_str());
                    notes = RetryNotes { notice: Some(n), listing: None };
                }
                RetryStep::Finished { outcome: Ok(()) }
            },
            (RetryStep::FetchIndex, RetryEvent::Fetched { manifest, hashes }) => {
                RetryStep::ReadList { manifest, hashes }
            },
            (RetryStep::ReadList { manifest, hashes }, RetryEvent::List { content }) => {
                match content {
                    None => {
                        let mut n: String = "No failed-file list at ".to_owned();
                        n.append(list.as_str());
                        n.append("; checking local files against the sender...");
                        notes = RetryNotes { notice: Some(n), listing: None };
                        RetryStep::CheckLocal { manifest, hashes }
                    },
                    Some(content) => {
                        let files = parse_failed_list(content.as_str(), &manifest.files);
                        if files.is_empty() {
                            let mut e: String = list.clone();
                            e.append(" is empty");
                            RetryStep::Finished { outcome: Err(e) }
                        } else {
                            let mut n: String = "Retrying ".to_owned();
                            n.append(decimal_of(files.len() as u64).as_str());
                            n.append(" previously failed file(s) from ");
                            n.append(list.as_str());
                            notes = RetryNotes {
                                notice: Some(n),
                                listing: Self::listing(print_retried, &files),
                            };
                            let plan = download_files(&manifest, &hashes, Some(&files), parallel);
                            RetryStep::Download { plan, files }
                        }
                    },
                }
            },
            (RetryStep::CheckLocal { manifest, hashes }, RetryEvent::Checked { failures }) => {
                assert(failures_view(failures@).len() == failures@.len());
                assert(entries(manifest.files@).len() == manifest.files@.len());
                let total: String = decimal_of(manifest.files.len() as u64);
                if failures.len() == 0 {
                    let mut n: String = "All ".to_owned();
                    n.append(total.as_str());
                    n.append(" local files already match the sender; nothing to retry.");
                    notes = RetryNotes { notice: Some(n), listing: None };
                    RetryStep::Finished { outcome: Ok(()) }
                } else {
                    let mut n: String = decimal_of(failures.len() as u64);
                    n.append(" of ");
                    n.append(total.as_str());
                    n.append(" local files differ; retrying only those.");
                    let files = failed_set(&failures);
                    notes = RetryNotes {
                        notice: Some(n),
                        listing: Self::listing(print_retried, &files),
                    };
                    let plan = download_files(&manifest, &hashes, Some(&files), parallel);
                    RetryStep::Download { plan, files }
                }
            },
            (RetryStep::Download { plan, files }, RetryEvent::Done) => RetryStep::Export { files },
            (RetryStep::Export { files }, RetryEvent::Done) => RetryStep::Verify { files },
            (RetryStep::Verify { files }, RetryEvent::Done) => RetryStep::RemoveList { files },
            (step, _) => step,
        };
        assert(next@ == expected);
        (RetryFlow { output, list, print_retried, parallel, step: next }, notes)
    }
}

/// Every file that `chosen` selects is wanted.
pub proof fn chosen_is_wanted(
    files: Seq<EntryView>,
    hashes: Seq<Seq<u8>>,
    only: Option<Set<Seq<char>>>,
)
    ensures
        forall|i: int|
            0 <= i < chosen(files, hashes, only).len() ==> wanted(
                only,
                (#[trigger] chosen(files, hashes, only)[i]).path,
            ),
{
    broadcast use vstd::seq_lib::group_filter_ensures;

    let pred = |t: TargetView| wanted(only, t.path);
    let all = paired(files, hashes);
    assert forall|i: int| 0 <= i < chosen(files, hashes, only).len() implies wanted(
        only,
        (#[trigger] chosen(files, hashes, only)[i]).path,
    ) by {
        assert(pred(all.filter(pred)[i]));
    }
}

/// A retry transfers failing files only: what it downloads is what the
/// failed-file list names or what was found to differ, and just that is then
/// exported, verified and taken off the list.
pub proof fn only_failing_files_are_retried(
    list: Seq<char>,
    parallel: nat,
    step: RetryView,
    event: RetryEventView,
)
    requires
        step !is Finished,
    ensures
        match retry_after(list, parallel, step, event) {
            RetryView::Download(plan, set) => {
                ||| step == RetryView::Download(plan, set)
                ||| {
                    &&& event matches RetryEventView::List(Some(content))
                    &&& step matches RetryView::ReadList(files, _)
                    &&& set == listed(content, paths(files))
                    &&& forall|i: int|
                        0 <= i < plan.targets.len() ==> set.contains(
                            (#[trigger] plan.targets[i]).path,
                        )
                }
                ||| {
                    &&& event matches RetryEventView::Checked(failures)
                    &&& set == failed_paths(failures).to_set()
                    &&& forall|i: int|
                        0 <= i < plan.targets.len() ==> set.contains(
                            (#[trigger] plan.targets[i]).path,
                        )
                }
            },
            RetryView::Export(set) => {
                ||| step == RetryView::Export(set)
                ||| (step matches RetryView::Download(_, before) && before == set)
            },
            RetryView::Verify(set) => step == RetryView::Verify(set) || step == RetryView::Export(
                set,
            ),
            RetryView::RemoveList(set) => step == RetryView::RemoveList(set) || step
                == RetryView::Verify(set),
            _ => true,
        },
{
    match (step, event) {
        (RetryView::ReadList(files, hashes), RetryEventView::List(Some(content))) => {
            chosen_is_wanted(files, hashes, Some(listed(content, paths(files))));
        },
        (RetryView::CheckLocal(files, hashes), RetryEventView::Checked(failures)) => {
            chosen_is_wanted(files, hashes, Some(failed_paths(failures).to_set()));
        },
        _ => {},
    }
}

/// A retry succeeds only once what it transferred was verified and the list was
/// cleaned up, or if nothing differed in the first place.
pub proof fn retry_success_means_verified(
    list: Seq<char>,
    parallel: nat,
    step: RetryView,
    event: RetryEventView,
)
    requires
        step !is Finished,
        retry_after(list, parallel, step, event) == RetryView::Finished(Ok(())),
    ensures
        ({
            ||| step is RemoveList
            ||| step is VerifySingle && event is Done
            ||| step is CheckLocal && event == RetryEventView::Checked(Seq::empty())
        }),
{
    if let RetryEventView::Checked(failures) = event {
        assert(failures.len() == 0 ==> failures =~= Seq::empty());
    }
}


/// Where a flow at `step` is after the given events.
pub open spec fn retry_run(
    list: Seq<char>,
    parallel: nat,
    step: RetryView,
    events: Seq<RetryEventView>,
) -> RetryView
    decreases events.len(),
{
    if events.len() == 0 {
        step
    } else {
        retry_after(
            list,
            parallel,
            retry_run(list, parallel, step, events.drop_last()),
            events.last(),
        )
    }
}

/// Where a flow that starts at `step` is after the first `n` of the given events.
pub open spec fn retry_at(
    list: Seq<char>,
    parallel: nat,
    step: RetryView,
    events: Seq<RetryEventView>,
    n: int,
) -> RetryView {
    retry_run(list, parallel, step, events.take(n))
}

proof fn retry_at_next(
    list: Seq<char>,
    parallel: nat,
    step: RetryView,
    events: Seq<RetryEventView>,
    n: int,
)
    requires
        0 <= n < events.len(),
    ensures
        retry_at(list, parallel, step, events, n + 1) == retry_after(
            list,
            parallel,
            retry_at(list, parallel, step, events, n),
            events[n],
        ),
{
    assert(events.take(n + 1).drop_last() =~= events.take(n));
    assert(events.take(n + 1).last() == events[n]);
}

/// Whether an event answers a step.
pub open spec fn answers(step: RetryView, event: RetryEventView) -> bool {
    match step {
        RetryView::Finished(_) => true,
        RetryView::FetchIndex => event is Failed || event is Fetched,
        RetryView::ReadList(_, _) => event is Failed || event is List,
        RetryView::CheckLocal(_, _) => event is Failed || event is Checked,
        _ => event is Failed || event is Done,
    }
}

/// How many answers a flow can still take.
spec fn answers_left(step: RetryView) -> int {
    match step {
        RetryView::FetchIndex => 7,
        RetryView::ReadList(_, _) => 6,
        RetryView::CheckLocal(_, _) => 5,
        RetryView::Download(_, _) => 4,
        RetryView::Export(_) => 3,
        RetryView::Verify(_) => 2,
        RetryView::RemoveList(_) => 1,
        RetryView::DownloadSingle => 3,
        RetryView::ExportSingle => 2,
        RetryView::VerifySingle => 1,
        RetryView::Finished(_) => 0,
    }
}

/// Every retry ends: from whichever step, once seven events have answered the steps
/// that they came after.
pub proof fn retry_always_ends(
    list: Seq<char>,
    parallel: nat,
    step: RetryView,
    events: Seq<RetryEventView>,
)
    requires
        events.len() >= 7,
        forall|n: int|
            0 <= n < events.len() ==> answers(
                retry_at(list, parallel, step, events, n),
                #[trigger] events[n],
            ),
    ensures
        retry_run(list, parallel, step, events) is Finished,
{
    answers_run_out(list, parallel, step, events, events.len() as int);
    assert(events.take(events.len() as int) =~= events);
}

proof fn answers_run_out(
    list: Seq<char>,
    parallel: nat,
    step: RetryView,
    events: Seq<RetryEventView>,
    n: int,
)
    requires
        0 <= n <= events.len(),
        forall|k: int|
            0 <= k < events.len() ==> answers(
                retry_at(list, parallel, step, events, k),
                #[trigger] events[k],
            ),
    ensures
        ({
            let at = retry_at(list, parallel, step, events, n);
            at is Finished || answers_left(at) <= 7 - n
        }),
    decreases n,
{
    if n == 0 {
        assert(events.take(0).len() == 0);
    } else {
        answers_run_out(list, parallel, step, events, n - 1);
        retry_at_next(list, parallel, step, events, n - 1);
        assert(answers(retry_at(list, parallel, step, events, n - 1), events[n - 1]));
    }
}

/// Whether a step, as it went, settles that just the files in `set` are transferred, by
/// `plan`: those that the failed-file list names, or else those that were found to
/// differ.
pub open spec fn settles(
    step: RetryView,
    event: RetryEventView,
    parallel: nat,
    plan: PlanView,
    set: Set<Seq<char>>,
) -> bool {
    match (step, event) {
        (RetryView::ReadList(files, hashes), RetryEventView::List(Some(content))) => {
            &&& set == listed(content, paths(files))
            &&& plan == download_plan(files, hashes, Some(set), parallel)
        },
        (RetryView::CheckLocal(files, hashes), RetryEventView::Checked(failures)) => {
            &&& set == failed_paths(failures).to_set()
            &&& plan == download_plan(files, hashes, Some(set), parallel)
        },
        _ => false,
    }
}

/// Whether, of the first `n` steps, the one at `s` settled the files in `set`, the one
/// at `d` downloaded them, and they came in that order.
pub open spec fn downloaded(
    list: Seq<char>,
    parallel: nat,
    events: Seq<RetryEventView>,
    n: int,
    plan: PlanView,
    set: Set<Seq<char>>,
    s: int,
    d: int,
) -> bool {
    let start = RetryView::FetchIndex;
    &&& 0 <= s < d < n
    &&& settles(retry_at(list, parallel, start, events, s), events[s], parallel, plan, set)
    &&& retry_at(list, parallel, start, events, d) == RetryView::Download(plan, set)
    &&& events[d] is Done
}

/// Whether, of the first `n` steps, the one at `x` exported the files in `set` and the
/// one at `v` verified them, in that order and after the step at `d`.
pub open spec fn exported_and_verified(
    list: Seq<char>,
    parallel: nat,
    events: Seq<RetryEventView>,
    n: int,
    set: Set<Seq<char>>,
    d: int,
    x: int,
    v: int,
) -> bool {
    let start = RetryView::FetchIndex;
    &&& d < x < v < n
    &&& retry_at(list, parallel, start, events, x) == RetryView::Export(set)
    &&& events[x] is Done
    &&& retry_at(list, parallel, start, events, v) == RetryView::Verify(set)
    &&& events[v] is Done
}

/// Whether a retry came to its end by transferring: one set of files was settled on,
/// downloaded, exported and verified, and then the list was removed.
pub open spec fn transferred(
    list: Seq<char>,
    parallel: nat,
    events: Seq<RetryEventView>,
    plan: PlanView,
    set: Set<Seq<char>>,
) -> bool {
    exists|s: int, d: int, x: int, v: int, m: int|
        {
            &&& #[trigger] downloaded(list, parallel, events, m, plan, set, s, d)
            &&& #[trigger] exported_and_verified(list, parallel, events, m, set, d, x, v)
            &&& m < events.len()
            &&& retry_at(list, parallel, RetryView::FetchIndex, events, m)
                == RetryView::RemoveList(set)
        }
}

/// Whether a retry came to its end because nothing differed.
pub open spec fn nothing_differed(
    list: Seq<char>,
    parallel: nat,
    events: Seq<RetryEventView>,
) -> bool {
    exists|c: int|
        {
            &&& 0 <= c < events.len()
            &&& #[trigger] retry_at(list, parallel, RetryView::FetchIndex, events, c) is CheckLocal
            &&& events[c] == RetryEventView::Checked(Seq::empty())
        }
}

/// A retry of a transfer of many files that succeeds either found nothing failing, or
/// downloaded, exported and verified one and the same set of files and then removed the
/// list.
pub proof fn successful_retry_is_complete(
    list: Seq<char>,
    parallel: nat,
    events: Seq<RetryEventView>,
)
    requires
        retry_run(list, parallel, RetryView::FetchIndex, events) == RetryView::Finished(Ok(())),
    ensures
        nothing_differed(list, parallel, events) || exists|plan: PlanView, set: Set<Seq<char>>|
            transferred(list, parallel, events, plan, set),
{
    assert(events.take(events.len() as int) =~= events);
    retry_history(list, parallel, events, events.len() as int);
}

/// What lies behind a flow at the step after the first `n` events.
spec fn history(list: Seq<char>, parallel: nat, events: Seq<RetryEventView>, n: int) -> bool {
    match retry_at(list, parallel, RetryView::FetchIndex, events, n) {
        RetryView::Download(plan, set) => was_settled(list, parallel, events, n, plan, set),
        RetryView::Export(set) => was_downloaded(list, parallel, events, n, set),
        RetryView::Verify(set) => was_exported(list, parallel, events, n, set),
        RetryView::RemoveList(set) => was_verified(list, parallel, events, n, set),
        RetryView::Finished(Ok(_)) => nothing_differed(list, parallel, events) || exists|
            plan: PlanView,
            set: Set<Seq<char>>,
        | transferred(list, parallel, events, plan, set),
        RetryView::DownloadSingle => false,
        RetryView::ExportSingle => false,
        RetryView::VerifySingle => false,
        _ => true,
    }
}

spec fn settled_at(
    list: Seq<char>,
    parallel: nat,
    events: Seq<RetryEventView>,
    n: int,
    plan: PlanView,
    set: Set<Seq<char>>,
    s: int,
) -> bool {
    &&& 0 <= s < n
    &&& settles(
        retry_at(list, parallel, RetryView::FetchIndex, events, s),
        events[s],
        parallel,
        plan,
        set,
    )
}

spec fn was_settled(
    list: Seq<char>,
    parallel: nat,
    events: Seq<RetryEventView>,
    n: int,
    plan: PlanView,
    set: Set<Seq<char>>,
) -> bool {
    exists|s: int| settled_at(list, parallel, events, n, plan, set, s)
}

spec fn was_downloaded(
    list: Seq<char>,
    parallel: nat,
    events: Seq<RetryEventView>,
    n: int,
    set: Set<Seq<char>>,
) -> bool {
    exists|plan: PlanView, s: int, d: int|
        downloaded(list, parallel, events, n, plan, set, s, d)
}

spec fn exported_at(
    list: Seq<char>,
    parallel: nat,
    events: Seq<RetryEventView>,
    n: int,
    set: Set<Seq<char>>,
    d: int,
    x: int,
) -> bool {
    &&& d < x < n
    &&& retry_at(list, parallel, RetryView::FetchIndex, events, x) == RetryView::Export(set)
    &&& events[x] is Done
}

spec fn was_exported(
    list: Seq<char>,
    parallel: nat,
    events: Seq<RetryEventView>,
    n: int,
    set: Set<Seq<char>>,
) -> bool {
    exists|plan: PlanView, s: int, d: int, x: int|
        #[trigger] downloaded(list, parallel, events, n, plan, set, s, d)
            && #[trigger] exported_at(list, parallel, events, n, set, d, x)
}

spec fn was_verified(
    list: Seq<char>,
    parallel: nat,
    events: Seq<RetryEventView>,
    n: int,
    set: Set<Seq<char>>,
) -> bool {
    exists|plan: PlanView, s: int, d: int, x: int, v: int|
        #[trigger] downloaded(list, parallel, events, n, plan, set, s, d)
            && #[trigger] exported_and_verified(list, parallel, events, n, set, d, x, v)
}

proof fn retry_history(list: Seq<char>, parallel: nat, events: Seq<RetryEventView>, n: int)
    requires
        0 <= n <= events.len(),
    ensures
        history(list, parallel, events, n),
    decreases n,
{
    if n == 0 {
        assert(events.take(0).len() == 0);
    } else {
        let start = RetryView::FetchIndex;
        let m = n - 1;
        retry_history(list, parallel, events, m);
        retry_at_next(list, parallel, start, events, m);
        let event = events[m];
        let next = retry_at(list, parallel, start, events, n);
        match retry_at(list, parallel, start, events, m) {
            RetryView::ReadList(_, _) => {
                if let RetryView::Download(plan, set) = next {
                    assert(settled_at(list, parallel, events, n, plan, set, m));
                }
            },
            RetryView::CheckLocal(_, _) => {
                if let RetryView::Download(plan, set) = next {
                    assert(settled_at(list, parallel, events, n, plan, set, m));
                }
                if let RetryEventView::Checked(failures) = event {
                    if failures.len() == 0 {
                        assert(failures =~= Seq::empty());
                    }
                }
            },
            RetryView::Download(plan, set) => {
                let s = choose|s: int| settled_at(list, parallel, events, m, plan, set, s);
                assert(settled_at(list, parallel, events, n, plan, set, s));
                if event is Done {
                    assert(downloaded(list, parallel, events, n, plan, set, s, m));
                }
            },
            RetryView::Export(set) => {
                let (plan, s, d) = choose|plan: PlanView, s: int, d: int|
                    downloaded(list, parallel, events, m, plan, set, s, d);
                assert(downloaded(list, parallel, events, n, plan, set, s, d));
                if event is Done {
                    assert(exported_at(list, parallel, events, n, set, d, m));
                }
            },
            RetryView::Verify(set) => {
                let (plan, s, d, x) = choose|plan: PlanView, s: int, d: int, x: int|
                    #[trigger] downloaded(list, parallel, events, m, plan, set, s, d)
                        && #[trigger] exported_at(list, parallel, events, m, set, d, x);
                assert(downloaded(list, parallel, events, n, plan, set, s, d));
                assert(exported_at(list, parallel, events, n, set, d, x));
                if event is Done {
                    assert(exported_and_verified(list, parallel, events, n, set, d, x, m));
                }
            },
            RetryView::RemoveList(set) => {
                let (plan, s, d, x, v) = choose|plan: PlanView, s: int, d: int, x: int, v: int|
                    #[trigger] downloaded(list, parallel, events, m, plan, set, s, d)
                        && #[trigger] exported_and_verified(list, parallel, events, m, set, d, x, v);
                assert(downloaded(list, parallel, events, n, plan, set, s, d));
                assert(exported_and_verified(list, parallel, events, n, set, d, x, v));
                if next is Finished {
                    assert(transferred(list, parallel, events, plan, set));
                }
            },
            _ => {},
        }
    }
}

/// A retry of many files goes on with what it fetched: the list is looked for, and where
/// there is none, all local files are checked, against the same entries and hashes.
pub proof fn retry_looks_for_the_list(
    list: Seq<char>,
    parallel: nat,
    files: Seq<EntryView>,
    hashes: Seq<Seq<u8>>,
)
    ensures
        retry_after(
            list,
            parallel,
            RetryView::FetchIndex,
            RetryEventView::Fetched(files, hashes),
        ) == RetryView::ReadList(files, hashes),
        retry_after(
            list,
            parallel,
            RetryView::ReadList(files, hashes),
            RetryEventView::List(None),
        ) == RetryView::CheckLocal(files, hashes),
{
}

/// A list that names files has just those transferred, every one of them that the
/// manifest has; a list that names none is an error.
pub proof fn listed_files_are_retried(
    list: Seq<char>,
    parallel: nat,
    files: Seq<EntryView>,
    hashes: Seq<Seq<u8>>,
    content: Seq<char>,
    t: TargetView,
)
    ensures
        ({
            let named = listed(content, paths(files));
            let next = retry_after(
                list,
                parallel,
                RetryView::ReadList(files, hashes),
                RetryEventView::List(Some(content)),
            );
            if named =~= Set::empty() {
                next == RetryView::Finished(Err(list + " is empty"@))
            } else {
                &&& next matches RetryView::Download(plan, set)
                &&& set == named
                &&& plan.streams == parallel
                &&& plan.targets.contains(t) <==> exists|i: int|
                    is_wanted_entry(files, hashes, Some(named), t, i)
            }
        }),
{
    download_is_complete(files, hashes, Some(listed(content, paths(files))), parallel, t);
}

/// Whether a failure is of `path`.
pub open spec fn fails(failures: Seq<FailureView>, path: Seq<char>) -> bool {
    exists|k: int| 0 <= k < failures.len() && (#[trigger] failures[k]).path == path
}

/// Without a list, just the files that were found to differ are transferred, every one
/// of them; where none differs there is nothing to do.
pub proof fn differing_files_are_retried(
    list: Seq<char>,
    parallel: nat,
    files: Seq<EntryView>,
    hashes: Seq<Seq<u8>>,
    failures: Seq<FailureView>,
    t: TargetView,
)
    ensures
        failures.len() == 0 ==> retry_after(
            list,
            parallel,
            RetryView::CheckLocal(files, hashes),
            RetryEventView::Checked(failures),
        ) == RetryView::Finished(Ok(())),
        failures.len() > 0 ==> (retry_after(
            list,
            parallel,
            RetryView::CheckLocal(files, hashes),
            RetryEventView::Checked(failures),
        ) matches RetryView::Download(plan, set) && plan.streams == parallel && (forall|
            path: Seq<char>,
        | #[trigger]
            set.contains(path) <==> fails(failures, path))),
        failures.len() > 0 ==> (retry_after(
            list,
            parallel,
            RetryView::CheckLocal(files, hashes),
            RetryEventView::Checked(failures),
        ) matches RetryView::Download(plan, set) && (plan.targets.contains(t) <==> exists|i: int|
            is_wanted_entry(files, hashes, Some(set), t, i))),
{
    let set = failed_paths(failures).to_set();
    download_is_complete(files, hashes, Some(set), parallel, t);
    if failures.len() > 0 {
        let next = retry_after(
            list,
            parallel,
            RetryView::CheckLocal(files, hashes),
            RetryEventView::Checked(failures),
        );
        assert(next == download_of(files, hashes, set, parallel));
        assert(next->Download_1 == set);
    }
    assert forall|path: Seq<char>| #[trigger] set.contains(path) <==> fails(failures, path) by {
        if set.contains(path) {
            let k = choose|k: int|
                0 <= k < failed_paths(failures).len() && failed_paths(failures)[k] == path;
            assert(failures[k].path == path);
        }
        if fails(failures, path) {
            let k = choose|k: int| 0 <= k < failures.len() && (#[trigger] failures[k]).path == path;
            assert(failed_paths(failures)[k] == path);
        }
    }
}

/// Where nothing goes wrong, what was downloaded is exported, verified and taken off the
/// list, and the retry succeeds, even where the list cannot be removed; a single file is
/// downloaded, exported and verified.
pub proof fn smooth_retry_succeeds(
    list: Seq<char>,
    parallel: nat,
    plan: PlanView,
    set: Set<Seq<char>>,
    error: Seq<char>,
)
    ensures
        ({
            let done = RetryEventView::Done;
            let removing = RetryView::RemoveList(set);
            &&& retry_after(list, parallel, RetryView::Download(plan, set), done)
                == RetryView::Export(set)
            &&& retry_after(list, parallel, RetryView::Export(set), done) == RetryView::Verify(set)
            &&& retry_after(list, parallel, RetryView::Verify(set), done) == removing
            &&& retry_after(list, parallel, removing, done) == RetryView::Finished(Ok(()))
            &&& retry_after(list, parallel, removing, RetryEventView::Failed(error))
                == RetryView::Finished(Ok(()))
            &&& retry_after(list, parallel, RetryView::DownloadSingle, done)
                == RetryView::ExportSingle
            &&& retry_after(list, parallel, RetryView::ExportSingle, done)
                == RetryView::VerifySingle
            &&& retry_after(list, parallel, RetryView::VerifySingle, done) == RetryView::Finished(
                Ok(()),
            )
        }),
{
}

/// What fails ends a retry with its error, but for the removal of the list; what has
/// ended stays as it is, and an event that does not answer a step changes nothing.
pub proof fn failure_ends_a_retry(
    list: Seq<char>,
    parallel: nat,
    step: RetryView,
    event: RetryEventView,
)
    ensures
        step !is Finished && step !is RemoveList ==> (event matches RetryEventView::Failed(e)
            ==> retry_after(list, parallel, step, event) == RetryView::Finished(Err(e))),
        step is Finished ==> retry_after(list, parallel, step, event) == step,
        !answers(step, event) ==> retry_after(list, parallel, step, event) == step,
        answers(step, event) && step !is Finished ==> retry_after(list, parallel, step, event)
            != step,
{
    assert(answers_left(retry_after(list, parallel, step, event)) < answers_left(step) || !answers(
        step,
        event,
    ) || step is Finished);
}

/// What is printed during a retry says what is done and why.
pub proof fn retry_notices_say_what_is_done(
    output: Seq<char>,
    list: Seq<char>,
    print_retried: bool,
    files: Seq<EntryView>,
    hashes: Seq<Seq<u8>>,
    content: Seq<char>,
    failures: Seq<FailureView>,
    set: Set<Seq<char>>,
)
    ensures
        ({
            let read = RetryView::ReadList(files, hashes);
            let check = RetryView::CheckLocal(files, hashes);
            let named = listed(content, paths(files));
            &&& retry_notice(output, list, print_retried, read, RetryEventView::List(None)) == Some(
                "No failed-file list at "@ + list
                    + "; checking local files against the sender..."@,
            )
            &&& retry_notice(
                output,
                list,
                print_retried,
                read,
                RetryEventView::List(Some(content)),
            ) == if named =~= Set::empty() {
                None
            } else {
                Some(
                    "Retrying "@ + decimal(named.len()) + " previously failed file(s) from "@
                        + list,
                )
            }
            &&& retry_notice(
                output,
                list,
                print_retried,
                check,
                RetryEventView::Checked(failures),
            ) == Some(
                if failures.len() == 0 {
                    "All "@ + decimal(files.len())
                        + " local files already match the sender; nothing to retry."@
                } else {
                    decimal(failures.len()) + " of "@ + decimal(files.len())
                        + " local files differ; retrying only those."@
                },
            )
            &&& retry_notice(
                output,
                list,
                print_retried,
                RetryView::RemoveList(set),
                RetryEventView::Done,
            ) == Some("All "@ + decimal(set.len()) + " retried files verified."@)
            &&& retry_notice(
                output,
                list,
                print_retried,
                RetryView::VerifySingle,
                RetryEventView::Done,
            ) == if print_retried {
                Some("Retrying file: "@ + output)
            } else {
                None
            }
        }),
{
}

/// Steps and events stand in the laws for what they hold.
pub proof fn retry_views_hold_it_all(
    manifest: Manifest,
    hashes: Vec<BlobHash>,
    plan: DownloadPlan,
    files: PathSet,
    content: String,
    failures: Vec<Failure>,
)
    ensures
        (RetryStep::ReadList { manifest, hashes })@ == RetryView::ReadList(
            entries(manifest.files@),
            hashes_view(hashes@),
        ),
        (RetryStep::CheckLocal { manifest, hashes })@ == RetryView::CheckLocal(
            entries(manifest.files@),
            hashes_view(hashes@),
        ),
        (RetryStep::Download { plan, files })@ == RetryView::Download(plan@, files@),
        (RetryStep::Export { files })@ == RetryView::Export(files@),
        (RetryStep::Verify { files })@ == RetryView::Verify(files@),
        (RetryStep::RemoveList { files })@ == RetryView::RemoveList(files@),
        (RetryEvent::Fetched { manifest, hashes })@ == RetryEventView::Fetched(
            entries(manifest.files@),
            hashes_view(hashes@),
        ),
        (RetryEvent::List { content: Some(content) })@ == RetryEventView::List(Some(content@)),
        (RetryEvent::List { content: None })@ == RetryEventView::List(None),
        (RetryEvent::Checked { failures })@ == RetryEventView::Checked(failures_view(failures@)),
        hashes_view(hashes@).len() == hashes@.len(),
        forall|i: int|
            0 <= i < hashes@.len() ==> hashes_view(hashes@)[i] == (#[trigger] hashes@[i]).bytes@,
{
}

/// Nothing else is printed: a line goes only with a list that was looked for, with a
/// check of local files, with the removal of the list, and with a single file that was
/// verified.
pub proof fn retry_is_otherwise_silent(
    output: Seq<char>,
    list: Seq<char>,
    print_retried: bool,
    step: RetryView,
    event: RetryEventView,
)
    ensures
        retry_notice(output, list, print_retried, step, event) is Some ==> (step is ReadList
            && event is List) || (step is CheckLocal && event is Checked) || (step is RemoveList
            && (event is Done || event is Failed)) || (step is VerifySingle && event is Done),
        step is RemoveList && event is Failed ==> retry_notice(
            output,
            list,
            print_retried,
            step,
            event,
        ) == retry_notice(output, list, print_retried, step, RetryEventView::Done),
{
}

/// Steps and events without a file list stand in the laws for what they hold.
pub proof fn plain_retry_views_hold_it_all(error: String)
    ensures
        RetryStep::DownloadSingle@ == RetryView::DownloadSingle,
        RetryStep::ExportSingle@ == RetryView::ExportSingle,
        RetryStep::VerifySingle@ == RetryView::VerifySingle,
        RetryStep::FetchIndex@ == RetryView::FetchIndex,
        (RetryStep::Finished { outcome: Ok(()) })@ == RetryView::Finished(Ok(())),
        (RetryStep::Finished { outcome: Err(error) })@ == RetryView::Finished(Err(error@)),
        RetryEvent::Done@ == RetryEventView::Done,
        (RetryEvent::Failed { error })@ == RetryEventView::Failed(error@),
{
}

/// An event answers a step if it says how that step went: a failure always does, and
/// otherwise what the step was to give.
pub proof fn events_answer_their_steps(step: RetryView, event: RetryEventView)
    ensures
        event is Failed ==> answers(step, event),
        event is Fetched && step !is Finished ==> (answers(step, event) <==> step is FetchIndex),
        event is List && step !is Finished ==> (answers(step, event) <==> step is ReadList),
        event is Checked && step !is Finished ==> (answers(step, event) <==> step is CheckLocal),
        event is Done && step !is Finished ==> (answers(step, event) <==> step !is FetchIndex
            && step !is ReadList && step !is CheckLocal),
{
}

} // verus!
