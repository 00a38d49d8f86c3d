//! The full receive flow with automatic retry of files that fail verification:
//! which step comes next, given how the last one went.
//!
//! Everything is downloaded, exported and verified; on verification failure the
//! failing files are downloaded and exported again (only those), up to
//! `max_retries` additional times.
use vstd::prelude::*;

use crate::failed_list::{lists_ascending, listing_text, retried_listing, wanted, PathSet};
use crate::receiver::VerifyFailure;
use crate::text::{decimal, decimal_of};

verus! {

/// How often the initial download is tried.
pub const DOWNLOAD_ATTEMPTS: usize = 3;

/// The step that is to be done next.
#[derive(Debug, PartialEq, Eq)]
pub enum ReceiveStep {
    /// Download everything.
    Download { attempt: usize },
    /// Export everything.
    Export,
    /// Verify the files in `only`, or everything.
    Verify { attempt: usize, only: Option<PathSet> },
    /// Look for the failed-file list, after a verification of the files in `only`, or of
    /// everything, that came to no result but `error`.
    ReadList { attempt: usize, only: Option<PathSet>, error: String },
    /// Download `files` again.
    DownloadAgain { attempt: usize, files: PathSet },
    /// Export `files` again.
    ExportAgain { attempt: usize, files: PathSet },
    /// Nothing; the flow has ended.
    Finished { outcome: Result<(), String> },
}

/// What a [`ReceiveStep`] says.
pub enum StepView {
    Download(nat),
    Export,
    Verify(nat, Option<Set<Seq<char>>>),
    ReadList(nat, Option<Set<Seq<char>>>, Seq<char>),
    DownloadAgain(nat, Set<Seq<char>>),
    ExportAgain(nat, Set<Seq<char>>),
    Finished(Result<(), Seq<char>>),
}

/// How a step went.
#[derive(Debug, PartialEq, Eq)]
pub enum ReceiveEvent {
    /// It is done; after a verification this says that every file passed.
    Done,
    /// It failed.
    Failed { error: String },
    /// Files were verified, and those in `failed` do not match.
    Mismatched { failed: PathSet, error: String },
}

/// What a [`ReceiveEvent`] says.
pub enum EventView {
    Done,
    Failed(Seq<char>),
    Mismatched(Set<Seq<char>>, Seq<char>),
}

impl View for ReceiveEvent {
    type V = EventView;

    open spec fn view(&self) -> EventView {
        match *self {
            ReceiveEvent::Done => EventView::Done,
            ReceiveEvent::Failed { error } => EventView::Failed(error@),
            ReceiveEvent::Mismatched { failed, error } => EventView::Mismatched(failed@, error@),
        }
    }
}

/// The error of a step that was not done.
pub open spec fn error_of(event: EventView) -> Seq<char> {
    match event {
        EventView::Done => Seq::empty(),
        EventView::Failed(e) => e,
        EventView::Mismatched(_, e) => e,
    }
}

/// How a flow ended.
pub open spec fn outcome_view(outcome: Result<(), String>) -> Result<(), Seq<char>> {
    match outcome {
        Ok(_) => Ok(()),
        Err(e) => Err(e@),
    }
}

/// A set that may be absent.
pub open spec fn optional_set(set: Option<PathSet>) -> Option<Set<Seq<char>>> {
    match set {
        Some(set) => Some(set@),
        None => None,
    }
}

/// The error when the failed-file list cannot be read.
pub open spec fn unread_list_text(list: Seq<char>, cause: Seq<char>) -> Seq<char> {
    "verification failed but "@ + list + " could not be read: "@ + cause
}

impl View for ReceiveStep {
    type V = StepView;

    open spec fn view(&self) -> StepView {
        match *self {
            ReceiveStep::Download { attempt } => StepView::Download(attempt as nat),
            ReceiveStep::Export => StepView::Export,
            ReceiveStep::Verify { attempt, only } => StepView::Verify(
                attempt as nat,
                optional_set(only),
            ),
            ReceiveStep::ReadList { attempt, only, error } => StepView::ReadList(
                attempt as nat,
                optional_set(only),
                error@,
            ),
            ReceiveStep::DownloadAgain { attempt, files } => StepView::DownloadAgain(
                attempt as nat,
                files@,
            ),
            ReceiveStep::ExportAgain { attempt, files } => StepView::ExportAgain(
                attempt as nat,
                files@,
            ),
            ReceiveStep::Finished { outcome } => StepView::Finished(outcome_view(outcome)),
        }
    }
}

/// The step after `step`, given how it went. `list` names the failed-file list.
///
/// A verification that comes to no result is repeated for the files that failed the one
/// before, whose list is then on disk. Where no verification has failed yet, a list on
/// disk is of another run and says nothing of this one.
pub open spec fn step_after(
    max_retries: nat,
    list: Seq<char>,
    step: StepView,
    event: EventView,
) -> StepView {
    match (step, event) {
        (StepView::Finished(_), _) => step,
        (StepView::Download(_), EventView::Done) => StepView::Export,
        (StepView::Download(attempt), _) => if attempt + 1 < 3 {
            StepView::Download(attempt + 1)
        } else {
            StepView::Finished(Err(error_of(event)))
        },
        (StepView::Export, EventView::Done) => StepView::Verify(0, None),
        (StepView::Verify(_, _), EventView::Done) => StepView::Finished(Ok(())),
        (StepView::Verify(attempt, _), EventView::Mismatched(failed, e)) => if attempt
            == max_retries {
            StepView::Finished(Err(e))
        } else {
            StepView::DownloadAgain(attempt, failed)
        },
        (StepView::Verify(attempt, only), EventView::Failed(e)) => if attempt == max_retries {
            StepView::Finished(Err(e))
        } else {
            StepView::ReadList(attempt, only, e)
        },
        (StepView::ReadList(attempt, only, e), EventView::Done) => match only {
            Some(files) => StepView::DownloadAgain(attempt, files),
            None => StepView::Finished(Err(e)),
        },
        (StepView::ReadList(_, _, _), _) => StepView::Finished(
            Err(unread_list_text(list, error_of(event))),
        ),
        (StepView::DownloadAgain(attempt, files), EventView::Done) => StepView::ExportAgain(
            attempt,
            files,
        ),
        (StepView::ExportAgain(attempt, files), EventView::Done) => StepView::Verify(
            attempt + 1,
            Some(files),
        ),
        (_, _) => StepView::Finished(Err(error_of(event))),
    }
}

/// The files to transfer again when `step` is left, if it is left for that.
pub open spec fn retried_after(max_retries: nat, step: StepView, event: EventView) -> Option<
    Set<Seq<char>>,
> {
    match (step, event) {
        (StepView::Verify(attempt, _), EventView::Mismatched(failed, _)) => if attempt
            == max_retries {
            None
        } else {
            Some(failed)
        },
        (StepView::ReadList(_, only, _), EventView::Done) => only,
        _ => None,
    }
}

/// The attempt that a step belongs to.
pub open spec fn attempt_of(step: StepView) -> nat {
    match step {
        StepView::Download(attempt) => attempt,
        StepView::Verify(attempt, _) => attempt,
        StepView::ReadList(attempt, _, _) => attempt,
        StepView::DownloadAgain(attempt, _) => attempt,
        StepView::ExportAgain(attempt, _) => attempt,
        _ => 0,
    }
}

/// The warning that goes with leaving `step`, if any.
pub open spec fn warning_after(max_retries: nat, step: StepView, event: EventView) -> Option<
    Seq<char>,
> {
    match (step, event) {
        (StepView::Download(_), EventView::Done) => None,
        (StepView::Download(attempt), _) => if attempt + 1 < 3 {
            Some(
                "download attempt "@ + decimal(attempt + 1) + "/3 failed: "@ + error_of(event)
                    + "; retrying..."@,
            )
        } else {
            None
        },
        _ => match retried_after(max_retries, step, event) {
            Some(files) => Some(
                "verification failed for "@ + decimal(files.len())
                    + " file(s); retrying (attempt "@ + decimal(attempt_of(step) + 1) + "/"@
                    + decimal(max_retries) + ")"@,
            ),
            None => None,
        },
    }
}

/// Whether to wait a second before the next step: only between two attempts of
/// the initial download.
pub open spec fn pause_after(step: StepView, event: EventView) -> bool {
    match step {
        StepView::Download(attempt) => !(event is Done) && attempt + 1 < 3,
        _ => false,
    }
}

/// The steps that a flow can be at.
pub open spec fn step_in_range(max_retries: nat, step: StepView) -> bool {
    match step {
        StepView::Download(attempt) => attempt < 3,
        StepView::Export => true,
        StepView::Verify(attempt, _) => attempt <= max_retries,
        StepView::ReadList(attempt, _, _) => attempt < max_retries,
        StepView::DownloadAgain(attempt, _) => attempt < max_retries,
        StepView::ExportAgain(attempt, _) => attempt < max_retries,
        StepView::Finished(_) => true,
    }
}

/// What goes with the change from one step to the next.
#[derive(Debug, PartialEq, Eq)]
pub struct Notes {
    /// A warning to print.
    pub warning: Option<String>,
    /// The listing of the files that are retried, to print.
    pub listing: Option<String>,
    /// Whether to wait a second before the next step.
    pub pause: bool,
}

/// A receive flow.
#[derive(Debug, PartialEq, Eq)]
pub struct ReceiveFlow {
    max_retries: usize,
    print_retried: bool,
    list: String,
    step: ReceiveStep,
}

fn error_text(event: ReceiveEvent) -> (r: String)
    ensures
        r@ == error_of(event@),
{
    match event {
        ReceiveEvent::Done => String::new(),
        ReceiveEvent::Failed { error } => error,
        ReceiveEvent::Mismatched { failed: _, error } => error,
    }
}

fn download_warning(attempt: usize, error: &str) -> (r: String)
    requires
        attempt < 3,
    ensures
        r@ == "download attempt "@ + decimal((attempt + 1) as nat) + "/3 failed: "@ + error@
            + "; retrying..."@,
{
    let mut w: String = "download attempt ".to_owned();
    w.append(decimal_of((attempt + 1) as u64).as_str());
    w.append("/3 failed: ");
    w.append(error);
    w.append("; retrying...");
    w
}

fn retry_warning(failed: &PathSet, attempt: usize, max_retries: usize) -> (r: String)
    requires
        attempt < max_retries,
    ensures
        r@ == "verification failed for "@ + decimal(failed@.len())
            + " file(s); retrying (attempt "@ + decimal((attempt + 1) as nat) + "/"@ + decimal(
            max_retries as nat,
        ) + ")"@,
{
    let mut w: String = "verification failed for ".to_owned();
    w.append(decimal_of(failed.len() as u64).as_str());
    w.append(" file(s); retrying (attempt ");
    w.append(decimal_of((attempt + 1) as u64).as_str());
    w.append("/");
    w.append(decimal_of(max_retries as u64).as_str());
    w.append(")");
    w
}

fn retry_notes(
    files: &PathSet,
    attempt: usize,
    max_retries: usize,
    print_retried: bool,
) -> (r: Notes)
    requires
        attempt < max_retries,
    ensures
        r.warning matches Some(w) && w@ == "verification failed for "@ + decimal(files@.len())
            + " file(s); retrying (attempt "@ + decimal((attempt + 1) as nat) + "/"@ + decimal(
            max_retries as nat,
        ) + ")"@,
        r.listing is Some <==> print_retried,
        r.listing matches Some(text) ==> exists|order: Seq<Seq<char>>|
            lists_ascending(order, files@) && text@ == listing_text(order),
        !r.pause,
{
    let listing: Option<String> = if print_retried {
        Some(retried_listing(files))
    } else {
        None
    };
    Notes { warning: Some(retry_warning(files, attempt, max_retries)), listing, pause: false }
}

/// How a verification of selected files went, for the flow.
pub fn verify_event(outcome: Result<String, VerifyFailure>) -> (r: ReceiveEvent)
    ensures
        r@ == (match outcome {
            Ok(_) => EventView::Done,
            Err(e) => EventView::Mismatched(e.failed@, e.message@),
        }),
{
    match outcome {
        Ok(_) => ReceiveEvent::Done,
        Err(e) => ReceiveEvent::Mismatched { failed: e.failed, error: e.message },
    }
}

/// How a verification of a single file went, for the flow: where the hashes differ, it
/// is that one file that failed, and that is fetched again.
pub fn verify_single_event(outcome: Result<String, String>, file: String) -> (r: ReceiveEvent)
    ensures
        r@ == (match outcome {
            Ok(_) => EventView::Done,
            Err(e) => EventView::Mismatched(Set::<Seq<char>>::empty().insert(file@), e@),
        }),
{
    match outcome {
        Ok(_) => ReceiveEvent::Done,
        Err(error) => ReceiveEvent::Mismatched { failed: PathSet::new().with(file), error },
    }
}

impl ReceiveFlow {
    #[verifier::type_invariant]
    closed spec fn in_range(self) -> bool {
        step_in_range(self.max_retries as nat, self.step@)
    }

    /// How often files that failed verification are transferred again.
    pub closed spec fn max_retries(self) -> nat {
        self.max_retries as nat
    }

    /// Whether the files that are retried are listed.
    pub closed spec fn print_retried(self) -> bool {
        self.print_retried
    }

    /// Where the failed-file list is, for messages.
    pub closed spec fn list(self) -> Seq<char> {
        self.list@
    }

    /// The step that is to be done next.
    pub closed spec fn at(self) -> StepView {
        self.step@
    }

    /// A flow at its start. `list` names the failed-file list in messages.
    pub fn new(max_retries: usize, print_retried: bool, list: String) -> (r: ReceiveFlow)
        ensures
            r.max_retries() == max_retries,
            r.print_retried() == print_retried,
            r.list() == list@,
            r.at() == StepView::Download(0),
    {
        ReceiveFlow {
            max_retries,
            print_retried,
            list,
            step: ReceiveStep::Download { attempt: 0 },
        }
    }

    /// The step that is to be done next.
    pub fn step(&self) -> (r: &ReceiveStep)
        ensures
            r@ == self.at(),
    {
        &self.step
    }

    /// The flow after its step was done, and what goes with the change.
    pub fn advance(self, event: ReceiveEvent) -> (r: (ReceiveFlow, Notes))
        ensures
            r.0.max_retries() == self.max_retries(),
            r.0.print_retried() == self.print_retried(),
            r.0.list() == self.list(),
            r.0.at() == step_after(self.max_retries(), self.list(), self.at(), event@),
            step_in_range(self.max_retries(), r.0.at()),
            match (r.1.warning, warning_after(self.max_retries(), self.at(), event@)) {
                (Some(w), Some(expected)) => w@ == expected,
                (None, None) => true,
                _ => false,
            },
            r.1.listing is Some <==> self.print_retried() && retried_after(
                self.max_retries(),
                self.at(),
                event@,
            ) is Some,
            r.1.listing matches Some(text) ==> exists|order: Seq<Seq<char>>|
                lists_ascending(order, retried_after(self.max_retries(), self.at(), event@)->0)
                    && text@ == listing_text(order),
            r.1.pause == pause_after(self.at(), event@),
    {
        proof {
            use_type_invariant(&self);
        }
        let ReceiveFlow { max_retries, print_retried, list, step } = self;
        let mut notes = Notes { warning: None, listing: None, pause: false };
        let next = match (step, event) {
            (ReceiveStep::Finished { outcome }, _) => ReceiveStep::Finished { outcome },
            (ReceiveStep::Download { attempt: _ }, ReceiveEvent::Done) => ReceiveStep::Export,
            (ReceiveStep::Download { attempt }, event) => {
                let error = error_text(event);
                if attempt + 1 < DOWNLOAD_ATTEMPTS {
                    notes = Notes {
                        warning: Some(download_warning(attempt, error.as_str())),
                        listing: None,
                        pause: true,
                    };
                    ReceiveStep::Download { attempt: attempt + 1 }
                } else {
                    ReceiveStep::Finished { outcome: Err(error) }
                }
            },
            (ReceiveStep::Export, ReceiveEvent::Done) => ReceiveStep::Verify {
                attempt: 0,
                only: None,
            },
            (ReceiveStep::Verify { .. }, ReceiveEvent::Done) => ReceiveStep::Finished {
                outcome: Ok(()),
            },
            (ReceiveStep::Verify { attempt, .. }, ReceiveEvent::Mismatched { failed, error }) => {
                if attempt == max_retries {
                    ReceiveStep::Finished { outcome: Err(error) }
                } else {
                    notes = retry_notes(&failed, attempt, max_retries, print_retried);
                    ReceiveStep::DownloadAgain { attempt, files: failed }
                }
            },
            (ReceiveStep::Verify { attempt, only }, ReceiveEvent::Failed { error }) => {
                if attempt == max_retries {
                    ReceiveStep::Finished { outcome: Err(error) }
                } else {
                    ReceiveStep::ReadList { attempt, only, error }
                }
            },
            (ReceiveStep::ReadList { attempt, only, error }, ReceiveEvent::Done) => match only {
                Some(files) => {
                    notes = retry_notes(&files, attempt, max_retries, print_retried);
                    ReceiveStep::DownloadAgain { attempt, files }
                },
                None => ReceiveStep::Finished { outcome: Err(error) },
            },
            (ReceiveStep::ReadList { .. }, event) => {
                let mut e: String = "verification failed but ".to_owned();
                e.append(list.as_str());
                e.append(" could not be read: ");
                e.append(error_text(event).as_str());
                ReceiveStep::Finished { outcome: Err(e) }
            },
            (ReceiveStep::DownloadAgain { attempt, files }, ReceiveEvent::Done) => {
                ReceiveStep::ExportAgain { attempt, files }
            },
            (ReceiveStep::ExportAgain { attempt, files }, ReceiveEvent::Done) => {
                ReceiveStep::Verify { attempt: attempt + 1, only: Some(files) }
            },
            (_, event) => ReceiveStep::Finished { outcome: Err(error_text(event)) },
        };
        (ReceiveFlow { max_retries, print_retried, list, step: next }, notes)
    }
}

/// Where a flow at `step` is after the given events.
pub open spec fn run(
    max_retries: nat,
    list: Seq<char>,
    step: StepView,
    events: Seq<EventView>,
) -> StepView
    decreases events.len(),
{
    if events.len() == 0 {
        step
    } else {
        step_after(
            max_retries,
            list,
            run(max_retries, list, step, events.drop_last()),
            events.last(),
        )
    }
}

/// Where a flow from its start is after the first `n` of the given events.
pub open spec fn step_at(max_retries: nat, list: Seq<char>, events: Seq<EventView>, n: int) -> StepView {
    run(max_retries, list, StepView::Download(0), events.take(n))
}

proof fn step_at_next(max_retries: nat, list: Seq<char>, events: Seq<EventView>, n: int)
    requires
        0 <= n < events.len(),
    ensures
        step_at(max_retries, list, events, n + 1) == step_after(
            max_retries,
            list,
            step_at(max_retries, list, events, n),
            events[n],
        ),
        step_at(max_retries, list, events, 0) == StepView::Download(0),
{
    assert(events.take(n + 1).drop_last() =~= events.take(n));
    assert(events.take(n + 1).last() == events[n]);
}

/// How many of the first `n` events answer a step for which `counts` holds.
pub open spec fn answered(
    max_retries: nat,
    list: Seq<char>,
    events: Seq<EventView>,
    n: int,
    counts: spec_fn(StepView) -> bool,
) -> nat
    decreases n,
{
    if n <= 0 {
        0
    } else {
        answered(max_retries, list, events, n - 1, counts) + if counts(
            step_at(max_retries, list, events, n - 1),
        ) {
            1nat
        } else {
            0nat
        }
    }
}

/// Downloads of everything.
pub open spec fn full_downloads(max_retries: nat, list: Seq<char>, events: Seq<EventView>) -> nat {
    answered(max_retries, list, events, events.len() as int, |s: StepView| s is Download)
}

/// Downloads of the files that failed.
pub open spec fn retries(max_retries: nat, list: Seq<char>, events: Seq<EventView>) -> nat {
    answered(max_retries, list, events, events.len() as int, |s: StepView| s is DownloadAgain)
}

/// Verifications.
pub open spec fn verifications(max_retries: nat, list: Seq<char>, events: Seq<EventView>) -> nat {
    answered(max_retries, list, events, events.len() as int, |s: StepView| s is Verify)
}

/// Whether a flow at `step` is still to be counted on after `n` events, of which so
/// many downloaded everything, transferred files again, and verified.
spec fn progress(
    max_retries: nat,
    step: StepView,
    n: int,
    full: nat,
    again: nat,
    verified: nat,
) -> bool {
    match step {
        StepView::Download(attempt) => n == attempt && full == attempt && attempt < 3 && again == 0
            && verified == 0,
        StepView::Export => n <= 3 && full <= 3 && again == 0 && verified == 0,
        StepView::Verify(attempt, _) => n <= 4 + 4 * attempt && full <= 3 && attempt <= max_retries
            && again == attempt && verified == attempt,
        StepView::ReadList(attempt, _, _) => n <= 5 + 4 * attempt && full <= 3 && attempt
            < max_retries && again == attempt && verified == attempt + 1,
        StepView::DownloadAgain(attempt, _) => n <= 6 + 4 * attempt && full <= 3 && attempt
            < max_retries && again == attempt && verified == attempt + 1,
        StepView::ExportAgain(attempt, _) => n <= 7 + 4 * attempt && full <= 3 && attempt
            < max_retries && again == attempt + 1 && verified == attempt + 1,
        StepView::Finished(_) => full <= 3 && again <= max_retries && verified <= max_retries + 1,
    }
}

proof fn progress_is_kept(max_retries: nat, list: Seq<char>, events: Seq<EventView>, n: int)
    requires
        0 <= n <= events.len(),
    ensures
        progress(
            max_retries,
            step_at(max_retries, list, events, n),
            n,
            answered(max_retries, list, events, n, |s: StepView| s is Download),
            answered(max_retries, list, events, n, |s: StepView| s is DownloadAgain),
            answered(max_retries, list, events, n, |s: StepView| s is Verify),
        ),
    decreases n,
{
    if n > 0 {
        progress_is_kept(max_retries, list, events, n - 1);
        step_at_next(max_retries, list, events, n - 1);
    }
}

/// However the steps go, a receive ends: after at most three downloads of
/// everything, one export and one verification, and for each retry a look for the
/// list, a download, an export and a verification.
pub proof fn receive_always_ends(max_retries: nat, list: Seq<char>, events: Seq<EventView>)
    requires
        events.len() >= 4 * max_retries + 5,
    ensures
        run(max_retries, list, StepView::Download(0), events) is Finished,
{
    progress_is_kept(max_retries, list, events, events.len() as int);
    assert(events.take(events.len() as int) =~= events);
}

/// Everything is downloaded at most three times; files are transferred again at most
/// `max_retries` times, and there are at most that many verifications after the first.
pub proof fn attempts_are_bounded(max_retries: nat, list: Seq<char>, events: Seq<EventView>)
    ensures
        full_downloads(max_retries, list, events) <= 3,
        retries(max_retries, list, events) <= max_retries,
        verifications(max_retries, list, events) <= max_retries + 1,
{
    progress_is_kept(max_retries, list, events, events.len() as int);
}

/// Just the files that failed a verification are transferred again: what is
/// downloaded is what failed in the verification just before, or, where that came to
/// no result, what it was to look at after an earlier one failed; what is exported is
/// what was downloaded, and what is then verified is what was exported.
pub proof fn just_the_failing_files_again(max_retries: nat, list: Seq<char>, events: Seq<EventView>, n: int)
    requires
        0 <= n <= events.len(),
    ensures
        match step_at(max_retries, list, events, n) {
            StepView::DownloadAgain(attempt, files) => {
                &&& n > 0
                &&& ({
                    ||| {
                        &&& step_at(max_retries, list, events, n - 1) matches StepView::Verify(
                            before,
                            _,
                        )
                        &&& before == attempt
                        &&& events[n - 1] matches EventView::Mismatched(failed, _)
                        &&& failed == files
                    }
                    ||| step_at(max_retries, list, events, n - 1) matches StepView::ReadList(
                        before,
                        Some(looked_at),
                        _,
                    ) && before == attempt && looked_at == files
                })
            },
            StepView::ReadList(attempt, only, _) => {
                &&& n > 0
                &&& step_at(max_retries, list, events, n - 1) == StepView::Verify(attempt, only)
                &&& events[n - 1] is Failed
            },
            StepView::ExportAgain(attempt, files) => {
                &&& n > 0
                &&& step_at(max_retries, list, events, n - 1) == StepView::DownloadAgain(attempt, files)
            },
            StepView::Verify(attempt, Some(files)) => {
                &&& n > 0
                &&& attempt > 0
                &&& step_at(max_retries, list, events, n - 1) == StepView::ExportAgain(
                    (attempt - 1) as nat,
                    files,
                )
            },
            _ => true,
        },
{
    if n > 0 {
        step_at_next(max_retries, list, events, n - 1);
    } else {
        assert(events.take(0).len() == 0);
    }
}

/// A receive that fails gives the error of the step that failed last; that is the last
/// verification where files still fail it after `max_retries` retries. Where the list
/// is looked for, the error says that it could not be read, or is that of the
/// verification.
pub proof fn last_error_is_returned(max_retries: nat, list: Seq<char>, events: Seq<EventView>, n: int)
    requires
        0 <= n < events.len(),
        step_at(max_retries, list, events, n) !is Finished,
    ensures
        step_at(max_retries, list, events, n + 1) matches StepView::Finished(Err(e)) ==> match step_at(
            max_retries,
            list,
            events,
            n,
        ) {
            StepView::ReadList(_, only, error) => if events[n] is Done {
                only is None && e == error
            } else {
                e == unread_list_text(list, error_of(events[n]))
            },
            _ => events[n] !is Done && e == error_of(events[n]),
        },
        (step_at(max_retries, list, events, n) matches StepView::Verify(attempt, _) && attempt
            == max_retries && events[n] is Mismatched) ==> step_at(max_retries, list, events, n + 1)
            == StepView::Finished(Err(error_of(events[n]))),
{
    step_at_next(max_retries, list, events, n);
}

/// Whether a step verifies the file at `path`.
pub open spec fn looks_at(step: StepView, path: Seq<char>) -> bool {
    step matches StepView::Verify(_, only) && wanted(only, path)
}

/// Whether a step writes the file at `path`.
pub open spec fn writes(step: StepView, path: Seq<char>) -> bool {
    match step {
        StepView::Export => true,
        StepView::ExportAgain(_, files) => files.contains(path),
        _ => false,
    }
}

/// Whether an event that answers a verification clears the file at `path`.
pub open spec fn clears(event: EventView, path: Seq<char>) -> bool {
    match event {
        EventView::Done => true,
        EventView::Failed(_) => false,
        EventView::Mismatched(failed, _) => !failed.contains(path),
    }
}

/// Whether the verification at `m` is the last of the first `n` steps that looks at the
/// file at `path`, finds nothing wrong with it, and the file is not written again.
pub open spec fn passed_last_at(
    max_retries: nat,
    list: Seq<char>,
    events: Seq<EventView>,
    n: int,
    path: Seq<char>,
    m: int,
) -> bool {
    &&& 0 <= m < n
    &&& looks_at(step_at(max_retries, list, events, m), path)
    &&& clears(events[m], path)
    &&& forall|k: int|
        m < k < n ==> !looks_at(#[trigger] step_at(max_retries, list, events, k), path) && !writes(
            step_at(max_retries, list, events, k),
            path,
        )
}

/// Whether the file at `path` has passed.
spec fn passed(max_retries: nat, list: Seq<char>, events: Seq<EventView>, n: int, path: Seq<char>) -> bool {
    exists|m: int| passed_last_at(max_retries, list, events, n, path, m)
}

/// Whether the file at `path` need not be looked at again by a flow at `step`.
spec fn is_settled(step: StepView, path: Seq<char>) -> bool {
    match step {
        StepView::Download(_) => false,
        StepView::Export => false,
        StepView::Verify(_, only) => !wanted(only, path),
        StepView::ReadList(_, only, _) => !wanted(only, path),
        StepView::DownloadAgain(_, files) => !files.contains(path),
        StepView::ExportAgain(_, files) => !files.contains(path),
        StepView::Finished(outcome) => outcome is Ok,
    }
}

proof fn settled_files_passed(max_retries: nat, list: Seq<char>, events: Seq<EventView>, n: int, path: Seq<char>)
    requires
        0 <= n <= events.len(),
        is_settled(step_at(max_retries, list, events, n), path),
    ensures
        passed(max_retries, list, events, n, path),
    decreases n,
{
    if n == 0 {
        assert(events.take(0).len() == 0);
    } else {
        step_at_next(max_retries, list, events, n - 1);
        let before = step_at(max_retries, list, events, n - 1);
        if looks_at(before, path) {
            assert(passed_last_at(max_retries, list, events, n, path, n - 1));
        } else {
            let last = n - 1;
            settled_files_passed(max_retries, list, events, last, path);
            let m = choose|m: int| passed_last_at(max_retries, list, events, last, path, m);
            assert(passed_last_at(max_retries, list, events, n, path, m));
        }
    }
}

/// A receive that succeeds has every file verified: whatever the path, the last
/// verification that looks at it finds nothing wrong, and the file is not written
/// after that.
pub proof fn success_means_verified(max_retries: nat, list: Seq<char>, events: Seq<EventView>, path: Seq<char>)
    requires
        run(max_retries, list, StepView::Download(0), events) == StepView::Finished(Ok(())),
    ensures
        exists|m: int|
            passed_last_at(max_retries, list, events, events.len() as int, path, m),
{
    assert(events.take(events.len() as int) =~= events);
    settled_files_passed(max_retries, list, events, events.len() as int, path);
}

/// Retries are not given up early: as long as fewer than `max_retries` were made, files
/// that fail a verification are downloaded again, just those; and after the last retry
/// they are not.
pub proof fn retries_are_not_given_up(
    max_retries: nat,
    list: Seq<char>,
    attempt: nat,
    only: Option<Set<Seq<char>>>,
    failed: Set<Seq<char>>,
    error: Seq<char>,
)
    requires
        attempt <= max_retries,
    ensures
        attempt < max_retries <==> step_after(
            max_retries,
            list,
            StepView::Verify(attempt, only),
            EventView::Mismatched(failed, error),
        ) == StepView::DownloadAgain(attempt, failed),
        attempt == max_retries ==> step_after(
            max_retries,
            list,
            StepView::Verify(attempt, only),
            EventView::Mismatched(failed, error),
        ) == StepView::Finished(Err(error)),
{
}

/// A receive that ends with the error of a mismatch has made every retry that it may:
/// `max_retries` downloads of failing files, and one verification more.
pub proof fn mismatch_ends_after_all_retries(
    max_retries: nat,
    list: Seq<char>,
    events: Seq<EventView>,
)
    requires
        events.len() > 0,
        step_at(max_retries, list, events, events.len() - 1) is Verify,
        events.last() is Mismatched,
        run(max_retries, list, StepView::Download(0), events) is Finished,
    ensures
        retries(max_retries, list, events) == max_retries,
        verifications(max_retries, list, events) == max_retries + 1,
        run(max_retries, list, StepView::Download(0), events) == StepView::Finished(
            Err(events.last()->Mismatched_1),
        ),
{
    let n = events.len() as int;
    let before = n - 1;
    progress_is_kept(max_retries, list, events, before);
    step_at_next(max_retries, list, events, before);
    assert(events.take(n) =~= events);
}

/// A receive that ends with the error of a download of everything has tried that three
/// times.
pub proof fn download_is_tried_three_times(
    max_retries: nat,
    list: Seq<char>,
    events: Seq<EventView>,
)
    requires
        events.len() > 0,
        step_at(max_retries, list, events, events.len() - 1) is Download,
        events.last() !is Done,
    ensures
        run(max_retries, list, StepView::Download(0), events) is Finished <==> full_downloads(
            max_retries,
            list,
            events,
        ) == 3,
        run(max_retries, list, StepView::Download(0), events) is Finished <==> events.len() == 3,
        run(max_retries, list, StepView::Download(0), events) !is Finished ==> run(
            max_retries,
            list,
            StepView::Download(0),
            events,
        ) is Download,
{
    let n = events.len() as int;
    let before = n - 1;
    progress_is_kept(max_retries, list, events, before);
    step_at_next(max_retries, list, events, before);
    assert(events.take(n) =~= events);
}

/// Where nothing goes wrong, a download, an export and a verification make a receive,
/// however many retries are allowed.
pub proof fn smooth_receive_succeeds(max_retries: nat, list: Seq<char>, events: Seq<EventView>)
    requires
        events.len() == 3,
        forall|i: int| 0 <= i < 3 ==> #[trigger] events[i] is Done,
    ensures
        step_at(max_retries, list, events, 0) == StepView::Download(0),
        step_at(max_retries, list, events, 1) == StepView::Export,
        step_at(max_retries, list, events, 2) == StepView::Verify(0, None),
        run(max_retries, list, StepView::Download(0), events) == StepView::Finished(Ok(())),
{
    step_at_next(max_retries, list, events, 0);
    step_at_next(max_retries, list, events, 1);
    step_at_next(max_retries, list, events, 2);
    assert(events[0] is Done && events[1] is Done && events[2] is Done);
    assert(events.take(3) =~= events);
}

/// A retry in which nothing goes wrong exports and verifies just the files that it
/// downloaded, and then the receive succeeds.
pub proof fn smooth_retry_succeeds(
    max_retries: nat,
    list: Seq<char>,
    attempt: nat,
    files: Set<Seq<char>>,
)
    ensures
        ({
            let exported = step_after(
                max_retries,
                list,
                StepView::DownloadAgain(attempt, files),
                EventView::Done,
            );
            let verified = step_after(max_retries, list, exported, EventView::Done);
            &&& exported == StepView::ExportAgain(attempt, files)
            &&& verified == StepView::Verify(attempt + 1, Some(files))
            &&& step_after(max_retries, list, verified, EventView::Done) == StepView::Finished(
                Ok(()),
            )
        }),
{
}

/// An export, or a download of failing files, that fails ends the receive with its
/// error; and a receive that has ended stays as it is.
pub proof fn failure_ends_a_receive(
    max_retries: nat,
    list: Seq<char>,
    step: StepView,
    event: EventView,
)
    ensures
        (step is Export || step is DownloadAgain || step is ExportAgain) ==> match event {
            EventView::Done => step_after(max_retries, list, step, event) !is Finished,
            EventView::Failed(e) => step_after(max_retries, list, step, event)
                == StepView::Finished(Err(e)),
            EventView::Mismatched(_, e) => step_after(max_retries, list, step, event)
                == StepView::Finished(Err(e)),
        },
        step is Finished ==> step_after(max_retries, list, step, event) == step,
{
}

/// A verification without a result, with retries left, has the list looked for: where
/// it cannot be read, that is the error; where it can, the files that failed before are
/// retried, if any did. Without retries left its error ends the receive.
pub proof fn verification_without_a_result(
    max_retries: nat,
    list: Seq<char>,
    attempt: nat,
    only: Option<Set<Seq<char>>>,
    error: Seq<char>,
    cause: Seq<char>,
)
    requires
        attempt <= max_retries,
    ensures
        ({
            let next = step_after(
                max_retries,
                list,
                StepView::Verify(attempt, only),
                EventView::Failed(error),
            );
            if attempt == max_retries {
                next == StepView::Finished(Err(error))
            } else {
                &&& next !is Finished
                &&& step_after(max_retries, list, next, EventView::Failed(cause))
                    == StepView::Finished(
                    Err("verification failed but "@ + list + " could not be read: "@ + cause),
                )
                &&& step_after(max_retries, list, next, EventView::Done) == (match only {
                    Some(files) => StepView::DownloadAgain(attempt, files),
                    None => StepView::Finished(Err(error)),
                })
            }
        }),
{
}

/// What is printed goes with what is done next: a warning where something is tried
/// again and only there, the files that are retried where they are downloaded again, and
/// a pause between two downloads of everything.
pub proof fn notes_go_with_the_next_step(
    max_retries: nat,
    list: Seq<char>,
    step: StepView,
    event: EventView,
)
    requires
        step_in_range(max_retries, step),
    ensures
        ({
            let next = step_after(max_retries, list, step, event);
            let again = next is DownloadAgain;
            &&& retried_after(max_retries, step, event) == if again {
                Some(next->DownloadAgain_1)
            } else {
                None::<Set<Seq<char>>>
            }
            &&& pause_after(step, event) <==> step is Download && next is Download
            &&& warning_after(max_retries, step, event) == (match (step, next) {
                (StepView::Download(a), StepView::Download(_)) => Some(
                    "download attempt "@ + decimal(a + 1) + "/3 failed: "@ + (match event {
                        EventView::Done => Seq::empty(),
                        EventView::Failed(e) => e,
                        EventView::Mismatched(_, e) => e,
                    }) + "; retrying..."@,
                ),
                (_, StepView::DownloadAgain(a, files)) => Some(
                    "verification failed for "@ + decimal(files.len())
                        + " file(s); retrying (attempt "@ + decimal(a + 1) + "/"@ + decimal(
                        max_retries,
                    ) + ")"@,
                ),
                _ => None,
            })
        }),
{
}

/// Steps and events stand in the laws for what they hold.
pub proof fn receive_views_hold_it_all(
    attempt: usize,
    only: Option<PathSet>,
    files: PathSet,
    error: String,
)
    ensures
        (ReceiveStep::Download { attempt })@ == StepView::Download(attempt as nat),
        ReceiveStep::Export@ == StepView::Export,
        (ReceiveStep::Verify { attempt, only })@ == StepView::Verify(
            attempt as nat,
            match only {
                Some(set) => Some(set@),
                None => None,
            },
        ),
        (ReceiveStep::DownloadAgain { attempt, files })@ == StepView::DownloadAgain(
            attempt as nat,
            files@,
        ),
        (ReceiveStep::ExportAgain { attempt, files })@ == StepView::ExportAgain(
            attempt as nat,
            files@,
        ),
        (ReceiveStep::Finished { outcome: Ok(()) })@ == StepView::Finished(Ok(())),
        (ReceiveStep::Finished { outcome: Err(error) })@ == StepView::Finished(Err(error@)),
        ReceiveEvent::Done@ == EventView::Done,
        (ReceiveEvent::Failed { error })@ == EventView::Failed(error@),
        (ReceiveEvent::Mismatched { failed: files, error })@ == EventView::Mismatched(
            files@,
            error@,
        ),
{
}

/// Each step that is done leads to the next, at whichever attempt: a download to the
/// export, the export to the verification of everything, a verification to success. A
/// download of everything that fails is made again until it has been made three times,
/// and then its error ends the receive.
pub proof fn each_step_leads_to_the_next(
    max_retries: nat,
    list: Seq<char>,
    attempt: nat,
    only: Option<Set<Seq<char>>>,
    failed: Set<Seq<char>>,
    error: Seq<char>,
)
    requires
        attempt < 3,
    ensures
        ({
            let download = StepView::Download(attempt);
            let again = if attempt == 2 {
                StepView::Finished(Err(error))
            } else {
                StepView::Download(attempt + 1)
            };
            &&& step_after(max_retries, list, download, EventView::Done) == StepView::Export
            &&& step_after(max_retries, list, download, EventView::Failed(error)) == again
            &&& step_after(max_retries, list, download, EventView::Mismatched(failed, error))
                == again
            &&& step_after(max_retries, list, StepView::Export, EventView::Done)
                == StepView::Verify(0, None)
            &&& step_after(max_retries, list, StepView::Verify(attempt, only), EventView::Done)
                == StepView::Finished(Ok(()))
        }),
{
}

/// A list that is looked for and cannot be read is the error, however that is told.
pub proof fn unread_list_is_the_error(
    max_retries: nat,
    list: Seq<char>,
    attempt: nat,
    only: Option<Set<Seq<char>>>,
    error: Seq<char>,
    failed: Set<Seq<char>>,
    cause: Seq<char>,
)
    ensures
        step_after(
            max_retries,
            list,
            StepView::ReadList(attempt, only, error),
            EventView::Mismatched(failed, cause),
        ) == step_after(
            max_retries,
            list,
            StepView::ReadList(attempt, only, error),
            EventView::Failed(cause),
        ),
        step_after(
            max_retries,
            list,
            StepView::ReadList(attempt, only, error),
            EventView::Failed(cause),
        ) == StepView::Finished(
            Err("verification failed but "@ + list + " could not be read: "@ + cause),
        ),
        attempt < max_retries ==> step_after(
            max_retries,
            list,
            StepView::Verify(attempt, only),
            EventView::Failed(error),
        ) == StepView::ReadList(attempt, only, error),
{
}

/// A step that looks for the list stands in the laws for what it holds.
pub proof fn read_list_view_holds_it_all(attempt: usize, only: Option<PathSet>, error: String)
    ensures
        (ReceiveStep::ReadList { attempt, only, error })@ == StepView::ReadList(
            attempt as nat,
            match only {
                Some(set) => Some(set@),
                None => None,
            },
            error@,
        ),
        outcome_view(Ok(())) == Ok::<(), Seq<char>>(()),
        outcome_view(Err(error)) == Err::<(), Seq<char>>(error@),
{
}

} // verus!
