use ftrans::completion::{DoneEvent, DoneFlow, DoneStep};
use ftrans::failed_list::PathSet;
use ftrans::fetch_flow::{
    first_fetch, is_single, next_fetch, plan_download, FetchEvent, FetchStep,
};
use ftrans::hash::BlobHash;
use ftrans::hashseq::encode_index;
use ftrans::manifest::{FileEntry, Manifest};
use ftrans::receive_flow::{
    verify_event, verify_single_event, ReceiveEvent, ReceiveFlow, ReceiveStep,
};
use ftrans::receiver::{verify_single, Failure, VerifyFailure};
use ftrans::retry_flow::{RetryEvent, RetryFlow, RetryStep};
use ftrans::ticket::BlobFormat;

fn set(paths: &[&str]) -> PathSet {
    let mut r = PathSet::new();
    for p in paths {
        r = r.with(p.to_string());
    }
    r
}

fn done() -> ReceiveEvent {
    ReceiveEvent::Done
}

fn failed(t: &str) -> ReceiveEvent {
    ReceiveEvent::Failed { error: t.to_string() }
}

fn mismatched(paths: &[&str], t: &str) -> ReceiveEvent {
    ReceiveEvent::Mismatched { failed: set(paths), error: t.to_string() }
}

fn finished(outcome: Result<(), &str>) -> ReceiveStep {
    ReceiveStep::Finished { outcome: outcome.map_err(|e| e.to_string()) }
}

fn receive(max_retries: usize, print: bool) -> ReceiveFlow {
    ReceiveFlow::new(max_retries, print, "/out/ftrans-failed.txt".to_string())
}

/// A flow that has downloaded and exported everything.
fn at_verify(max_retries: usize, print: bool) -> ReceiveFlow {
    receive(max_retries, print).advance(done()).0.advance(done()).0
}

#[test]
fn receive_succeeds_once_verified() {
    let (flow, _) = receive(2, false).advance(done());
    assert_eq!(*flow.step(), ReceiveStep::Export);
    let (flow, _) = flow.advance(done());
    assert_eq!(*flow.step(), ReceiveStep::Verify { attempt: 0, only: None });
    let (flow, notes) = flow.advance(done());
    assert_eq!(*flow.step(), finished(Ok(())));
    assert_eq!(notes.warning, None);
    let (flow, _) = flow.advance(failed("late"));
    assert_eq!(*flow.step(), finished(Ok(())));
}

#[test]
fn initial_download_is_tried_three_times() {
    let (flow, notes) = receive(2, false).advance(failed("e1"));
    assert_eq!(*flow.step(), ReceiveStep::Download { attempt: 1 });
    assert_eq!(notes.warning.as_deref(), Some("download attempt 1/3 failed: e1; retrying..."));
    assert!(notes.pause);
    let (flow, notes) = flow.advance(failed("e2"));
    assert_eq!(notes.warning.as_deref(), Some("download attempt 2/3 failed: e2; retrying..."));
    assert!(notes.pause);
    let (flow, notes) = flow.advance(failed("e3"));
    assert_eq!(*flow.step(), finished(Err("e3")));
    assert_eq!(notes.warning, None);
    assert!(!notes.pause);
}

#[test]
fn failing_files_are_transferred_again() {
    let (flow, notes) = at_verify(1, true).advance(mismatched(&["b", "a "], "2/3 failed"));
    let files = || set(&["b", "a "]);
    assert_eq!(*flow.step(), ReceiveStep::DownloadAgain { attempt: 0, files: files() });
    assert_eq!(
        notes.warning.as_deref(),
        Some("verification failed for 2 file(s); retrying (attempt 1/1)")
    );
    assert_eq!(notes.listing.as_deref(), Some("Retrying these file(s):\n  - a \n  - b"));
    let (flow, _) = flow.advance(done());
    assert_eq!(*flow.step(), ReceiveStep::ExportAgain { attempt: 0, files: files() });
    let (flow, _) = flow.advance(done());
    assert_eq!(*flow.step(), ReceiveStep::Verify { attempt: 1, only: Some(files()) });
    let (flow, notes) = flow.advance(mismatched(&["b"], "still bad"));
    assert_eq!(*flow.step(), finished(Err("still bad")));
    assert_eq!(notes.listing, None);
    assert_eq!(notes.warning, None);
}

#[test]
fn each_retry_takes_what_failed_last() {
    let flow = at_verify(3, false).advance(mismatched(&["a", "b"], "x")).0;
    let flow = flow.advance(done()).0.advance(done()).0;
    let (flow, notes) = flow.advance(mismatched(&["b"], "x"));
    assert_eq!(
        *flow.step(),
        ReceiveStep::DownloadAgain { attempt: 1, files: set(&["b"]) }
    );
    assert_eq!(
        notes.warning.as_deref(),
        Some("verification failed for 1 file(s); retrying (attempt 2/3)")
    );
    let flow = flow.advance(done()).0.advance(done()).0.advance(done()).0;
    assert_eq!(*flow.step(), finished(Ok(())));
}

#[test]
fn nothing_is_retried_without_retries() {
    let flow = at_verify(0, true).advance(mismatched(&["a"], "bad")).0;
    assert_eq!(*flow.step(), finished(Err("bad")));
}

#[test]
fn other_errors_end_a_receive() {
    let flow = at_verify(0, false).advance(failed("no manifest")).0;
    assert_eq!(*flow.step(), finished(Err("no manifest")));
    let flow = receive(2, false).advance(done()).0.advance(failed("full disk")).0;
    assert_eq!(*flow.step(), finished(Err("full disk")));
    let flow = at_verify(2, false).advance(mismatched(&["a"], "bad")).0.advance(failed("gone")).0;
    assert_eq!(*flow.step(), finished(Err("gone")));
}

#[test]
fn list_is_looked_for_where_a_verification_has_no_result() {
    let at_list = || at_verify(2, true).advance(failed("store is gone")).0;
    assert_eq!(
        *at_list().step(),
        ReceiveStep::ReadList { attempt: 0, only: None, error: "store is gone".to_string() }
    );
    let flow = at_list().advance(failed("no such file")).0;
    assert_eq!(
        *flow.step(),
        finished(Err(
            "verification failed but /out/ftrans-failed.txt could not be read: no such file"
        ))
    );
    // The list of another run says nothing of this one.
    let (flow, notes) = at_list().advance(done());
    assert_eq!(*flow.step(), finished(Err("store is gone")));
    assert_eq!(notes.warning, None);
}

#[test]
fn files_that_failed_before_are_retried_without_a_result() {
    let flow = at_verify(2, true).advance(mismatched(&["a"], "bad")).0;
    let flow = flow.advance(done()).0.advance(done()).0.advance(failed("store is gone")).0;
    let (flow, notes) = flow.advance(done());
    assert_eq!(*flow.step(), ReceiveStep::DownloadAgain { attempt: 1, files: set(&["a"]) });
    assert_eq!(
        notes.warning.as_deref(),
        Some("verification failed for 1 file(s); retrying (attempt 2/2)")
    );
    assert_eq!(notes.listing.as_deref(), Some("Retrying these file(s):\n  - a"));
}

#[test]
fn single_file_that_differs_is_fetched_again() {
    let a = BlobHash { bytes: [1; 32] };
    let b = BlobHash { bytes: [2; 32] };
    let file = || "/out".to_string();
    assert_eq!(verify_single_event(verify_single(&a, &a), file()), ReceiveEvent::Done);
    let event = verify_single_event(verify_single(&a, &b), file());
    let error = verify_single(&a, &b).unwrap_err();
    assert_eq!(event, mismatched(&["/out"], &error));
    let flow = at_verify(1, false).advance(event).0;
    assert_eq!(*flow.step(), ReceiveStep::DownloadAgain { attempt: 0, files: set(&["/out"]) });
}

#[test]
fn verification_outcome_is_handed_to_the_flow() {
    assert_eq!(verify_event(Ok("All 1 files verified.".to_string())), done());
    let failure = VerifyFailure {
        failed: set(&["a"]),
        list: "a".to_string(),
        message: "1/1 files failed verification:".to_string(),
    };
    assert_eq!(
        verify_event(Err(failure)),
        mismatched(&["a"], "1/1 files failed verification:")
    );
}

#[test]
fn single_file_is_fetched_at_once() {
    assert!(is_single(BlobFormat::Raw));
    assert!(!is_single(BlobFormat::HashSeq));
    let step = first_fetch(BlobFormat::Raw);
    assert_eq!(step, FetchStep::Single);
    let step = next_fetch(step, FetchEvent::Done, false);
    assert_eq!(step, FetchStep::Finished { outcome: Ok(()) });
    let step = next_fetch(FetchStep::Single, FetchEvent::Failed { error: "e".to_string() }, false);
    assert_eq!(step, FetchStep::Finished { outcome: Err("e".to_string()) });
}

#[test]
fn index_and_manifest_come_before_files() {
    let step = first_fetch(BlobFormat::HashSeq);
    assert_eq!(step, FetchStep::Index);
    let index = encode_index(&BlobHash { bytes: [9; 32] }, &hashes());
    let step = next_fetch(step, FetchEvent::Index { data: index.clone() }, true);
    assert_eq!(
        step,
        FetchStep::Manifest { hash: BlobHash { bytes: [9; 32] }, data: index }
    );
    let mut sent = manifest();
    sent.files[0].path = "src/a".to_string();
    let step = next_fetch(step, FetchEvent::Manifest { manifest: sent }, true);
    assert_eq!(step, FetchStep::Files { manifest: manifest(), hashes: hashes() });
    let plan = plan_download(&manifest(), &hashes(), Some(&set(&["b"])), 0);
    assert_eq!(plan.streams, 1);
    assert_eq!(plan.targets.len(), 1);
    let step = next_fetch(step, FetchEvent::Done, true);
    assert_eq!(step, FetchStep::Finished { outcome: Ok(()) });
    let bad = next_fetch(FetchStep::Index, FetchEvent::Index { data: vec![0; 33] }, false);
    assert_eq!(
        bad,
        FetchStep::Finished { outcome: Err("invalid hashseq: not aligned".to_string()) }
    );
    assert_eq!(next_fetch(FetchStep::Index, FetchEvent::Done, false), FetchStep::Index);
}

fn manifest() -> Manifest {
    let entry = |p: &str| FileEntry { path: p.to_string(), hash: "h".to_string() };
    Manifest { root: String::new(), files: vec![entry("a"), entry("b")] }
}

fn hashes() -> Vec<BlobHash> {
    vec![BlobHash { bytes: [1; 32] }, BlobHash { bytes: [2; 32] }]
}

fn retry(single: bool, print: bool) -> RetryFlow {
    RetryFlow::new(single, "/out".to_string(), "/out/list".to_string(), 4, print)
}

fn at_list(print: bool) -> RetryFlow {
    let event = RetryEvent::Fetched { manifest: manifest(), hashes: hashes() };
    retry(false, print).advance(event).0
}

#[test]
fn single_file_is_retried() {
    let flow = retry(true, true);
    assert_eq!(*flow.step(), RetryStep::DownloadSingle);
    let flow = flow.advance(RetryEvent::Done).0;
    assert_eq!(*flow.step(), RetryStep::ExportSingle);
    let flow = flow.advance(RetryEvent::Done).0;
    assert_eq!(*flow.step(), RetryStep::VerifySingle);
    let (flow, notes) = flow.advance(RetryEvent::Done);
    assert_eq!(*flow.step(), RetryStep::Finished { outcome: Ok(()) });
    assert_eq!(notes.notice.as_deref(), Some("Retrying file: /out"));
}

#[test]
fn listed_files_are_retried() {
    let content = Some("b\n".to_string());
    let (flow, notes) = at_list(true).advance(RetryEvent::List { content });
    assert_eq!(
        notes.notice.as_deref(),
        Some("Retrying 1 previously failed file(s) from /out/list")
    );
    assert_eq!(notes.listing.as_deref(), Some("Retrying these file(s):\n  - b"));
    match flow.step() {
        RetryStep::Download { plan, files } => {
            assert_eq!(*files, set(&["b"]));
            assert_eq!(plan.targets.len(), 1);
            assert_eq!(plan.targets[0].path, "b");
            assert_eq!(plan.targets[0].hash, hashes()[1]);
            assert_eq!(plan.notice, "downloading 1 files (4 parallel streams)...");
        }
        _ => panic!("not a download"),
    }
    let flow = flow.advance(RetryEvent::Done).0;
    assert_eq!(*flow.step(), RetryStep::Export { files: set(&["b"]) });
    let flow = flow.advance(RetryEvent::Done).0;
    assert_eq!(*flow.step(), RetryStep::Verify { files: set(&["b"]) });
    let flow = flow.advance(RetryEvent::Done).0;
    assert_eq!(*flow.step(), RetryStep::RemoveList { files: set(&["b"]) });
    let (flow, notes) = flow.advance(RetryEvent::Failed { error: "gone".to_string() });
    assert_eq!(*flow.step(), RetryStep::Finished { outcome: Ok(()) });
    assert_eq!(notes.notice.as_deref(), Some("All 1 retried files verified."));
}

#[test]
fn retry_uses_at_least_one_stream() {
    let flow = RetryFlow::new(false, "/out".to_string(), "/out/list".to_string(), 0, false);
    let event = RetryEvent::Fetched { manifest: manifest(), hashes: hashes() };
    let content = Some("a".to_string());
    let flow = flow.advance(event).0.advance(RetryEvent::List { content }).0;
    match flow.step() {
        RetryStep::Download { plan, .. } => {
            assert_eq!(plan.streams, 1);
            assert_eq!(plan.notice, "downloading 1 files (1 parallel streams)...");
        }
        _ => panic!("not a download"),
    }
}

#[test]
fn empty_list_is_an_error() {
    let content = Some("\n \n".to_string());
    let (flow, _) = at_list(false).advance(RetryEvent::List { content });
    assert_eq!(
        *flow.step(),
        RetryStep::Finished { outcome: Err("/out/list is empty".to_string()) }
    );
}

#[test]
fn local_files_are_checked_without_a_list() {
    let (flow, notes) = at_list(false).advance(RetryEvent::List { content: None });
    assert_eq!(
        notes.notice.as_deref(),
        Some("No failed-file list at /out/list; checking local files against the sender...")
    );
    let (flow, notes) = flow.advance(RetryEvent::Checked { failures: vec![] });
    assert_eq!(*flow.step(), RetryStep::Finished { outcome: Ok(()) });
    assert_eq!(
        notes.notice.as_deref(),
        Some("All 2 local files already match the sender; nothing to retry.")
    );

    let flow = at_list(false).advance(RetryEvent::List { content: None }).0;
    let failures = vec![Failure { path: "a".to_string(), detail: "missing".to_string() }];
    let (flow, notes) = flow.advance(RetryEvent::Checked { failures });
    assert_eq!(
        notes.notice.as_deref(),
        Some("1 of 2 local files differ; retrying only those.")
    );
    assert_eq!(notes.listing, None);
    assert!(matches!(flow.step(), RetryStep::Download { .. }));
    let (flow, _) = flow.advance(RetryEvent::Failed { error: "lost".to_string() });
    assert_eq!(*flow.step(), RetryStep::Finished { outcome: Err("lost".to_string()) });
}

#[test]
fn events_that_answer_no_step_change_nothing() {
    let (flow, notes) = retry(true, false).advance(RetryEvent::List { content: None });
    assert_eq!(*flow.step(), RetryStep::DownloadSingle);
    assert_eq!(notes.notice, None);
}

#[test]
fn completion_is_signalled() {
    for (success, byte) in [(true, 0u8), (false, 1)] {
        let flow = DoneFlow::new(success);
        assert_eq!(flow.step(), DoneStep::Connect { attempt: 0 });
        let (flow, notes) = flow.advance(DoneEvent::Connected);
        assert_eq!(flow.step(), DoneStep::Open { attempt: 0 });
        assert_eq!(notes.pause_ms, 0);
        let (flow, _) = flow.advance(DoneEvent::Opened);
        assert_eq!(flow.step(), DoneStep::Send { status: byte });
        let (flow, notes) = flow.advance(DoneEvent::Sent);
        assert_eq!(flow.step(), DoneStep::Finished { sent: true });
        assert_eq!(notes.pause_ms, 500);
    }
}

#[test]
fn signal_is_tried_three_times() {
    let (flow, notes) = DoneFlow::new(true).advance(DoneEvent::ConnectTimedOut);
    assert_eq!(
        notes.warning.as_deref(),
        Some("warning: timed out notifying sender of completion (attempt 1/3)")
    );
    assert_eq!(notes.pause_ms, 0);
    let (flow, notes) = flow.advance(DoneEvent::ConnectFailed { error: "e".to_string() });
    assert_eq!(
        notes.warning.as_deref(),
        Some("warning: failed to notify sender of completion (connect, attempt 2/3): e")
    );
    assert_eq!(notes.pause_ms, 500);
    assert_eq!(flow.step(), DoneStep::Connect { attempt: 2 });
    let (flow, _) = flow.advance(DoneEvent::Connected);
    let (flow, notes) = flow.advance(DoneEvent::OpenFailed { error: "f".to_string() });
    assert_eq!(
        notes.warning.as_deref(),
        Some("warning: failed to notify sender of completion (open_bi, attempt 3/3): f")
    );
    assert_eq!(flow.step(), DoneStep::Finished { sent: false });
}
