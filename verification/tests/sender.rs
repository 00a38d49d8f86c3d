use ftrans::completion::done_byte;
use ftrans::hash::BlobHash;
use ftrans::sender::{
    collect_files, done_status, found_message, import, index_context, is_indexable_file,
    outcome_message, require_paths, scan, wait_for_transfer, DirFile, ImportSource, ImportStep,
    Imported, ScanPath, ServeOutcome, WalkEntry, ALPN_DONE, ALPN_META,
};

fn hash(byte: u8) -> BlobHash {
    BlobHash { bytes: [byte; 32] }
}

fn entry(path: &str, is_file: bool, is_symlink: bool, size: Option<u64>) -> Option<WalkEntry<&str>> {
    Some(WalkEntry { path, is_file, is_symlink, target_is_file: path.ends_with("file"), size })
}

fn walk() -> Vec<Option<WalkEntry<&'static str>>> {
    vec![
        entry("dir", false, false, Some(4096)),
        entry("dir/a", true, false, Some(10)),
        None,
        entry("dir/link-to-file", false, true, Some(7)),
        entry("dir/link-to-dir", false, true, Some(9)),
        entry("dir/b", true, false, None),
    ]
}

#[test]
fn protocols_have_names() {
    assert_eq!(ALPN_DONE.as_bytes(), b"ftrans-done");
    assert_eq!(ALPN_META.as_bytes(), b"ftrans-meta");
}

#[test]
fn files_and_links_to_files_are_indexed() {
    assert!(is_indexable_file(true, false, true));
    assert!(is_indexable_file(true, false, false));
    assert!(is_indexable_file(false, true, true));
    assert!(!is_indexable_file(false, true, false));
    assert!(!is_indexable_file(false, false, true));
    assert!(!is_indexable_file(false, false, false));
}

#[test]
fn scan_finds_files_and_adds_up_their_sizes() {
    let paths = vec![
        ScanPath::File { path: "one", size: Some(100) },
        ScanPath::Other,
        ScanPath::Dir { entries: walk() },
        ScanPath::File { path: "two", size: None },
    ];
    let (files, total) = scan(paths);
    assert_eq!(files, vec!["one", "dir/a", "dir/link-to-file", "dir/b", "two"]);
    assert_eq!(total, 117);
    let nothing: Vec<ScanPath<&str>> = vec![];
    assert_eq!(scan(nothing), (vec![], 0));
}

#[test]
fn collected_files_are_those_of_the_walk() {
    assert_eq!(
        collect_files("dir", false, walk()),
        vec!["dir/a", "dir/link-to-file", "dir/b"]
    );
    assert_eq!(collect_files("one", true, walk()), vec!["one"]);
}

#[test]
fn index_errors_name_the_file() {
    assert_eq!(index_context("/a/b", true), "failed to index /a/b");
    assert_eq!(
        index_context("/a/b", false),
        "failed to index /a/b (file disappeared during indexing)"
    );
}

fn show(steps: Vec<ImportStep<u8>>) -> Vec<String> {
    steps
        .into_iter()
        .map(|s| match s {
            ImportStep::Add { path, name } => format!("add {} {}", path, name),
            ImportStep::Warn(t) => format!("warn {}", t),
            ImportStep::Fail(e) => format!("fail {}", e),
        })
        .collect()
}

#[test]
fn import_names_files_after_their_root() {
    let root = || Some("data".to_string());
    assert_eq!(show(import("/x/data", root(), ImportSource::File(1))), vec!["add 1 data"]);
    let files = vec![
        DirFile { path: 1, rel: Some("a.txt".to_string()) },
        DirFile { path: 2, rel: Some("sub\\b.txt".to_string()) },
        DirFile { path: 3, rel: Some("sub/c.txt".to_string()) },
        DirFile { path: 4, rel: None },
    ];
    assert_eq!(
        show(import("/x/data", root(), ImportSource::Dir(files))),
        vec!["add 1 data/a.txt", "add 2 data/sub/b.txt", "add 3 data/sub/c.txt", "fail strip prefix"]
    );
    assert_eq!(
        show(import("/x/data", root(), ImportSource::Other)),
        vec!["warn warning: skipping /x/data (not a file or directory)"]
    );
    assert_eq!(show(import("/", None, ImportSource::File(1))), vec!["fail invalid path"]);
}

#[test]
fn imported_files_have_their_hashes() {
    let imported = Imported::new()
        .with("a.txt".to_string(), hash(0xab))
        .with("b.txt".to_string(), hash(1));
    let manifest = imported.manifest();
    assert_eq!(manifest.root, "");
    assert_eq!(manifest.files.len(), 2);
    assert_eq!(manifest.files[0].path, "a.txt");
    assert_eq!(manifest.files[0].hash, "ab".repeat(32));
    assert_eq!(manifest.files[1].path, "b.txt");
    assert_eq!(manifest.files[1].hash, "01".repeat(32));
    let index = imported.index(&hash(9));
    assert_eq!(index, [[9u8; 32], [0xab; 32], [1; 32]].concat());
    assert_eq!(Imported::new().index(&hash(9)), vec![9u8; 32]);
    assert!(Imported::new().manifest().files.is_empty());
}

#[test]
fn signal_ends_the_session() {
    assert_eq!(wait_for_transfer(Some(0)), ServeOutcome::Completed);
    assert_eq!(wait_for_transfer(Some(1)), ServeOutcome::ReceiverError);
    assert_eq!(wait_for_transfer(Some(255)), ServeOutcome::ReceiverError);
    assert_eq!(wait_for_transfer(None), ServeOutcome::Interrupted);
    assert_eq!(wait_for_transfer(done_status(Some(done_byte(true)))), ServeOutcome::Completed);
    assert_eq!(
        wait_for_transfer(done_status(Some(done_byte(false)))),
        ServeOutcome::ReceiverError
    );
    assert_eq!(done_status(Some(7)), Some(7));
    // A connection that closes without a byte is no signal.
    assert_eq!(done_status(None), None);
}

#[test]
fn something_must_be_sent() {
    assert_eq!(require_paths(1), Ok(()));
    assert_eq!(require_paths(0), Err("at least one --path is required".to_string()));
}

#[test]
fn sender_reports_what_it_does() {
    assert_eq!(found_message(3, 1536), "Found 3 files, 1.5 KB total");
    assert_eq!(
        outcome_message(ServeOutcome::Completed, 3, 1536),
        "\nTransfer complete! All 3 files (1.5 KB total) were sent."
    );
    assert_eq!(
        outcome_message(ServeOutcome::ReceiverError, 3, 1536),
        "\nReceiver ended the session with an error."
    );
    assert_eq!(outcome_message(ServeOutcome::Interrupted, 3, 1536), "Shutting down...\nDone.");
}
