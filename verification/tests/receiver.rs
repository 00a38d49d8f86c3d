use ftrans::failed_list::{parse_failed_list, retried_listing, PathSet, FAILED_LIST};
use ftrans::hash::BlobHash;
use ftrans::hashseq::{decode_index, encode_index, IndexError};
use ftrans::manifest::{manifest_path, prepare_manifest, strip_root_path, FileEntry, Manifest};
use ftrans::receiver::{
    check_exported_files, download_files, download_streams, export_hashseq,
    fetch_index_and_manifest, load_transfer, require_downloaded, select_for_verify, verify,
    verify_single, FileCheck, FileStatus, LoadError, TransferInfo,
};
use ftrans::sender::Imported;

fn hash_of(data: &[u8]) -> BlobHash {
    BlobHash { bytes: *iroh_blobs::Hash::new(data).as_bytes() }
}

fn sent(files: &[(&str, &[u8])]) -> (Vec<u8>, Manifest) {
    let mut imported = Imported::new();
    for (name, data) in files {
        imported = imported.with(name.to_string(), hash_of(data));
    }
    (imported.index(&hash_of(b"manifest")), imported.manifest())
}

fn loaded(files: &[(&str, &[u8])], strip_root: bool) -> TransferInfo {
    let (index, manifest) = sent(files);
    load_transfer(&index, Some(manifest), strip_root).unwrap()
}

fn found(path: &str, data: &[u8]) -> FileCheck {
    FileCheck {
        dest: format!("/out/{}", path),
        status: FileStatus::Hashed { hash: hash_of(data) },
    }
}

fn set(paths: &[&str]) -> PathSet {
    let mut r = PathSet::new();
    for p in paths {
        r = r.with(p.to_string());
    }
    r
}

fn three() -> Vec<(&'static str, &'static [u8])> {
    vec![("src/a.txt", b"aaa"), ("src/b.txt", b"bbb"), ("src/c.txt", b"ccc")]
}

#[test]
fn verify_reports_all_failures() {
    let info = loaded(&three(), false);
    let selected = select_for_verify(&info, None).unwrap();
    let checks = vec![
        found("src/a.txt", b"corrupted-a"),
        found("src/b.txt", b"corrupted-b"),
        found("src/c.txt", b"ccc"),
    ];
    let err = verify(&selected, &checks).unwrap_err();
    let msg = &err.message;
    assert!(msg.contains("failed verification"), "got: {}", msg);
    assert!(msg.contains("a.txt"), "a.txt should be listed: {}", msg);
    assert!(msg.contains("b.txt"), "b.txt should be listed: {}", msg);
    assert!(!msg.contains("c.txt"), "c.txt must not be listed as failed: {}", msg);
    assert_eq!(err.list, "src/a.txt\nsrc/b.txt");
    assert_eq!(err.failed, set(&["src/a.txt", "src/b.txt"]));
    assert_eq!(
        *msg,
        format!(
            "2/3 files failed verification:\
             \n  - checksum mismatch: /out/src/a.txt (expected {}, got {})\
             \n  - checksum mismatch: /out/src/b.txt (expected {}, got {})",
            hash_of(b"aaa").to_hex(),
            hash_of(b"corrupted-a").to_hex(),
            hash_of(b"bbb").to_hex(),
            hash_of(b"corrupted-b").to_hex()
        )
    );

    // Once the files are restored, a filtered check over just those passes.
    let only = parse_failed_list(&err.list, &sent(&three()).1.files);
    let selected = select_for_verify(&info, Some(&only)).unwrap();
    assert_eq!(selected.len(), 2);
    let checks = vec![found("src/a.txt", b"aaa"), found("src/b.txt", b"bbb")];
    assert_eq!(verify(&selected, &checks), Ok("All 2 files verified.".to_string()));
}

#[test]
fn strip_root_exports_without_source_folder() {
    let files: Vec<(&str, &[u8])> = vec![("src/top.txt", b"top"), ("src/sub/nested.txt", b"nested")];
    let info = loaded(&files, true);
    let plan = export_hashseq(&info, "/out", None).unwrap();
    let paths: Vec<&str> = plan.targets.iter().map(|t| t.path.as_str()).collect();
    assert_eq!(paths, vec!["top.txt", "sub/nested.txt"]);
    assert_eq!(plan.notice, "Exporting 2 files to /out...");
    let selected = select_for_verify(&info, None).unwrap();
    let checks = vec![found("top.txt", b"top"), found("sub/nested.txt", b"nested")];
    assert!(verify(&selected, &checks).is_ok());
}

#[test]
fn missing_and_unreadable_files_fail() {
    let info = loaded(&three(), false);
    let selected = select_for_verify(&info, None).unwrap();
    let checks = vec![
        FileCheck { dest: "/out/a".to_string(), status: FileStatus::Missing },
        FileCheck {
            dest: "/out/b".to_string(),
            status: FileStatus::Unreadable { cause: "denied".to_string() },
        },
        found("src/c.txt", b"ccc"),
    ];
    let failures = check_exported_files(&selected, &checks);
    assert_eq!(failures.len(), 2);
    assert_eq!(failures[0].path, "src/a.txt");
    assert_eq!(failures[0].detail, "missing: /out/a");
    assert_eq!(failures[1].path, "src/b.txt");
    assert_eq!(failures[1].detail, "read error: /out/b (denied)");
}

#[test]
fn sent_transfer_is_received() {
    let (index, manifest) = sent(&three());
    let (got, hashes) = fetch_index_and_manifest(&index, manifest, false).unwrap();
    let names: Vec<&str> = got.files.iter().map(|f| f.path.as_str()).collect();
    assert_eq!(names, vec!["src/a.txt", "src/b.txt", "src/c.txt"]);
    assert_eq!(hashes, vec![hash_of(b"aaa"), hash_of(b"bbb"), hash_of(b"ccc")]);
    let plan = download_files(&got, &hashes, None, 8);
    assert_eq!(plan.targets.len(), 3);
    assert_eq!(plan.notice, "downloading 3 files (8 parallel streams)...");
    assert_eq!(plan.streams, 8);
    let plan = download_files(&got, &hashes, Some(&set(&["src/b.txt", "other"])), 2);
    assert_eq!(plan.targets.len(), 1);
    assert_eq!(plan.targets[0].path, "src/b.txt");
    assert_eq!(plan.targets[0].hash, hash_of(b"bbb"));
    assert_eq!(plan.notice, "downloading 1 files (2 parallel streams)...");
}

#[test]
fn at_least_one_stream_is_used() {
    assert_eq!(download_streams(0), 1);
    assert_eq!(download_streams(1), 1);
    assert_eq!(download_streams(8), 8);
}

#[test]
fn index_round_trips() {
    let manifest = hash_of(b"m");
    let files = vec![hash_of(b"1"), hash_of(b"2")];
    let data = encode_index(&manifest, &files);
    assert_eq!(data.len(), 96);
    let index = decode_index(&data).unwrap();
    assert_eq!(index.manifest, manifest);
    assert_eq!(index.files, files);
    assert_eq!(encode_index(&index.manifest, &index.files), data);
}

#[test]
fn malformed_indexes_are_refused() {
    assert_eq!(decode_index(&[0; 31]), Err(IndexError::TooShort));
    assert_eq!(decode_index(&[]), Err(IndexError::TooShort));
    assert_eq!(decode_index(&[0; 33]), Err(IndexError::NotAligned));
    assert_eq!(IndexError::TooShort.message(), "invalid hashseq: too short");
    assert_eq!(IndexError::NotAligned.message(), "invalid hashseq: not aligned");
    let empty = || Manifest { root: String::new(), files: vec![] };
    assert_eq!(
        fetch_index_and_manifest(&[0; 33], empty(), false),
        Err(IndexError::NotAligned)
    );
    assert_eq!(
        load_transfer(&[0; 5], None, false),
        Err(LoadError::BadIndex(IndexError::TooShort))
    );
    assert_eq!(
        LoadError::BadIndex(IndexError::TooShort).message(),
        "invalid hashseq: too short"
    );
}

#[test]
fn incomplete_transfers_are_refused() {
    let (index, manifest) = sent(&three());
    let e = load_transfer(&index, None, false).unwrap_err();
    assert_eq!(e, LoadError::ManifestMissing);
    assert_eq!(e.message(), "manifest blob not downloaded");
    let e = load_transfer(&index[..64], Some(manifest), false).unwrap_err();
    assert_eq!(e, LoadError::CountMismatch { files: 3, hashes: 1 });
    assert_eq!(e.message(), "manifest/file count mismatch: 3 vs 1");
}

#[test]
fn stale_retry_list_is_reported() {
    let info = loaded(&three(), false);
    let only = set(&["gone", "away"]);
    let e = export_hashseq(&info, "/out", Some(&only)).unwrap_err();
    assert_eq!(
        e.message(),
        "none of the 2 requested file(s) matched the manifest (manifest paths e.g.: \
         [\"src/a.txt\", \"src/b.txt\", \"src/c.txt\"]); the retry list may be stale or malformed"
    );
    assert_eq!(select_for_verify(&info, Some(&only)).unwrap_err(), e);
    assert!(export_hashseq(&info, "/out", Some(&set(&["src/a.txt"]))).is_ok());
    let nothing = loaded(&[], false);
    assert!(export_hashseq(&nothing, "/out", None).is_ok());
}

#[test]
fn contents_must_be_in_the_store() {
    assert_eq!(require_downloaded("a", true), Ok(()));
    assert_eq!(require_downloaded("a", false), Err("file blob not downloaded: a".to_string()));
}

#[test]
fn single_file_is_compared_by_hash() {
    let a = hash_of(b"a");
    let b = hash_of(b"b");
    assert_eq!(verify_single(&a, &a), Ok("File verified.".to_string()));
    assert_eq!(
        verify_single(&a, &b),
        Err(format!("checksum mismatch: expected {}, got {}", a.to_hex(), b.to_hex()))
    );
    assert_eq!(a.to_hex(), iroh_blobs::Hash::new(b"a").to_hex());
}

#[test]
fn root_is_stripped_from_paths() {
    assert_eq!(strip_root_path("src/a.txt"), "a.txt");
    assert_eq!(strip_root_path("src/sub/a.txt"), "sub/a.txt");
    assert_eq!(strip_root_path("a.txt"), "a.txt");
    assert_eq!(strip_root_path("src/"), "src/");
    assert_eq!(strip_root_path("/a"), "a");
    assert_eq!(strip_root_path(""), "");
    assert_eq!(strip_root_path(&manifest_path("src", "sub\\a.txt")), "sub/a.txt");
    let manifest = || Manifest {
        root: "r".to_string(),
        files: vec![FileEntry { path: "src/a".to_string(), hash: "h".to_string() }],
    };
    assert_eq!(prepare_manifest(manifest(), false), manifest());
    let stripped = prepare_manifest(manifest(), true);
    assert_eq!(stripped.root, "r");
    assert_eq!(stripped.files, vec![FileEntry { path: "a".to_string(), hash: "h".to_string() }]);
}

#[test]
fn failed_list_is_read_line_by_line() {
    assert_eq!(FAILED_LIST, "ftrans-failed.txt");
    let known = sent(&three()).1.files;
    let files = parse_failed_list("b\r\n\n  a \nb\n\t\nc/d", &known);
    assert_eq!(files.sorted(), vec!["a".to_string(), "b".to_string(), "c/d".to_string()]);
    assert_eq!(files.len(), 3);
    assert!(files.contains("c/d"));
    assert!(!files.contains(" a "));
    assert!(parse_failed_list(" \n\n", &known).is_empty());
    assert_eq!(
        parse_failed_list(" src/a.txt ", &known).sorted(),
        vec!["src/a.txt".to_string()]
    );
}

#[test]
fn odd_paths_survive_the_list() {
    let files: Vec<(&str, &[u8])> = vec![("a ", b"1"), ("a", b"2"), (" ", b"3"), ("b\r", b"4")];
    let info = loaded(&files, false);
    let selected = select_for_verify(&info, None).unwrap();
    let checks = vec![found("a ", b"x"), found("a", b"2"), found(" ", b"x"), found("b\r", b"x")];
    let err = verify(&selected, &checks).unwrap_err();
    assert_eq!(err.failed, set(&["a ", " ", "b\r"]));
    assert_eq!(err.list, "a \n \nb\r");
    let read = parse_failed_list(&err.list, &sent(&files).1.files);
    assert_eq!(read, set(&["a ", " ", "b\r"]));
}

#[test]
fn list_holds_every_failing_path() {
    let files: Vec<(&str, &[u8])> = vec![("a\nb", b"1"), ("c", b"2")];
    let selected = select_for_verify(&loaded(&files, false), None).unwrap();
    let checks = vec![found("a\nb", b"x"), found("c", b"x")];
    let err = verify(&selected, &checks).unwrap_err();
    assert_eq!(err.list, "a\nb\nc");
    assert_eq!(err.failed, set(&["a\nb", "c"]));
}

#[test]
fn retried_files_are_listed_in_order() {
    assert_eq!(
        retried_listing(&set(&["b", "a", "B"])),
        "Retrying these file(s):\n  - B\n  - a\n  - b"
    );
}
