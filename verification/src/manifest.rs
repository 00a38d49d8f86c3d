//! The manifest of a transfer: which files it holds, under which paths.
use vstd::prelude::*;

use crate::text;

verus! {

/// One file of a transfer.
#[derive(Debug, PartialEq, Eq)]
pub struct FileEntry {
    /// Path relative to the receiver's output directory, with `/` separators.
    pub path: String,
    /// Hash of the contents, in lower case hexadecimal.
    pub hash: String,
}

/// All files of a transfer, in the order of the index.
#[derive(Debug, PartialEq, Eq)]
pub struct Manifest {
    pub root: String,
    pub files: Vec<FileEntry>,
}

/// What a [`FileEntry`] says.
#[verifier::ext_equal]
pub struct EntryView {
    pub path: Seq<char>,
    pub hash: Seq<char>,
}

impl View for FileEntry {
    type V = EntryView;

    open spec fn view(&self) -> EntryView {
        EntryView { path: self.path@, hash: self.hash@ }
    }
}

/// What a list of entries says.
pub open spec fn entries(files: Seq<FileEntry>) -> Seq<EntryView> {
    files.map_values(|f: FileEntry| f@)
}

/// The paths of a list of entries.
pub open spec fn paths(files: Seq<EntryView>) -> Seq<Seq<char>> {
    files.map_values(|f: EntryView| f.path)
}

impl FileEntry {
    /// An entry that says the same.
    pub fn copy(&self) -> (r: FileEntry)
        ensures
            r@ == self@,
    {
        FileEntry { path: self.path.clone(), hash: self.hash.clone() }
    }
}

/// `p` without its first segment. A path of one segment stays as it is, and so
/// does one whose only slash is at its end.
pub open spec fn stripped(p: Seq<char>) -> Seq<char> {
    match p.index_of_first('/') {
        Some(i) => if i + 1 < p.len() {
            p.skip(i + 1)
        } else {
            p
        },
        None => p,
    }
}

/// Remove the leading "{source-root}/" segment from a manifest path.
pub fn strip_root_path(p: &str) -> (r: String)
    ensures
        r@ == stripped(p@),
{
    let chars = text::chars_of(p);
    let mut i: usize = 0;
    while i < chars.len()
        invariant
            i <= chars.len(),
            chars@ == p@,
            forall|k: int| 0 <= k < i ==> p@[k] != '/',
        decreases chars.len() - i,
    {
        if chars[i] == '/' {
            proof {
                p@.index_of_first_ensures('/');
                assert(p@.contains('/'));
                let first = p@.index_of_first('/')->0;
                assert(p@[first] == '/');
                assert(first == i);
            }
            if i + 1 < chars.len() {
                return p.substring_char(i + 1, chars.len()).to_owned();
            } else {
                return p.to_owned();
            }
        }
        i = i + 1;
    }
    proof {
        p@.index_of_first_ensures('/');
    }
    p.to_owned()
}

/// An entry with the first segment of its path removed.
pub open spec fn stripped_entry(e: EntryView) -> EntryView {
    EntryView { path: stripped(e.path), hash: e.hash }
}

/// The entries that a receiver works with: with `strip_root` the first segment
/// of every path is removed.
pub open spec fn prepared(files: Seq<EntryView>, strip_root: bool) -> Seq<EntryView> {
    if strip_root {
        files.map_values(|e: EntryView| stripped_entry(e))
    } else {
        files
    }
}

/// Apply `--strip-root` to the manifest paths if requested.
pub fn prepare_manifest(manifest: Manifest, strip_root: bool) -> (r: Manifest)
    ensures
        r.root@ == manifest.root@,
        entries(r.files@) == prepared(entries(manifest.files@), strip_root),
{
    if !strip_root {
        return manifest;
    }
    let mut files: Vec<FileEntry> = Vec::new();
    let mut i: usize = 0;
    while i < manifest.files.len()
        invariant
            i <= manifest.files.len(),
            files@.len() == i,
            forall|k: int|
                0 <= k < i ==> (#[trigger] files@[k])@ == stripped_entry(manifest.files@[k]@),
        decreases manifest.files.len() - i,
    {
        let entry = &manifest.files[i];
        files.push(
            FileEntry { path: strip_root_path(entry.path.as_str()), hash: entry.hash.clone() },
        );
        i = i + 1;
    }
    proof {
        let all = entries(manifest.files@);
        assert(entries(files@) =~= all.map_values(|e: EntryView| stripped_entry(e)));
    }
    Manifest { root: manifest.root, files }
}

/// `s` with every backslash replaced by a slash.
pub open spec fn forward_slashes(s: Seq<char>) -> Seq<char> {
    s.map_values(
        |c: char|
            if c == '\\' {
                '/'
            } else {
                c
            },
    )
}

/// The manifest path of the file at `rel` under the source directory `root`.
pub open spec fn joined_path(root: Seq<char>, rel: Seq<char>) -> Seq<char> {
    root + "/"@ + forward_slashes(rel)
}

/// The manifest path of the file at `rel` under the source directory `root`.
pub fn manifest_path(root: &str, rel: &str) -> (r: String)
    ensures
        r@ == joined_path(root@, rel@),
{
    let mut r: String = root.to_owned();
    r.append("/");
    let chars = text::chars_of(rel);
    let ghost start = r@;
    assert(r@ =~= start + forward_slashes(rel@).take(0));
    let mut i: usize = 0;
    while i < chars.len()
        invariant
            i <= chars.len(),
            chars@ == rel@,
            r@ == start + forward_slashes(rel@).take(i as int),
        decreases chars.len() - i,
    {
        if chars[i] == '\\' {
            r.push('/');
        } else {
            r.push(chars[i]);
        }
        proof {
            assert(forward_slashes(rel@).take(i + 1) =~= forward_slashes(rel@).take(i as int).push(
                forward_slashes(rel@)[i as int],
            ));
        }
        i = i + 1;
    }
    assert(forward_slashes(rel@).take(i as int) =~= forward_slashes(rel@));
    r
}

/// Stripping the root undoes putting a file under its source directory: what
/// the receiver gets is the path inside that directory.
pub proof fn strip_undoes_root(root: Seq<char>, rel: Seq<char>)
    requires
        !root.contains('/'),
        rel.len() > 0,
    ensures
        stripped(joined_path(root, rel)) == forward_slashes(rel),
{
    reveal_strlit("/");
    let p = joined_path(root, rel);
    let n = root.len() as int;
    assert(p[n] == '/');
    p.index_of_first_ensures('/');
    assert(p.contains('/'));
    let first = p.index_of_first('/')->0;
    assert(first <= n);
    if first < n {
        assert(root[first] == '/');
        assert(root.contains('/'));
    }
    assert(p.skip(n + 1) =~= forward_slashes(rel));
}

/// Stripping the root leaves a path of one segment as it is.
pub proof fn strip_keeps_single_segment(p: Seq<char>)
    requires
        !p.contains('/'),
    ensures
        stripped(p) == p,
{
    p.index_of_first_ensures('/');
}

/// Only backslashes change in a relative path: the manifest path is the root, a slash,
/// and then each character of the relative path in its place, with a slash for each
/// backslash.
pub proof fn only_backslashes_change(root: Seq<char>, rel: Seq<char>)
    ensures
        joined_path(root, rel).len() == root.len() + 1 + rel.len(),
        joined_path(root, rel).take(root.len() as int) == root,
        joined_path(root, rel)[root.len() as int] == '/',
        forall|i: int|
            #![trigger rel[i]]
            0 <= i < rel.len() ==> joined_path(root, rel)[root.len() + 1 + i] == if rel[i]
                == '\\' {
                '/'
            } else {
                rel[i]
            },
        !rel.contains('\\') ==> joined_path(root, rel) == root + seq!['/'] + rel,
{
    reveal_strlit("/");
    assert(joined_path(root, rel).take(root.len() as int) =~= root);
    if !rel.contains('\\') {
        assert forall|i: int| 0 <= i < rel.len() implies rel[i] != '\\' by {
            if rel[i] == '\\' {
                assert(rel.contains('\\'));
            }
        }
        assert(joined_path(root, rel) =~= root + seq!['/'] + rel);
    }
}

/// Stripping the root takes off everything up to the first slash, unless nothing would
/// be left; a path without a slash stays as it is.
pub proof fn strip_takes_off_the_first_segment(first: Seq<char>, rest: Seq<char>)
    requires
        !first.contains('/'),
    ensures
        stripped(first + seq!['/'] + rest) == if rest.len() > 0 {
            rest
        } else {
            first + seq!['/']
        },
        stripped(first) == first,
{
    let p = first + seq!['/'] + rest;
    let n = first.len() as int;
    strip_keeps_single_segment(first);
    assert(p[n] == '/');
    assert(p.contains('/'));
    p.index_of_first_ensures('/');
    let at = p.index_of_first('/')->0;
    assert(at <= n);
    if at < n {
        assert(first[at] == '/');
    }
    assert(p.skip(n + 1) =~= rest);
    if rest.len() == 0 {
        assert(p =~= first + seq!['/']);
    }
}

/// What a receiver works with is the manifest's own entries, unless the root is to be
/// stripped: then each entry keeps its place and its hash, and its path loses its first
/// segment.
pub proof fn only_paths_are_prepared(files: Seq<EntryView>, strip_root: bool)
    ensures
        !strip_root ==> prepared(files, strip_root) == files,
        prepared(files, strip_root).len() == files.len(),
        forall|i: int|
            #![trigger files[i]]
            0 <= i < files.len() ==> {
                &&& prepared(files, strip_root)[i].hash == files[i].hash
                &&& strip_root ==> prepared(files, strip_root)[i].path == stripped(files[i].path)
            },
{
}

/// A list of entries says of each what its file entry holds.
pub proof fn entries_hold_it_all(files: Seq<FileEntry>)
    ensures
        entries(files).len() == files.len(),
        paths(entries(files)).len() == files.len(),
        forall|i: int|
            #![trigger files[i]]
            0 <= i < files.len() ==> {
                &&& entries(files)[i].path == files[i].path@
                &&& entries(files)[i].hash == files[i].hash@
                &&& paths(entries(files))[i] == files[i].path@
            },
{
}

} // verus!
