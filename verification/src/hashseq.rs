//! The index of a transfer: the manifest's hash followed by one hash per file.
use vstd::prelude::*;

use crate::hash::{hashes_view, BlobHash};

verus! {

/// Length of a hash in the index.
pub const HASH_LEN: usize = 32;

/// A decoded index.
#[derive(Debug, PartialEq, Eq)]
pub struct Index {
    /// Hash of the manifest.
    pub manifest: BlobHash,
    /// Hashes of the files, in manifest order.
    pub files: Vec<BlobHash>,
}

/// Why bytes are not an index.
#[derive(Debug, Clone, Copy, PartialEq, Eq)]
pub enum IndexError {
    /// There is not even a manifest hash.
    TooShort,
    /// The length is not a multiple of the hash length.
    NotAligned,
}

impl IndexError {
    /// Human-readable description.
    pub fn message(&self) -> (r: String)
        ensures
            r@ == index_error_text(*self),
    {
        match self {
            IndexError::TooShort => "invalid hashseq: too short".to_owned(),
            IndexError::NotAligned => "invalid hashseq: not aligned".to_owned(),
        }
    }
}

/// Description of an index error.
pub open spec fn index_error_text(e: IndexError) -> Seq<char> {
    match e {
        IndexError::TooShort => "invalid hashseq: too short"@,
        IndexError::NotAligned => "invalid hashseq: not aligned"@,
    }
}

/// The bytes of `hashes`, one after the other.
pub open spec fn concatenated(hashes: Seq<Seq<u8>>) -> Seq<u8>
    decreases hashes.len(),
{
    if hashes.len() == 0 {
        Seq::empty()
    } else {
        concatenated(hashes.drop_last()) + hashes.last()
    }
}

/// The bytes of the index with the given manifest hash and file hashes.
pub open spec fn index_bytes(manifest: Seq<u8>, files: Seq<Seq<u8>>) -> Seq<u8> {
    manifest + concatenated(files)
}

/// The `i`th hash in the bytes of an index; the manifest's is the first.
pub open spec fn nth_hash(data: Seq<u8>, i: int) -> Seq<u8> {
    data.subrange(32 * i, 32 * i + 32)
}

/// Encode the index with the given manifest hash and file hashes.
pub fn encode_index(manifest: &BlobHash, files: &Vec<BlobHash>) -> (r: Vec<u8>)
    ensures
        r@ == index_bytes(manifest@, hashes_view(files@)),
{
    let mut all: Vec<u8> = Vec::new();
    all.extend_from_slice(manifest.bytes.as_slice());
    assert(all@ =~= manifest@);
    let ghost view = hashes_view(files@);
    assert(all@ =~= manifest@ + concatenated(view.take(0)));
    let mut i: usize = 0;
    while i < files.len()
        invariant
            i <= files.len(),
            view == hashes_view(files@),
            all@ == manifest@ + concatenated(view.take(i as int)),
        decreases files.len() - i,
    {
        let ghost before = all@;
        all.extend_from_slice(files[i].bytes.as_slice());
        proof {
            assert(all@ =~= before + files@[i as int]@);
            assert(view.take(i + 1).drop_last() =~= view.take(i as int));
            assert(all@ =~= manifest@ + (concatenated(view.take(i as int)) + files@[i as int]@));
        }
        i = i + 1;
    }
    assert(view.take(i as int) =~= view);
    all
}

/// Decode an index.
pub fn decode_index(data: &[u8]) -> (r: Result<Index, IndexError>)
    ensures
        r == Err::<Index, IndexError>(IndexError::TooShort) <==> data@.len() < 32,
        r == Err::<Index, IndexError>(IndexError::NotAligned) <==> data@.len() >= 32 && data@.len()
            % 32 != 0,
        r matches Ok(index) ==> {
            &&& index.manifest@ == nth_hash(data@, 0)
            &&& index.files@.len() == data@.len() / 32 - 1
            &&& forall|i: int|
                #![trigger index.files@[i]]
                0 <= i < index.files@.len() ==> index.files@[i]@ == nth_hash(data@, i + 1)
        },
{
    if data.len() < HASH_LEN {
        return Err(IndexError::TooShort);
    }
    if data.len() % HASH_LEN != 0 {
        return Err(IndexError::NotAligned);
    }
    let manifest = BlobHash::from_slice(data, 0);
    let len: usize = data.len();
    let count: usize = len / HASH_LEN - 1;
    let mut files: Vec<BlobHash> = Vec::new();
    let mut i: usize = 0;
    while i < count
        invariant
            i <= count,
            len == data@.len(),
            count == len / 32 - 1,
            len % 32 == 0,
            files@.len() == i,
            forall|k: int|
                #![trigger files@[k]]
                0 <= k < i ==> files@[k]@ == nth_hash(data@, k + 1),
        decreases count - i,
    {
        files.push(BlobHash::from_slice(data, HASH_LEN * (i + 1)));
        i = i + 1;
    }
    Ok(Index { manifest, files })
}

proof fn concatenated_len(hashes: Seq<Seq<u8>>)
    requires
        forall|i: int| 0 <= i < hashes.len() ==> (#[trigger] hashes[i]).len() == 32,
    ensures
        concatenated(hashes).len() == 32 * hashes.len(),
    decreases hashes.len(),
{
    if hashes.len() > 0 {
        concatenated_len(hashes.drop_last());
        assert(hashes.last() == hashes[hashes.len() - 1]);
    }
}

proof fn concatenated_nth(hashes: Seq<Seq<u8>>, i: int)
    requires
        forall|i: int| 0 <= i < hashes.len() ==> (#[trigger] hashes[i]).len() == 32,
        0 <= i < hashes.len(),
    ensures
        nth_hash(concatenated(hashes), i) == hashes[i],
    decreases hashes.len(),
{
    concatenated_len(hashes);
    concatenated_len(hashes.drop_last());
    if i == hashes.len() - 1 {
        assert(nth_hash(concatenated(hashes), i) =~= hashes.last());
    } else {
        concatenated_nth(hashes.drop_last(), i);
        assert(nth_hash(concatenated(hashes), i) =~= nth_hash(
            concatenated(hashes.drop_last()),
            i,
        ));
    }
}

/// What the sender encodes is what the receiver decodes: the index has room for
/// exactly the manifest hash and the file hashes, each in its place.
pub proof fn decode_after_encode(manifest: Seq<u8>, files: Seq<Seq<u8>>)
    requires
        manifest.len() == 32,
        forall|i: int| 0 <= i < files.len() ==> (#[trigger] files[i]).len() == 32,
    ensures
        ({
            let data = index_bytes(manifest, files);
            &&& data.len() >= 32
            &&& data.len() % 32 == 0
            &&& data.len() / 32 - 1 == files.len()
            &&& nth_hash(data, 0) == manifest
            &&& forall|i: int|
                #![trigger files[i]]
                0 <= i < files.len() ==> nth_hash(data, i + 1) == files[i]
        }),
{
    let data = index_bytes(manifest, files);
    concatenated_len(files);
    assert(nth_hash(data, 0) =~= manifest);
    assert forall|i: int| #![trigger files[i]] 0 <= i < files.len() implies nth_hash(data, i + 1)
        == files[i] by {
        concatenated_nth(files, i);
        assert(nth_hash(data, i + 1) =~= nth_hash(concatenated(files), i));
    }
}

/// An accepted index determines its bytes: encoding what was decoded gives the
/// same bytes again.
pub proof fn encode_after_decode(data: Seq<u8>, files: Seq<Seq<u8>>)
    requires
        data.len() >= 32,
        data.len() % 32 == 0,
        files.len() == data.len() / 32 - 1,
        forall|i: int|
            #![trigger files[i]]
            0 <= i < files.len() ==> files[i] == nth_hash(data, i + 1),
    ensures
        index_bytes(nth_hash(data, 0), files) == data,
    decreases files.len(),
{
    if files.len() == 0 {
        assert(index_bytes(nth_hash(data, 0), files) =~= data);
    } else {
        let shorter = data.take(data.len() - 32);
        let fewer = files.drop_last();
        assert forall|i: int| #![trigger fewer[i]] 0 <= i < fewer.len() implies fewer[i]
            == nth_hash(shorter, i + 1) by {
            assert(files[i] == nth_hash(data, i + 1));
            assert(nth_hash(shorter, i + 1) =~= nth_hash(data, i + 1));
        }
        assert(nth_hash(shorter, 0) =~= nth_hash(data, 0));
        encode_after_decode(shorter, fewer);
        assert(files.last() == nth_hash(data, files.len() as int));
        assert(index_bytes(nth_hash(data, 0), files) =~= shorter + files.last());
        assert(shorter + files.last() =~= data);
    }
}

/// The layout of an index: the manifest's hash first, then the hashes of the files in
/// order, 32 bytes each and nothing between them.
pub proof fn index_layout(manifest: Seq<u8>, files: Seq<Seq<u8>>)
    requires
        manifest.len() == 32,
        forall|i: int| 0 <= i < files.len() ==> (#[trigger] files[i]).len() == 32,
    ensures
        index_bytes(manifest, files).len() == 32 * (files.len() + 1),
        index_bytes(manifest, files).subrange(0, 32) == manifest,
        forall|i: int|
            #![trigger files[i]]
            0 <= i < files.len() ==> index_bytes(manifest, files).subrange(
                32 * (i + 1),
                32 * (i + 2),
            ) == files[i],
{
    let data = index_bytes(manifest, files);
    decode_after_encode(manifest, files);
    concatenated_len(files);
    assert(data.subrange(0, 32) =~= manifest);
    assert forall|i: int| #![trigger files[i]] 0 <= i < files.len() implies data.subrange(
        32 * (i + 1),
        32 * (i + 2),
    ) == files[i] by {
        assert(data.subrange(32 * (i + 1), 32 * (i + 2)) =~= nth_hash(data, i + 1));
    }
}

/// The hashes in an index are its bytes, 32 at a time.
pub proof fn hashes_are_read_in_place(data: Seq<u8>, i: int)
    requires
        0 <= i,
        32 * (i + 1) <= data.len(),
    ensures
        nth_hash(data, i) == data.subrange(32 * i, 32 * (i + 1)),
{
    assert(nth_hash(data, i) =~= data.subrange(32 * i, 32 * (i + 1)));
}

/// What is wrong with bytes that are no index is told in words.
pub proof fn index_errors_are_told(e: IndexError)
    ensures
        index_error_text(e) == (match e {
            IndexError::TooShort => "invalid hashseq: too short"@,
            IndexError::NotAligned => "invalid hashseq: not aligned"@,
        }),
{
}

} // verus!
