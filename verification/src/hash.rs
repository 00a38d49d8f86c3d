//! BLAKE3 hashes of file contents.
use vstd::prelude::*;

use crate::text;

verus! {

/// A BLAKE3 hash: 32 bytes.
#[derive(Debug, Clone, Copy, PartialEq, Eq)]
pub struct BlobHash {
    pub bytes: [u8; 32],
}

impl View for BlobHash {
    type V = Seq<u8>;

    open spec fn view(&self) -> Seq<u8> {
        self.bytes@
    }
}

/// The contents of a list of hashes.
pub open spec fn hashes_view(hashes: Seq<BlobHash>) -> Seq<Seq<u8>> {
    hashes.map_values(|h: BlobHash| h@)
}

/// The BLAKE3 digest of `data`.
pub uninterp spec fn blake3(data: Seq<u8>) -> Seq<u8>;

/// `iroh_blobs::Hash::new`, read back with `Hash::as_bytes`. Claimed: the digest
/// depends on `data` alone. Its length of 32 bytes is in the result's type.
#[verifier::external_body]
pub(crate) fn blake3_hash(data: &[u8]) -> (r: BlobHash)
    ensures
        r@ == blake3(data@),
{
    BlobHash { bytes: *iroh_blobs::Hash::new(data).as_bytes() }
}

impl BlobHash {
    /// The hash whose bytes are `data[from..from + 32]`.
    pub fn from_slice(data: &[u8], from: usize) -> (r: BlobHash)
        requires
            from + 32 <= data@.len(),
        ensures
            r@ == data@.subrange(from as int, from + 32),
    {
        let len: usize = data.len();
        let mut bytes: [u8; 32] = [0u8; 32];
        let mut i: usize = 0;
        while i < 32
            invariant
                i <= 32,
                len == data@.len(),
                from + 32 <= len,
                forall|k: int| 0 <= k < i ==> bytes@[k] == data@[from + k],
            decreases 32 - i,
        {
            bytes[i] = data[from + i];
            i = i + 1;
        }
        let r = BlobHash { bytes };
        assert(r@ =~= data@.subrange(from as int, from + 32));
        r
    }

    /// Lower case hexadecimal form.
    pub fn to_hex(&self) -> (r: String)
        ensures
            r@ == text::hex(self@),
    {
        text::hex_of(self.bytes.as_slice())
    }

    /// Whether both hashes have the same bytes.
    pub fn same(&self, other: &BlobHash) -> (r: bool)
        ensures
            r == (self@ == other@),
    {
        let mut i: usize = 0;
        while i < 32
            invariant
                i <= 32,
                forall|k: int| 0 <= k < i ==> self.bytes@[k] == other.bytes@[k],
            decreases 32 - i,
        {
            if self.bytes[i] != other.bytes[i] {
                assert(self@[i as int] != other@[i as int]);
                return false;
            }
            i = i + 1;
        }
        assert(self@ =~= other@);
        true
    }
}

} // verus!
