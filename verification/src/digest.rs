//! SHA-256 digests of streamed bytes.
use vstd::prelude::*;
use crate::hex;

verus! {

/// The bytes that a hasher was fed so far.
pub uninterp spec fn absorbed(hasher: Sha256Stream) -> Seq<u8>;

/// The SHA-256 digest of the bytes, in lowercase hexadecimal.
pub uninterp spec fn sha256_hex(bytes: Seq<u8>) -> Seq<char>;

/// A `sha2::Sha256` hasher that is fed piece by piece.
#[verifier::external_body]
pub struct Sha256Stream {
    hasher: sha2::Sha256,
}

impl Sha256Stream {
    /// `Sha256::new` makes a hasher that was fed nothing.
    #[verifier::external_body]
    pub(crate) fn start() -> (hasher: Self)
        ensures
            absorbed(hasher) == Seq::<u8>::empty(),
    {
        Sha256Stream { hasher: sha2::Digest::new() }
    }

    /// `Digest::update` feeds the hasher the piece after all that it was fed before.
    #[verifier::external_body]
    pub(crate) fn feed(&mut self, piece: &[u8])
        ensures
            absorbed(*final(self)) == absorbed(*old(self)) + piece@,
    {
        sha2::Digest::update(&mut self.hasher, piece);
    }

    /// `Digest::finalize` gives the SHA-256 digest of all that the hasher was fed: 32 bytes, which
    /// `{:x}` writes as two lowercase hexadecimal digits each.
    #[verifier::external_body]
    pub(crate) fn finish(self) -> (digest: String)
        ensures
            digest@ == sha256_hex(absorbed(self)),
            hex::is_lower_hex_text(digest@, 64),
    {
        format!("{:x}", sha2::Digest::finalize(self.hasher))
    }
}

} // verus!
