use sha2::Digest;
use vstd::prelude::*;

use crate::error::DownloadError;
use crate::text::{lower_of, lowercase};

verus! {

/// Whether two hex digests are equal, ignoring case.
pub fn digests_match(actual: &str, expected: &str) -> (r: bool)
    ensures
        r == (lower_of(actual@) == lower_of(expected@)),
{
    let a = lowercase(actual);
    let e = lowercase(expected);
    a == e
}

/// Compares the digest of the finished file with the expected one.
pub fn check_digest(expected: &str, actual: &str) -> (r: Result<(), DownloadError>)
    ensures
        r is Ok <==> lower_of(actual@) == lower_of(expected@),
        r matches Err(e) ==> e matches DownloadError::HashMismatch { expected: x, actual: y }
            && x@ == expected@ && y@ == actual@,
{
    if digests_match(actual, expected) {
        Ok(())
    } else {
        Err(
            DownloadError::HashMismatch {
                expected: String::from_str(expected),
                actual: String::from_str(actual),
            },
        )
    }
}

/// A SHA-256 computation in progress. Verus cannot declare sha2's hasher type, which is
/// built from typenum types, so the hasher sits here unseen; `hashed_bytes` names what it
/// has absorbed.
#[verifier::external_body]
pub struct Sha256State {
    inner: sha2::Sha256,
}

/// The bytes a SHA-256 computation has absorbed, in order.
pub uninterp spec fn hashed_bytes(s: Sha256State) -> Seq<u8>;

/// The lowercase hexadecimal SHA-256 digest of a byte sequence.
pub uninterp spec fn sha256_hex_of(data: Seq<u8>) -> Seq<char>;

/// Relies on `Digest::new` for `sha2::Sha256`: a hasher that has absorbed nothing.
#[verifier::external_body]
pub(crate) fn sha256_start() -> (r: Sha256State)
    ensures
        hashed_bytes(r) == Seq::<u8>::empty(),
{
    Sha256State { inner: sha2::Sha256::new() }
}

/// Relies on `Digest::update` for `sha2::Sha256`: the bytes are appended to what the
/// hasher has absorbed.
#[verifier::external_body]
pub(crate) fn sha256_feed(s: &mut Sha256State, data: &[u8])
    ensures
        hashed_bytes(*final(s)) == hashed_bytes(*old(s)) + data@,
{
    s.inner.update(data);
}

/// Relies on `Digest::finalize` for `sha2::Sha256` and on generic-array's `LowerHex`,
/// which without a precision writes two lowercase hex digits for each of the 32 bytes.
#[verifier::external_body]
pub(crate) fn sha256_hex(s: Sha256State) -> (r: String)
    ensures
        r@ == sha256_hex_of(hashed_bytes(s)),
        r@.len() == 64,
        forall|i: int| 0 <= i < 64 ==> ('0' <= #[trigger] r@[i] <= '9' || 'a' <= r@[i] <= 'f'),
{
    format!("{:x}", s.inner.finalize())
}

/// The content hasher of a finished download: fed the file piece by piece, in file
/// order, it gives the lowercase hex SHA-256 of everything fed.
pub struct ContentHasher {
    state: Sha256State,
}

impl ContentHasher {
    /// The bytes fed so far.
    pub closed spec fn input(&self) -> Seq<u8> {
        hashed_bytes(self.state)
    }

    pub fn new() -> (r: ContentHasher)
        ensures
            r.input() == Seq::<u8>::empty(),
    {
        ContentHasher { state: sha256_start() }
    }

    /// Feeds the next piece of the file.
    pub fn update(&mut self, data: &[u8])
        ensures
            final(self).input() == old(self).input() + data@,
    {
        sha256_feed(&mut self.state, data);
    }

    /// The digest of everything fed: 64 lowercase hex digits.
    pub fn finish(self) -> (r: String)
        ensures
            r@ == sha256_hex_of(self.input()),
            r@.len() == 64,
            forall|i: int| 0 <= i < 64 ==> ('0' <= #[trigger] r@[i] <= '9' || 'a' <= r@[i] <= 'f'),
    {
        sha256_hex(self.state)
    }
}

} // verus!
