//! Counting and hashing the bytes that stream through an install: the
//! SHA-256 of the downloaded and of the written image, in lower-case hex.

use vstd::prelude::*;

verus! {

#[verifier::external_type_specification]
#[verifier::external_body]
pub struct ExSha256(sha2::Sha256);

/// The bytes a `sha2::Sha256` hasher has been fed since it was created.
pub uninterp spec fn sha256_input(h: sha2::Sha256) -> Seq<u8>;

/// The SHA-256 digest of a byte sequence (FIPS 180-4), 32 bytes.
pub uninterp spec fn sha256_of(data: Seq<u8>) -> Seq<u8>;

/// `Digest::new` of `sha2::Sha256`: a hasher that has been fed nothing.
#[verifier::external_body]
fn sha256_new() -> (h: sha2::Sha256)
    ensures
        sha256_input(h) == Seq::<u8>::empty(),
{
    <sha2::Sha256 as sha2::Digest>::new()
}

/// `Digest::update` of `sha2::Sha256`: feeds `data` after what the hasher
/// was fed before.
#[verifier::external_body]
fn sha256_update(h: &mut sha2::Sha256, data: &[u8])
    ensures
        sha256_input(*final(h)) == sha256_input(*old(h)) + data@,
{
    <sha2::Sha256 as sha2::Digest>::update(h, data)
}

/// `Digest::finalize` of a copy of the hasher: the SHA-256 digest of
/// everything it was fed. The hasher itself is left as it was.
#[verifier::external_body]
fn sha256_digest(h: &sha2::Sha256) -> (r: Vec<u8>)
    ensures
        r@ == sha256_of(sha256_input(*h)),
{
    <sha2::Sha256 as sha2::Digest>::finalize(h.clone()).to_vec()
}

/// The lower-case hex digit of a value below 16.
pub open spec fn hex_digit(d: u8) -> char {
    if d < 10 {
        (('0' as u32) + (d as u32)) as char
    } else {
        (('a' as u32) + (d as u32) - 10) as char
    }
}

/// Two lower-case hex digits per byte, high half first.
pub open spec fn hex_text(bytes: Seq<u8>) -> Seq<char> {
    Seq::new(
        2 * bytes.len(),
        |i: int|
            if i % 2 == 0 {
                hex_digit(bytes[i / 2] / 16)
            } else {
                hex_digit(bytes[i / 2] % 16)
            },
    )
}

/// `hex::encode`: two lower-case hex digits per byte, high half first.
#[verifier::external_body]
fn hex_encode(bytes: &[u8]) -> (r: String)
    ensures
        r@ == hex_text(bytes@),
{
    hex::encode(bytes)
}

/// A running count and SHA-256 of the bytes that passed.
pub struct HashTally {
    hasher: sha2::Sha256,
    bytes_read: u64,
}

impl View for HashTally {
    type V = Seq<u8>;

    /// The bytes that passed.
    closed spec fn view(&self) -> Seq<u8> {
        sha256_input(self.hasher)
    }
}

impl HashTally {
    /// The count agrees with the bytes that passed.
    pub closed spec fn wf(&self) -> bool {
        self.bytes_read == sha256_input(self.hasher).len()
    }

    /// Nothing passed yet.
    pub fn new() -> (r: Self)
        ensures
            r.wf(),
            r@ == Seq::<u8>::empty(),
    {
        HashTally { hasher: sha256_new(), bytes_read: 0 }
    }

    /// Counts and hashes `data` after what passed before.
    pub fn absorb(&mut self, data: &[u8])
        requires
            old(self).wf(),
            old(self)@.len() + data@.len() <= u64::MAX,
        ensures
            final(self).wf(),
            final(self)@ == old(self)@ + data@,
    {
        sha256_update(&mut self.hasher, data);
        self.bytes_read = self.bytes_read + data.len() as u64;
    }

    /// The number of bytes that passed.
    pub fn bytes_read(&self) -> (r: u64)
        requires
            self.wf(),
        ensures
            r == self@.len(),
    {
        self.bytes_read
    }

    /// The SHA-256 of the bytes that passed, in lower-case hex.
    pub fn sha256_hex(&self) -> (r: String)
        ensures
            r@ == hex_text(sha256_of(self@)),
    {
        let digest = sha256_digest(&self.hasher);
        hex_encode(digest.as_slice())
    }
}

} // verus!
