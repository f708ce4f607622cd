//! SHA-512 hashes, by which attachments are named.

use vstd::prelude::*;

use crate::bytes::{bytes_equal, copy_bytes};
use crate::keys::ParseError;

verus! {

/// Number of bytes in a SHA-512 hash.
pub const HASH_BYTES: usize = 64;

/// The SHA-512 hash of `bytes`, as libsodium computes it.
pub uninterp spec fn sha512_digest(bytes: Seq<u8>) -> Seq<u8>;

/// `sodiumoxide::crypto::hash::sha512::hash`: the 64 bytes of the hash of `bytes`.
#[verifier::external_body]
fn sha512_hash(bytes: &[u8]) -> (digest: Vec<u8>)
    ensures
        digest@ == sha512_digest(bytes@),
        digest@.len() == HASH_BYTES,
{
    sodiumoxide::crypto::hash::sha512::hash(bytes).0.to_vec()
}

/// `sodiumoxide::crypto::hash::sha512::State`, the state of a hash that is
/// computed piece by piece. Nothing is known of what is inside it.
#[verifier::external_type_specification]
#[verifier::external_body]
pub struct ExSha512State(sodiumoxide::crypto::hash::sha512::State);

/// The bytes that a hashing state has taken in so far, in their order.
pub uninterp spec fn absorbed(state: sodiumoxide::crypto::hash::sha512::State) -> Seq<u8>;

/// `sodiumoxide::crypto::hash::sha512::State::new`: a state that has taken
/// in nothing.
#[verifier::external_body]
fn state_new() -> (state: sodiumoxide::crypto::hash::sha512::State)
    ensures
        absorbed(state) == Seq::<u8>::empty(),
{
    sodiumoxide::crypto::hash::sha512::State::new()
}

/// `sodiumoxide::crypto::hash::sha512::State::update`: the state takes in
/// `data` behind what it has.
#[verifier::external_body]
fn state_update(state: &mut sodiumoxide::crypto::hash::sha512::State, data: &[u8])
    ensures
        absorbed(*final(state)) == absorbed(*old(state)) + data@,
{
    state.update(data)
}

/// `sodiumoxide::crypto::hash::sha512::State::finalize`: the hash of all
/// that the state has taken in, which is that of the same bytes hashed at once.
#[verifier::external_body]
fn state_finalize(state: sodiumoxide::crypto::hash::sha512::State) -> (digest: Vec<u8>)
    ensures
        digest@ == sha512_digest(absorbed(state)),
        digest@.len() == HASH_BYTES,
{
    state.finalize().0.to_vec()
}

/// Hashes contents that come piece by piece.
pub struct Hasher {
    state: sodiumoxide::crypto::hash::sha512::State,
}

impl Hasher {
    /// All that was fed so far.
    pub closed spec fn input(&self) -> Seq<u8> {
        absorbed(self.state)
    }

    /// A hasher that was fed nothing yet.
    pub fn new() -> (hasher: Hasher)
        ensures
            hasher.input() == Seq::<u8>::empty(),
    {
        Hasher { state: state_new() }
    }

    /// Feeds the next piece.
    pub fn update(&mut self, piece: &[u8])
        ensures
            final(self).input() == old(self).input() + piece@,
    {
        state_update(&mut self.state, piece);
    }

    /// The hash of all that was fed.
    pub fn finish(self) -> (hash: SHA512)
        ensures
            hash@ == sha512_digest(self.input()),
    {
        SHA512 { bytes: state_finalize(self.state) }
    }
}

/// The SHA-512 hash of some content.
#[derive(Debug, PartialEq, Eq)]
pub struct SHA512 {
    bytes: Vec<u8>,
}

impl View for SHA512 {
    type V = Seq<u8>;

    closed spec fn view(&self) -> Seq<u8> {
        self.bytes@
    }
}

impl Clone for SHA512 {
    fn clone(&self) -> (copy: Self)
        ensures
            copy@ == self@,
    {
        proof {
            use_type_invariant(self);
        }
        SHA512 { bytes: copy_bytes(self.bytes.as_slice()) }
    }
}

impl SHA512 {
    /// Every hash has 64 bytes.
    #[verifier::type_invariant]
    pub open spec fn well_formed(self) -> bool {
        self@.len() == HASH_BYTES
    }

    /// Takes the bytes of a hash that was computed elsewhere. Fails with
    /// `InvalidLength` unless there are 64.
    pub fn from_hash_bytes(bytes: &[u8]) -> (r: Result<SHA512, ParseError>)
        ensures
            bytes@.len() == HASH_BYTES ==> (r matches Ok(hash) && hash@ == bytes@),
            bytes@.len() != HASH_BYTES ==> r == Err::<SHA512, ParseError>(
                ParseError::InvalidLength,
            ),
    {
        if bytes.len() != HASH_BYTES {
            return Err(ParseError::InvalidLength);
        }
        Ok(SHA512 { bytes: copy_bytes(bytes) })
    }

    /// Hashes `content`.
    pub fn of(content: &[u8]) -> (hash: SHA512)
        ensures
            hash@ == sha512_digest(content@),
    {
        SHA512 { bytes: sha512_hash(content) }
    }

    /// The 64 bytes of the hash.
    pub fn bytes(&self) -> (bytes: &[u8])
        ensures
            bytes@ == self@,
            bytes@.len() == HASH_BYTES,
    {
        proof {
            use_type_invariant(self);
        }
        self.bytes.as_slice()
    }

    /// Whether this is the same hash as `other`.
    pub fn same(&self, other: &SHA512) -> (same: bool)
        ensures
            same == (self@ == other@),
    {
        bytes_equal(self.bytes.as_slice(), other.bytes.as_slice())
    }
}

} // verus!
