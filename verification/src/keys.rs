//! User identifiers and signatures.
//!
//! A user is known by a public signing key of 32 bytes; an item is named by
//! its author and by the 64 bytes of the author's detached signature over the
//! item's bytes. Both travel as Base58 text.

use vstd::prelude::*;

use crate::bytes::{bytes_equal, copy_bytes};

verus! {

/// Number of bytes in a user's public key.
pub const USER_ID_BYTES: usize = 32;

/// Number of bytes in a detached signature.
pub const SIGNATURE_BYTES: usize = 64;

/// Why a key, a signature or a hash could not be read.
#[derive(Clone, Copy, Debug, PartialEq, Eq, Structural)]
pub enum ParseError {
    /// The bytes were not as many as the type holds.
    InvalidLength,
    /// The text was not Base58.
    InvalidEncoding,
}

/// The Base58 text that `bs58` writes for `bytes`, in the Bitcoin alphabet.
pub uninterp spec fn base58_text(bytes: Seq<u8>) -> Seq<char>;

/// The bytes that `bs58` reads from `text`, or `None` where it refuses the text.
pub uninterp spec fn base58_bytes(text: Seq<char>) -> Option<Seq<u8>>;

/// Whether libsodium takes `signature` for a signature of `message` under the
/// Ed25519 public key `key`.
pub uninterp spec fn ed25519_accepts(key: Seq<u8>, message: Seq<u8>, signature: Seq<u8>) -> bool;

/// `bs58::decode::Error`, which says why a text is not Base58. Nothing is
/// known of what is inside it.
#[verifier::external_type_specification]
#[verifier::external_body]
pub struct ExBase58DecodeError(bs58::decode::Error);

/// `bs58::encode(..).into_string()`: the result is the Base58 text of `bytes`.
#[verifier::external_body]
fn base58_encode(bytes: &[u8]) -> (text: String)
    ensures
        text@ == base58_text(bytes@),
{
    bs58::encode(bytes).into_string()
}

/// `bs58::decode(..).into_vec()`: the bytes that the text stands for, or the
/// crate's error where the text is not Base58.
#[verifier::external_body]
fn base58_decode(text: &str) -> (r: Result<Vec<u8>, bs58::decode::Error>)
    ensures
        r matches Ok(bytes) ==> base58_bytes(text@) == Some(bytes@),
        r is Err ==> base58_bytes(text@) is None,
{
    bs58::decode(text).into_vec()
}

/// `sodiumoxide::crypto::sign::verify_detached`: whether the signature is
/// valid for the message under the key. A signature that the `ed25519` crate
/// refuses to build, because its top three bits are not clear, is not valid.
#[verifier::external_body]
fn ed25519_verify(signature: &[u8], message: &[u8], key: &[u8]) -> (ok: bool)
    requires
        signature@.len() == SIGNATURE_BYTES,
        key@.len() == USER_ID_BYTES,
    ensures
        ok == ed25519_accepts(key@, message@, signature@),
{
    let key = sodiumoxide::crypto::sign::PublicKey::from_slice(key);
    let signature = sodiumoxide::crypto::sign::Signature::from_bytes(signature);
    match (key, signature) {
        (Some(key), Ok(signature)) => {
            sodiumoxide::crypto::sign::verify_detached(&signature, message, &key)
        },
        _ => false,
    }
}

/// `sodiumoxide::randombytes::randombytes`: `count` bytes from the system's
/// random number generator. Nothing is said of which bytes.
#[verifier::external_body]
pub(crate) fn random_bytes(count: usize) -> (bytes: Vec<u8>)
    ensures
        bytes@.len() == count,
{
    sodiumoxide::randombytes::randombytes(count)
}

/// A user's public key.
#[derive(Debug, PartialEq, Eq)]
pub struct UserID {
    bytes: Vec<u8>,
}

impl View for UserID {
    type V = Seq<u8>;

    closed spec fn view(&self) -> Seq<u8> {
        self.bytes@
    }
}

impl Clone for UserID {
    fn clone(&self) -> (copy: Self)
        ensures
            copy@ == self@,
    {
        proof {
            use_type_invariant(self);
        }
        UserID { bytes: copy_bytes(self.bytes.as_slice()) }
    }
}

impl UserID {
    /// Every user identifier has 32 bytes.
    #[verifier::type_invariant]
    pub open spec fn well_formed(self) -> bool {
        self@.len() == USER_ID_BYTES
    }

    /// Takes the bytes of a key. Fails with `InvalidLength` unless there are 32.
    pub fn from_vec(bytes: Vec<u8>) -> (r: Result<UserID, ParseError>)
        ensures
            bytes@.len() == USER_ID_BYTES ==> (r matches Ok(user) && user@ == bytes@),
            bytes@.len() != USER_ID_BYTES ==> r == Err::<UserID, ParseError>(
                ParseError::InvalidLength,
            ),
    {
        if bytes.len() != USER_ID_BYTES {
            return Err(ParseError::InvalidLength);
        }
        Ok(UserID { bytes })
    }

    /// Copies the bytes of a key. Fails with `InvalidLength` unless there are 32.
    pub fn from_bytes(bytes: &[u8]) -> (r: Result<UserID, ParseError>)
        ensures
            bytes@.len() == USER_ID_BYTES ==> (r matches Ok(user) && user@ == bytes@),
            bytes@.len() != USER_ID_BYTES ==> r == Err::<UserID, ParseError>(
                ParseError::InvalidLength,
            ),
    {
        UserID::from_vec(copy_bytes(bytes))
    }

    /// Reads a key from Base58 text. Fails with `InvalidEncoding` where the
    /// text is not Base58, with `InvalidLength` where it stands for other
    /// than 32 bytes.
    pub fn from_base58(text: &str) -> (r: Result<UserID, ParseError>)
        ensures
            match base58_bytes(text@) {
                None => r == Err::<UserID, ParseError>(ParseError::InvalidEncoding),
                Some(bytes) => if bytes.len() == USER_ID_BYTES {
                    r matches Ok(user) && user@ == bytes
                } else {
                    r == Err::<UserID, ParseError>(ParseError::InvalidLength)
                },
            },
    {
        match base58_decode(text) {
            Ok(bytes) => UserID::from_vec(bytes),
            Err(_) => Err(ParseError::InvalidEncoding),
        }
    }

    /// The key as Base58 text.
    pub fn to_base58(&self) -> (text: String)
        ensures
            text@ == base58_text(self@),
    {
        base58_encode(self.bytes.as_slice())
    }

    /// The 32 bytes of the key.
    pub fn bytes(&self) -> (bytes: &[u8])
        ensures
            bytes@ == self@,
            bytes@.len() == USER_ID_BYTES,
    {
        proof {
            use_type_invariant(self);
        }
        self.bytes.as_slice()
    }

    /// Whether this is the same user as `other`.
    pub fn same(&self, other: &UserID) -> (same: bool)
        ensures
            same == (self@ == other@),
    {
        bytes_equal(self.bytes.as_slice(), other.bytes.as_slice())
    }

    /// Whether `signature` is this user's signature over `bytes`.
    pub fn verify(&self, bytes: &[u8], signature: &Signature) -> (ok: bool)
        ensures
            ok == ed25519_accepts(self@, bytes@, signature@),
    {
        proof {
            use_type_invariant(self);
        }
        ed25519_verify(signature.bytes(), bytes, self.bytes.as_slice())
    }
}

/// The bytes of a key, if there is one.
pub open spec fn opt_user(user: Option<UserID>) -> Option<Seq<u8>> {
    match user {
        Some(u) => Some(u@),
        None => None,
    }
}

/// The bytes of a signature, if there is one.
pub open spec fn opt_signature(signature: Option<Signature>) -> Option<Seq<u8>> {
    match signature {
        Some(s) => Some(s@),
        None => None,
    }
}

/// A detached signature over the bytes of an item.
#[derive(Debug, PartialEq, Eq)]
pub struct Signature {
    bytes: Vec<u8>,
}

impl View for Signature {
    type V = Seq<u8>;

    closed spec fn view(&self) -> Seq<u8> {
        self.bytes@
    }
}

impl Clone for Signature {
    fn clone(&self) -> (copy: Self)
        ensures
            copy@ == self@,
    {
        proof {
            use_type_invariant(self);
        }
        Signature { bytes: copy_bytes(self.bytes.as_slice()) }
    }
}

impl Signature {
    /// Every signature has 64 bytes.
    #[verifier::type_invariant]
    pub open spec fn well_formed(self) -> bool {
        self@.len() == SIGNATURE_BYTES
    }

    /// Takes the bytes of a signature. Fails with `InvalidLength` unless there are 64.
    pub fn from_vec(bytes: Vec<u8>) -> (r: Result<Signature, ParseError>)
        ensures
            bytes@.len() == SIGNATURE_BYTES ==> (r matches Ok(signature) && signature@ == bytes@),
            bytes@.len() != SIGNATURE_BYTES ==> r == Err::<Signature, ParseError>(
                ParseError::InvalidLength,
            ),
    {
        if bytes.len() != SIGNATURE_BYTES {
            return Err(ParseError::InvalidLength);
        }
        Ok(Signature { bytes })
    }

    /// Copies the bytes of a signature. Fails with `InvalidLength` unless there are 64.
    pub fn from_bytes(bytes: &[u8]) -> (r: Result<Signature, ParseError>)
        ensures
            bytes@.len() == SIGNATURE_BYTES ==> (r matches Ok(signature) && signature@ == bytes@),
            bytes@.len() != SIGNATURE_BYTES ==> r == Err::<Signature, ParseError>(
                ParseError::InvalidLength,
            ),
    {
        Signature::from_vec(copy_bytes(bytes))
    }

    /// Reads a signature from Base58 text. Fails with `InvalidEncoding` where
    /// the text is not Base58, with `InvalidLength` where it stands for other
    /// than 64 bytes.
    pub fn from_base58(text: &str) -> (r: Result<Signature, ParseError>)
        ensures
            match base58_bytes(text@) {
                None => r == Err::<Signature, ParseError>(ParseError::InvalidEncoding),
                Some(bytes) => if bytes.len() == SIGNATURE_BYTES {
                    r matches Ok(signature) && signature@ == bytes
                } else {
                    r == Err::<Signature, ParseError>(ParseError::InvalidLength)
                },
            },
    {
        match base58_decode(text) {
            Ok(bytes) => Signature::from_vec(bytes),
            Err(_) => Err(ParseError::InvalidEncoding),
        }
    }

    /// The signature as Base58 text.
    pub fn to_base58(&self) -> (text: String)
        ensures
            text@ == base58_text(self@),
    {
        base58_encode(self.bytes.as_slice())
    }

    /// The 64 bytes of the signature.
    pub fn bytes(&self) -> (bytes: &[u8])
        ensures
            bytes@ == self@,
            bytes@.len() == SIGNATURE_BYTES,
    {
        proof {
            use_type_invariant(self);
        }
        self.bytes.as_slice()
    }

    /// Whether this is the same signature as `other`.
    pub fn same(&self, other: &Signature) -> (same: bool)
        ensures
            same == (self@ == other@),
    {
        bytes_equal(self.bytes.as_slice(), other.bytes.as_slice())
    }
}

} // verus!
