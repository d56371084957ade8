//! Digests, signature checks and the text form of keys. The arithmetic is
//! done by the `sha2`, `cosmwasm_crypto` and `cosmwasm_std` crates; this
//! module names their results and decides what a check amounts to.

use sha2::Digest;
use vstd::prelude::*;

verus! {

/// The SHA-256 digest of `data`.
pub uninterp spec fn sha256(data: Seq<u8>) -> Seq<u8>;

/// What `cosmwasm_crypto::secp256k1_verify` makes of a message hash, a
/// signature and a public key: `Some(true)` where the signature is valid,
/// `Some(false)` where it is not, `None` where an input is malformed.
pub uninterp spec fn secp256k1_outcome(
    hash: Seq<u8>,
    signature: Seq<u8>,
    public_key: Seq<u8>,
) -> Option<bool>;

/// The padded standard base64 text of `bytes`.
pub uninterp spec fn base64_text(bytes: Seq<u8>) -> Seq<char>;

/// The length of a message digest that can be checked: 32 bytes.
pub open spec fn digest_shape_ok(hash: Seq<u8>) -> bool {
    hash.len() == 32
}

/// The length of a signature in compact form: 64 bytes.
pub open spec fn signature_shape_ok(signature: Seq<u8>) -> bool {
    signature.len() == 64
}

/// The two forms of a public key: compressed, 33 bytes of which the first
/// is 2 or 3, or uncompressed, 65 bytes of which the first is 4.
pub open spec fn key_shape_ok(public_key: Seq<u8>) -> bool {
    ||| public_key.len() == 33 && (public_key[0] == 2 || public_key[0] == 3)
    ||| public_key.len() == 65 && public_key[0] == 4
}

/// The error of `cosmwasm_crypto`, carried through unread.
#[verifier::external_type_specification]
#[verifier::external_body]
pub struct ExCryptoError(cosmwasm_crypto::CryptoError);

/// Calls `sha2::Sha256::digest`. Trusted: the bytes returned are the
/// SHA-256 digest of `data`, a function of `data` alone.
#[verifier::external_body]
pub(crate) fn sha256_digest(data: &[u8]) -> (digest: Vec<u8>)
    ensures
        digest@ == sha256(data@),
{
    sha2::Sha256::digest(data).to_vec()
}

/// Calls `cosmwasm_crypto::secp256k1_verify`. Trusted: whether it returns
/// `Ok`, and the flag inside, depend on the three byte strings alone; and
/// it returns `Ok` only for a digest of 32 bytes, a signature of 64 bytes
/// and a key in one of its two forms.
#[verifier::external_body]
pub(crate) fn secp256k1_check(hash: &[u8], signature: &[u8], public_key: &[u8]) -> (r: Result<
    bool,
    cosmwasm_crypto::CryptoError,
>)
    ensures
        r matches Ok(valid) ==> secp256k1_outcome(hash@, signature@, public_key@) == Some(valid),
        r is Err ==> secp256k1_outcome(hash@, signature@, public_key@) is None,
        r is Ok ==> digest_shape_ok(hash@) && signature_shape_ok(signature@) && key_shape_ok(
            public_key@,
        ),
{
    cosmwasm_crypto::secp256k1_verify(hash, signature, public_key)
}

/// Calls `cosmwasm_std::Binary::to_base64`. Trusted: the text returned is
/// the base64 form of `bytes`, a function of `bytes` alone.
#[verifier::external_body]
pub(crate) fn encode_base64(bytes: &[u8]) -> (text: String)
    ensures
        text@ == base64_text(bytes@),
{
    cosmwasm_std::Binary::from(bytes).to_base64()
}

/// A check counts as passed only if it ran to the end and found the
/// signature valid.
pub open spec fn outcome_accepts(outcome: Option<bool>) -> bool {
    outcome == Some(true)
}

/// `signature` is a valid secp256k1 signature by `public_key` over the
/// SHA-256 digest of `payload`.
pub open spec fn secp256k1_sha256_accepts(
    public_key: Seq<u8>,
    payload: Seq<u8>,
    signature: Seq<u8>,
) -> bool {
    outcome_accepts(secp256k1_outcome(sha256(payload), signature, public_key))
}

/// Whether a finished signature check passed: a malformed input counts as a
/// failed check.
pub fn check_passed(outcome: &Result<bool, cosmwasm_crypto::CryptoError>) -> (ok: bool)
    ensures
        ok == (*outcome matches Ok(valid) && valid),
{
    match outcome {
        Ok(valid) => *valid,
        Err(_) => false,
    }
}

/// Checks `signature` against a message digest under `public_key`. Inputs
/// of a wrong shape fail the check.
pub fn secp256k1_verify_digest(public_key: &[u8], digest: &[u8], signature: &[u8]) -> (ok: bool)
    ensures
        ok == outcome_accepts(secp256k1_outcome(digest@, signature@, public_key@)),
        ok ==> digest_shape_ok(digest@) && signature_shape_ok(signature@) && key_shape_ok(
            public_key@,
        ),
{
    let outcome = secp256k1_check(digest, signature, public_key);
    check_passed(&outcome)
}

/// Hashes `payload` with SHA-256 and checks `signature` against the digest
/// under `public_key`. A signature or a key of a wrong shape fails the
/// check.
pub fn secp256k1_sha256_verify(public_key: &[u8], payload: &[u8], signature: &[u8]) -> (ok: bool)
    ensures
        ok == secp256k1_sha256_accepts(public_key@, payload@, signature@),
        ok ==> signature_shape_ok(signature@) && key_shape_ok(public_key@),
{
    let digest: Vec<u8> = sha256_digest(payload);
    secp256k1_verify_digest(public_key, digest.as_slice(), signature)
}

} // verus!
