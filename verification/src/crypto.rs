//! Per-ticket signing keys derived from a master seed, and Ed25519 signatures.

use vstd::prelude::*;
use vstd::string::*;
use vstd::utf8::*;

use ed25519_dalek::{Signature, Signer, SigningKey};
use hkdf::Hkdf;
use sha2::Sha256;

use crate::errors::{TicketError, TicketErrorView};
use crate::ids::{id_text, ticket_key};
use crate::text::{literal, push_str};

verus! {

/// The 32 bytes of output keying material that HKDF with SHA-256 (RFC 5869)
/// derives from `salt`, the input keying material `ikm` and `info`.
pub uninterp spec fn hkdf_sha256_okm32(salt: Seq<u8>, ikm: Seq<u8>, info: Seq<u8>) -> Seq<u8>;

/// The 64-byte Ed25519 signature (RFC 8032) of `message` under the signing key
/// whose 32-byte secret is `secret`.
pub uninterp spec fn ed25519_signature(secret: Seq<u8>, message: Seq<u8>) -> Seq<u8>;

/// Whether Ed25519 verification under the public key of the secret `secret`
/// accepts `signature` for `message`.
pub uninterp spec fn ed25519_accepts(secret: Seq<u8>, message: Seq<u8>, signature: Seq<u8>) -> bool;

/// HKDF-SHA256 extract-then-expand into 32 bytes, through `Hkdf::<Sha256>::new`
/// and `Hkdf::expand`. The contract claims that the output is the named HKDF
/// output of the three inputs, and that the expansion succeeds: `expand` refuses
/// only outputs longer than 255 hash blocks (8160 bytes).
#[verifier::external_body]
fn hkdf_sha256_32(salt: &[u8], ikm: &[u8], info: &[u8]) -> (res: Result<[u8; 32], String>)
    ensures
        res is Ok,
        res matches Ok(okm) ==> okm@ == hkdf_sha256_okm32(salt@, ikm@, info@),
{
    let hk = Hkdf::<Sha256>::new(Some(salt), ikm);
    let mut okm = [0u8; 32];
    match hk.expand(info, &mut okm) {
        Ok(()) => Ok(okm),
        Err(e) => Err(format!("{:?}", e)),
    }
}

/// Ed25519 signing through `SigningKey::from_bytes`, `Signer::sign` and
/// `Signature::to_bytes`. The contract claims that the result is the named
/// signature of the message under the secret.
#[verifier::external_body]
fn ed25519_sign(secret: &[u8; 32], message: &[u8]) -> (sig: [u8; 64])
    ensures
        sig@ == ed25519_signature(secret@, message@),
{
    SigningKey::from_bytes(secret).sign(message).to_bytes()
}

/// Ed25519 verification through `SigningKey::from_bytes`, `Signature::from_bytes`
/// and `SigningKey::verify`. The contract claims that the answer is the named
/// verdict, and that a signature made by `ed25519_sign` with the same secret and
/// message is accepted.
#[verifier::external_body]
fn ed25519_verify(secret: &[u8; 32], message: &[u8], signature: &[u8; 64]) -> (ok: bool)
    ensures
        ok == ed25519_accepts(secret@, message@, signature@),
        signature@ == ed25519_signature(secret@, message@) ==> ok,
{
    SigningKey::from_bytes(secret).verify(message, &Signature::from_bytes(signature)).is_ok()
}

/// The salt of every key derivation.
pub open spec fn key_salt() -> Seq<u8> {
    encode_utf8("ticket-validator-v1"@)
}

/// The text that binds a derived key to one ticket.
pub open spec fn key_info(ticket_id: u128) -> Seq<char> {
    "ticket-id:"@ + id_text(ticket_id)
}

/// The secret signing key of the ticket `ticket_id` under `master_seed`.
pub open spec fn derived_key(ticket_id: u128, master_seed: Seq<u8>) -> Seq<u8> {
    hkdf_sha256_okm32(key_salt(), master_seed, encode_utf8(key_info(ticket_id)))
}

/// Derives the secret signing key of a ticket from the master seed.
pub fn generate_key(ticket_id: u128, master_seed: &[u8]) -> (res: Result<[u8; 32], TicketError>)
    ensures
        res matches Ok(k) && k@ == derived_key(ticket_id, master_seed@),
        res matches Ok(k) && k@ == hkdf_sha256_okm32(
            encode_utf8("ticket-validator-v1"@),
            master_seed@,
            encode_utf8("ticket-id:"@ + id_text(ticket_id)),
        ),
{
    let salt = "ticket-validator-v1".as_bytes();
    let mut info = literal("ticket-id:");
    let id = ticket_key(ticket_id);
    push_str(&mut info, id.as_str());
    match hkdf_sha256_32(salt, master_seed, info.as_str().as_bytes()) {
        Ok(okm) => Ok(okm),
        Err(e) => Err(TicketError::CryptoError(e)),
    }
}

/// Signs `message` with the key of the ticket `ticket_id`.
pub fn sign_message(message: &[u8], ticket_id: u128, master_seed: &[u8]) -> (res: Result<
    [u8; 64],
    TicketError,
>)
    ensures
        res matches Ok(sig) && sig@ == ed25519_signature(
            derived_key(ticket_id, master_seed@),
            message@,
        ),
{
    let key = generate_key(ticket_id, master_seed)?;
    Ok(ed25519_sign(&key, message))
}

/// Checks `signature` on `message` against the key of the ticket `ticket_id`:
/// `Ok(true)` when it holds, an error when it does not.
pub fn verify_signature(
    message: &[u8],
    signature: [u8; 64],
    ticket_id: u128,
    master_seed: &[u8],
) -> (res: Result<bool, TicketError>)
    ensures
        ed25519_accepts(derived_key(ticket_id, master_seed@), message@, signature@) ==> res
            matches Ok(true),
        !ed25519_accepts(derived_key(ticket_id, master_seed@), message@, signature@) ==> (res
            matches Err(e) && e@ == TicketErrorView::CryptoError("Error Verifying Key"@)),
        signature@ == ed25519_signature(derived_key(ticket_id, master_seed@), message@) ==> res
            matches Ok(true),
{
    let key = generate_key(ticket_id, master_seed)?;
    if ed25519_verify(&key, message, &signature) {
        Ok(true)
    } else {
        Err(TicketError::CryptoError(literal("Error Verifying Key")))
    }
}


/// The key of a ticket is HKDF-SHA256 with the salt `"ticket-validator-v1"`, the whole
/// master seed (every byte of it, whatever its length) as input keying material, and
/// the info `"ticket-id:"` followed by the ticket's identity text.
pub proof fn lemma_key_uses_whole_seed(ticket_id: u128, master_seed: Seq<u8>)
    ensures
        derived_key(ticket_id, master_seed) == hkdf_sha256_okm32(
            encode_utf8("ticket-validator-v1"@),
            master_seed,
            encode_utf8("ticket-id:"@ + id_text(ticket_id)),
        ),
{
}

} // verus!
