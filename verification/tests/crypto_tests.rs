use ed25519_dalek::{Signer, SigningKey};
use hkdf::Hkdf;
use sha2::Sha256;
use ticket_validator::crypto::{generate_key, sign_message, verify_signature};
use ticket_validator::errors::TicketError;
use ticket_validator::ids::ticket_key;

const SEED: &str = "the master seed";

fn setup() -> (uuid::Uuid, SigningKey) {
    let id = uuid::Uuid::new_v4();
    let info = format!("ticket-id:{}", id);
    let hk = Hkdf::<Sha256>::new(Some("ticket-validator-v1".as_bytes()), SEED.as_bytes());
    let mut okm: [u8; 32] = [0u8; 32];
    hk.expand(info.as_bytes(), &mut okm).expect("Err Saving to OKM");
    (id, SigningKey::from_bytes(&okm))
}

#[test]
fn test_sign_message() {
    let (id, signing_key) = setup();
    let message: &[u8] = "this is a test message".as_bytes();
    let test_signed = signing_key.sign(message).to_bytes();
    match sign_message(message, id.as_u128(), SEED.as_bytes()) {
        Ok(signed) => assert!(signed == test_signed),
        Err(e) => panic!("{:?}", e),
    };
}

#[test]
fn test_verify_message() {
    let (id, signing_key) = setup();
    let price = "500.43";
    let event: &str = "Tested Event";
    let message_string: String = format!("{id}{price}{event}");
    let message: &[u8] = message_string.as_bytes();
    let signature = signing_key.sign(message).to_bytes();
    assert!(verify_signature(message, signature, id.as_u128(), SEED.as_bytes())
        .is_ok_and(|is_verified| is_verified))
}

#[test]
fn derived_key_matches_hkdf() {
    let (id, signing_key) = setup();
    let key = generate_key(id.as_u128(), SEED.as_bytes()).unwrap();
    assert_eq!(key, signing_key.to_bytes());
    let other = generate_key(id.as_u128(), b"other seed").unwrap();
    assert_ne!(key, other);
}

#[test]
fn wrong_signature_is_refused() {
    let (id, signing_key) = setup();
    let mut signature = signing_key.sign(b"message").to_bytes();
    signature[0] ^= 1;
    match verify_signature(b"message", signature, id.as_u128(), SEED.as_bytes()) {
        Err(TicketError::CryptoError(m)) => assert_eq!(m, "Error Verifying Key"),
        other => panic!("unexpected {:?}", other),
    }
}

#[test]
fn ticket_key_is_hyphenated_lowercase() {
    assert_eq!(
        ticket_key(0x0123_4567_89ab_cdef_fedc_ba98_7654_3210),
        "01234567-89ab-cdef-fedc-ba9876543210"
    );
    assert_eq!(ticket_key(0), "00000000-0000-0000-0000-000000000000");
    let id = uuid::Uuid::new_v4();
    assert_eq!(ticket_key(id.as_u128()), id.to_string());
}
