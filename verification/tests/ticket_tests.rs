use ed25519_dalek::{Signer, SigningKey};
use ticket_validator::errors::TicketError;
use ticket_validator::price::Price;
use ticket_validator::ticket::{Ticket, TicketStatus};

const EVENT: &str = "Passe Entrant";
const PRICE: &str = "90.58";
const SEED: &[u8] = b"a master seed for the tests";

fn price() -> Price {
    Price::from_str(PRICE).expect("valid price")
}

#[test]
fn test_verify() {
    let new_ticket: Ticket =
        Ticket::try_new(EVENT.to_string(), price(), SEED).expect("Error Creating Ticket");
    let nt_result: Result<bool, TicketError> = new_ticket.verify(SEED);
    assert!(nt_result.is_ok_and(|is_verified| is_verified));
}

#[test]
fn test_burn_ticket() {
    let new_ticket: Ticket =
        Ticket::try_new(EVENT.to_string(), price(), SEED).expect("Error Creating Ticket");
    match new_ticket.burn_ticket(SEED) {
        Ok(tik) => {
            assert_eq!(tik.status(), TicketStatus::Used);
        }
        Err(err) => {
            assert_eq!(err, "Ticket is invalid!".to_string())
        }
    }
}

#[test]
fn new_ticket_is_unused_and_keeps_its_fields() {
    let t = Ticket::try_new(EVENT.to_string(), price(), SEED).unwrap();
    assert_eq!(t.status(), TicketStatus::Unused);
    assert_eq!(t.event, EVENT);
    assert_eq!(t.price, price());
    let id = uuid::Uuid::from_u128(t.id);
    assert_eq!(id.get_version_num(), 4);
    assert_eq!(id.get_variant(), uuid::Variant::RFC4122);
}

#[test]
fn issuing_is_deterministic_for_one_identity() {
    let a = Ticket::issue(7, EVENT.to_string(), price(), SEED).unwrap();
    let b = Ticket::issue(7, EVENT.to_string(), price(), SEED).unwrap();
    assert_eq!(a.signature(), b.signature());
    let c = Ticket::issue(8, EVENT.to_string(), price(), SEED).unwrap();
    assert_ne!(a.signature(), c.signature());
}

#[test]
fn burned_ticket_cannot_be_burned_again() {
    let t = Ticket::try_new(EVENT.to_string(), price(), SEED).unwrap();
    let used = t.burn_ticket(SEED).unwrap();
    assert_eq!(used.status(), TicketStatus::Used);
    match used.burn_ticket(SEED) {
        Err(e) => assert_eq!(e, "Ticket has already been used!"),
        Ok(_) => panic!("a used ticket was burned"),
    }
}

#[test]
fn cancelled_ticket_is_refused() {
    let t = Ticket::issue(11, EVENT.to_string(), price(), SEED).unwrap();
    let c = Ticket::from_parts(t.id, t.event.clone(), t.price, TicketStatus::Cancelled, t.signature());
    match c.burn_ticket(SEED) {
        Err(e) => assert_eq!(e, "Event has been cancelled. Ticket is invalid!"),
        Ok(_) => panic!("a cancelled ticket was burned"),
    }
}

#[test]
fn ticket_with_other_seed_fails_verification() {
    let t = Ticket::try_new(EVENT.to_string(), price(), SEED).unwrap();
    match t.verify(b"another seed") {
        Err(TicketError::CryptoError(m)) => assert_eq!(m, "Error Verifying Key"),
        other => panic!("unexpected {:?}", other),
    }
    match t.burn_ticket(b"another seed") {
        Err(e) => assert_eq!(e, "Ticket is invalid!"),
        Ok(_) => panic!("a forged ticket was burned"),
    }
}

#[test]
fn altered_ticket_fails_verification() {
    let t = Ticket::issue(42, EVENT.to_string(), price(), SEED).unwrap();
    let cheaper = Ticket::from_parts(
        t.id,
        t.event.clone(),
        Price::from_str("1.00").unwrap(),
        TicketStatus::Unused,
        t.signature(),
    );
    assert!(cheaper.verify(SEED).is_err());
    let renamed = Ticket::from_parts(t.id, "Other".to_string(), t.price, TicketStatus::Unused, t.signature());
    assert!(renamed.verify(SEED).is_err());
    let moved = Ticket::from_parts(43, t.event.clone(), t.price, TicketStatus::Unused, t.signature());
    assert!(moved.verify(SEED).is_err());
    assert!(t.verify(SEED).unwrap());
}

#[test]
fn event_opening_with_a_point_can_share_a_message() {
    // "1" then ".5 Gala" and "1.5" then " Gala" are the same signed text
    let a = Ticket::issue(9, ".5 Gala".to_string(), Price::from_str("1").unwrap(), SEED).unwrap();
    let b = Ticket::issue(9, " Gala".to_string(), Price::from_str("1.5").unwrap(), SEED).unwrap();
    assert_eq!(a.signature(), b.signature());
}

#[test]
fn plain_events_never_share_a_message() {
    let a = Ticket::issue(9, "Gala".to_string(), Price::from_str("1").unwrap(), SEED).unwrap();
    let b = Ticket::issue(9, "Gala".to_string(), Price::from_str("1.5").unwrap(), SEED).unwrap();
    assert_ne!(a.signature(), b.signature());
    let swapped = Ticket::from_parts(9, "Gala".to_string(), Price::from_str("1.5").unwrap(), TicketStatus::Unused, a.signature());
    assert!(swapped.verify(SEED).is_err());
}

#[test]
fn getters_and_copies_keep_the_values() {
    let t = Ticket::issue(77, EVENT.to_string(), price(), SEED).unwrap();
    assert_eq!(t.id(), 77);
    assert_eq!(t.event(), EVENT);
    assert_eq!(t.price(), price());
    let c = t.clone();
    assert_eq!(c.id(), t.id());
    assert_eq!(c.signature(), t.signature());
    assert!(c.verify(SEED).unwrap());
}

#[test]
fn altered_ticket_cannot_be_burned() {
    let t = Ticket::issue(5, EVENT.to_string(), price(), SEED).unwrap();
    let renamed = Ticket::from_parts(5, "Other".to_string(), t.price, TicketStatus::Unused, t.signature());
    assert_eq!(renamed.burn_ticket(SEED).unwrap_err(), "Ticket is invalid!");
}

#[test]
fn signed_text_writes_the_price_as_a_float_displays_it() {
    let id = uuid::Uuid::new_v4();
    let key = ticket_validator::crypto::generate_key(id.as_u128(), SEED).unwrap();
    for (text, float) in [("90.58", 90.58f32), ("345.00", 345.0f32), ("0.5", 0.5f32), ("12.25", 12.25f32)] {
        let message = format!("{}{}{}", id, float, EVENT);
        let signature = SigningKey::from_bytes(&key).sign(message.as_bytes()).to_bytes();
        let t = Ticket::from_parts(id.as_u128(), EVENT.to_string(), Price::from_str(text).unwrap(), TicketStatus::Unused, signature);
        assert!(t.verify(SEED).unwrap());
    }
}
