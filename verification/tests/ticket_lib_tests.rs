use ticket_validator::price::Price;
use ticket_validator::ticket_lib::{Ticket, TicketStatus};

#[test]
fn first_form_ticket_has_placeholders() {
    let t = Ticket::new("Concert".to_string(), Price::from_str("10").unwrap());
    assert_eq!(t.id, "theidtee");
    assert_eq!(t.signature(), "yuagdhopoijfv");
    assert_eq!(t.status(), TicketStatus::Unused);
    Ticket::verify("anything");
}

#[test]
fn first_form_ticket_burns_once() {
    let t = Ticket::new("Concert".to_string(), Price::from_str("10").unwrap());
    let used = t.burn_ticket().unwrap();
    assert_eq!(used.status(), TicketStatus::Used);
    assert_eq!(used.burn_ticket().unwrap_err(), "Ticket has already been used!");
}
