use std::collections::HashMap;

use ticket_validator::db::{
    create_ticket_step, scan_start, scan_step, CreateAction, CreateEvent, ScanAction, ScanEvent,
    ScanState,
};
use ticket_validator::errors::TicketError;
use ticket_validator::ids::ticket_key;
use ticket_validator::price::Price;
use ticket_validator::ticket::{Ticket, TicketStatus};

const EVENT: &str = "Tested Event";
const PRICE: &str = "345.00";
const SEED: &[u8] = b"seed of the store tests";

fn new_ticket() -> Ticket {
    Ticket::try_new(EVENT.to_string(), Price::from_str(PRICE).unwrap(), SEED)
        .expect("error creating ticket")
}

/// Runs the storing of `ticket` against an in-memory store.
fn create_ticket(ticket: Ticket, db: &mut HashMap<String, Ticket>) -> Result<String, TicketError> {
    let key = ticket_key(ticket.id);
    let mut action = create_ticket_step(ticket.id, CreateEvent::Checked { exists: db.contains_key(&key) });
    loop {
        action = match action {
            CreateAction::Store => {
                db.insert(key.clone(), ticket.clone());
                create_ticket_step(ticket.id, CreateEvent::Stored { ok: true })
            }
            CreateAction::Save => create_ticket_step(ticket.id, CreateEvent::Saved { ok: true }),
            CreateAction::Finish(result) => return result,
        }
    }
}

/// Runs a scan against an in-memory store, answering with the given lines.
fn scan_ticket(
    id: u128,
    db: &mut HashMap<String, Ticket>,
    lines: &[&str],
    written: &mut String,
) -> Result<String, TicketError> {
    let mut lines = lines.iter();
    let (mut state, mut action) = scan_start(db.get(&ticket_key(id)).cloned());
    loop {
        let event = match action {
            ScanAction::Write(text) => {
                written.push_str(&text);
                ScanEvent::Written(Ok(()))
            }
            ScanAction::Flush => ScanEvent::Flushed(Ok(())),
            ScanAction::ReadLine => match lines.next() {
                Some(l) => ScanEvent::LineRead(Ok(l.to_string())),
                None => ScanEvent::LineRead(Err("no more input".to_string())),
            },
            ScanAction::Store(t) => {
                db.insert(ticket_key(t.id), t);
                ScanEvent::Stored(Ok(()))
            }
            ScanAction::Save => ScanEvent::Saved(Ok(())),
            ScanAction::Finish(result) => return result,
        };
        assert!(state.awaits(&event));
        let next = scan_step(state, event, SEED);
        state = next.0;
        action = next.1;
    }
}

fn database_message(r: Result<String, TicketError>) -> String {
    match r {
        Err(TicketError::DatabaseError(m)) => m,
        other => panic!("unexpected {:?}", other),
    }
}

#[test]
fn test_create_ticket() {
    let ticket = new_ticket();
    let ticket_id = ticket.id;
    let mut db = HashMap::new();
    let r_ticket = create_ticket(ticket, &mut db);
    assert!(r_ticket.is_ok_and(|message| {
        message
            == format!(
                "\nTicket ID: {} Successfully Created!\n\n",
                uuid::Uuid::from_u128(ticket_id)
            )
    }));
}

#[test]
fn test_scan_ticket() {
    let ticket = new_ticket();
    let ticket_id = ticket.id;
    let mut db = HashMap::new();
    let mut written = String::new();
    let message = create_ticket(ticket, &mut db).unwrap();
    assert!(message
        == format!(
            "\nTicket ID: {} Successfully Created!\n\n",
            uuid::Uuid::from_u128(ticket_id)
        ));
    let message = scan_ticket(ticket_id, &mut db, &["y\n"], &mut written).unwrap();
    assert!(message == "\nTicket Used Successfully!");
    assert_eq!(db[&ticket_key(ticket_id)].status(), TicketStatus::Used);
    assert_eq!(written, "\nDo you want to use the ticket? (y/n): ");
}

#[test]
fn creating_a_ticket_twice_is_refused() {
    let ticket = new_ticket();
    let mut db = HashMap::new();
    create_ticket(ticket.clone(), &mut db).unwrap();
    assert_eq!(
        database_message(create_ticket(ticket, &mut db)),
        "\nTicket with that id already exist!"
    );
}

#[test]
fn failed_store_or_save_is_reported() {
    match create_ticket_step(1, CreateEvent::Stored { ok: false }) {
        CreateAction::Finish(r) => assert_eq!(database_message(r), "\nCould not save ticket"),
        _ => panic!("expected the end"),
    }
    match create_ticket_step(1, CreateEvent::Saved { ok: false }) {
        CreateAction::Finish(r) => assert_eq!(database_message(r), "\nCould not save ticket"),
        _ => panic!("expected the end"),
    }
}

#[test]
fn scanning_a_missing_ticket_fails() {
    let mut db = HashMap::new();
    let mut written = String::new();
    assert_eq!(
        database_message(scan_ticket(5, &mut db, &["y\n"], &mut written)),
        "\nCould not retrieve ticket!"
    );
}

#[test]
fn scanning_asks_again_until_answered() {
    let ticket = new_ticket();
    let id = ticket.id;
    let mut db = HashMap::new();
    create_ticket(ticket, &mut db).unwrap();
    let mut written = String::new();
    let r = scan_ticket(id, &mut db, &["maybe\n", "", " N \n"], &mut written);
    assert_eq!(database_message(r), "\nUser Exited CLI");
    let q = "\nDo you want to use the ticket? (y/n): ";
    assert_eq!(written, format!("{q}{q}{q}\n\n\n\n"));
    assert_eq!(db[&ticket_key(id)].status(), TicketStatus::Unused);
}

#[test]
fn scanning_a_used_ticket_fails() {
    let ticket = new_ticket();
    let id = ticket.id;
    let mut db = HashMap::new();
    create_ticket(ticket, &mut db).unwrap();
    let mut written = String::new();
    scan_ticket(id, &mut db, &["y\n"], &mut written).unwrap();
    assert_eq!(
        database_message(scan_ticket(id, &mut db, &["Y\n"], &mut written)),
        "\nError updating ticket: Ticket has already been used!"
    );
}

#[test]
fn outside_failures_end_the_scan() {
    let t = new_ticket();
    let (state, _) = scan_start(Some(t.clone()));
    let (_, action) = scan_step(state, ScanEvent::Written(Err("broken pipe".into())), SEED);
    match action {
        ScanAction::Finish(r) => assert_eq!(database_message(r), "Write Error -> broken pipe"),
        _ => panic!("expected the end"),
    }
    let (state, _) = scan_start(Some(t.clone()));
    let (state, _) = scan_step(state, ScanEvent::Written(Ok(())), SEED);
    let (_, action) = scan_step(state, ScanEvent::Flushed(Err("e".into())), SEED);
    match action {
        ScanAction::Finish(r) => assert_eq!(database_message(r), "User Input Error -> e"),
        _ => panic!("expected the end"),
    }
    let (state, _) = scan_start(Some(t.clone()));
    let (state, _) = scan_step(state, ScanEvent::Written(Ok(())), SEED);
    let (state, _) = scan_step(state, ScanEvent::Flushed(Ok(())), SEED);
    let (_, action) = scan_step(state, ScanEvent::LineRead(Err("r".into())), SEED);
    match action {
        ScanAction::Finish(r) => assert_eq!(database_message(r), "Read Error: r"),
        _ => panic!("expected the end"),
    }
    let (_, action) = scan_step(ScanState::Storing, ScanEvent::Stored(Err("s".into())), SEED);
    match action {
        ScanAction::Finish(r) => assert_eq!(database_message(r), "\nError updating ticket -> s"),
        _ => panic!("expected the end"),
    }
    let (_, action) = scan_step(ScanState::Saving, ScanEvent::Saved(Err("d".into())), SEED);
    match action {
        ScanAction::Finish(r) => assert_eq!(database_message(r), "\nError saving database -> d"),
        _ => panic!("expected the end"),
    }
}

#[test]
fn scanning_a_ticket_signed_under_another_seed_fails() {
    let ticket = Ticket::try_new(EVENT.to_string(), Price::from_str(PRICE).unwrap(), b"other seed")
        .unwrap();
    let id = ticket.id;
    let mut db = HashMap::new();
    create_ticket(ticket, &mut db).unwrap();
    let mut written = String::new();
    assert_eq!(
        database_message(scan_ticket(id, &mut db, &["y\n"], &mut written)),
        "\nError updating ticket: Ticket is invalid!"
    );
    assert_eq!(db[&ticket_key(id)].status(), TicketStatus::Unused);
}
