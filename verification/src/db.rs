//! The decisions of storing a new ticket and of scanning a stored one.
//!
//! The ticket store and the terminal are driven by the caller: each step here takes
//! what the last piece of outside work gave and says what to do next.

use vstd::prelude::*;
use vstd::string::*;

use crate::answer::{answer_of, read_answer, Answer};
use crate::errors::{TicketError, TicketErrorView};
use crate::ids::{id_text, ticket_key};
use crate::ticket::{burn_result, signed_with, Ticket, TicketStatus, TicketView};
use crate::text::{literal, push_str};

verus! {

/// What the last step of storing a new ticket gave.
pub enum CreateEvent {
    /// Whether a ticket is already stored under the new ticket's key.
    Checked { exists: bool },
    /// Whether putting the ticket in the store succeeded.
    Stored { ok: bool },
    /// Whether saving the store succeeded.
    Saved { ok: bool },
}

/// What to do next while storing a new ticket.
pub enum CreateAction {
    /// Put the ticket in the store under its key.
    Store,
    /// Save the store.
    Save,
    /// Stop with this outcome.
    Finish(Result<String, TicketError>),
}

/// The message that reports a stored ticket.
pub open spec fn created_message(ticket_id: u128) -> Seq<char> {
    "\nTicket ID: "@ + id_text(ticket_id) + " Successfully Created!\n\n"@
}

/// Decides the next step of storing the ticket `ticket_id`, given what the last step gave:
/// a ticket whose key is taken is refused; otherwise it is stored, then the store is
/// saved, and any failure of either is reported as a failure to save.
pub fn create_ticket_step(ticket_id: u128, event: CreateEvent) -> (action: CreateAction)
    ensures
        match event {
            CreateEvent::Checked { exists } => if exists {
                action matches CreateAction::Finish(Err(e)) && e@
                    == TicketErrorView::DatabaseError("\nTicket with that id already exist!"@)
            } else {
                action is Store
            },
            CreateEvent::Stored { ok } => if ok {
                action is Save
            } else {
                action matches CreateAction::Finish(Err(e)) && e@
                    == TicketErrorView::DatabaseError("\nCould not save ticket"@)
            },
            CreateEvent::Saved { ok } => if ok {
                action matches CreateAction::Finish(Ok(m)) && m@ == created_message(ticket_id)
            } else {
                action matches CreateAction::Finish(Err(e)) && e@
                    == TicketErrorView::DatabaseError("\nCould not save ticket"@)
            },
        },
{
    match event {
        CreateEvent::Checked { exists } => {
            if exists {
                CreateAction::Finish(
                    Err(TicketError::DatabaseError(literal("\nTicket with that id already exist!"))),
                )
            } else {
                CreateAction::Store
            }
        },
        CreateEvent::Stored { ok } => {
            if ok {
                CreateAction::Save
            } else {
                CreateAction::Finish(Err(TicketError::DatabaseError(literal("\nCould not save ticket"))))
            }
        },
        CreateEvent::Saved { ok } => {
            if ok {
                let mut m = literal("\nTicket ID: ");
                let id = ticket_key(ticket_id);
                push_str(&mut m, id.as_str());
                push_str(&mut m, " Successfully Created!\n\n");
                CreateAction::Finish(Ok(m))
            } else {
                CreateAction::Finish(Err(TicketError::DatabaseError(literal("\nCould not save ticket"))))
            }
        },
    }
}

/// Where a scan stands.
pub enum ScanState {
    /// The question has been sent to be written; the ticket waits for the answer.
    Prompting(Ticket),
    /// The question is to be flushed to the user.
    Flushing(Ticket),
    /// The user's line is to be read.
    Reading(Ticket),
    /// The burned ticket has been sent to be stored.
    Storing,
    /// The store is to be saved.
    Saving,
    /// The parting lines have been sent to be written.
    Leaving,
    /// The scan is over.
    Finished,
}

/// What the last piece of outside work of a scan gave; errors come as their text.
pub enum ScanEvent {
    Written(Result<(), String>),
    Flushed(Result<(), String>),
    LineRead(Result<String, String>),
    Stored(Result<(), String>),
    Saved(Result<(), String>),
}

/// What to do next in a scan.
pub enum ScanAction {
    /// Write this text to the user.
    Write(String),
    /// Flush what was written.
    Flush,
    /// Read one line from the user.
    ReadLine,
    /// Put this ticket in the store under its key.
    Store(Ticket),
    /// Save the store.
    Save,
    /// Stop with this outcome.
    Finish(Result<String, TicketError>),
}

/// The question the user is asked.
pub open spec fn scan_question() -> Seq<char> {
    "\nDo you want to use the ticket? (y/n): "@
}

/// Whether `event` is what the outside work that `state` waits for gives.
pub open spec fn scan_awaits(state: ScanState, event: ScanEvent) -> bool {
    match state {
        ScanState::Prompting(_) => event is Written,
        ScanState::Flushing(_) => event is Flushed,
        ScanState::Reading(_) => event is LineRead,
        ScanState::Storing => event is Stored,
        ScanState::Saving => event is Saved,
        ScanState::Leaving => event is Written,
        ScanState::Finished => false,
    }
}

/// Whether `action` stops with the database error `message`.
pub open spec fn fails_with(action: ScanAction, message: Seq<char>) -> bool {
    action matches ScanAction::Finish(Err(e)) && e@ == TicketErrorView::DatabaseError(message)
}

impl ScanState {
    /// Whether `event` is what the outside work that the scan waits for gives.
    pub fn awaits(&self, event: &ScanEvent) -> (b: bool)
        ensures
            b == scan_awaits(*self, *event),
    {
        match self {
            ScanState::Prompting(_) => matches!(event, ScanEvent::Written(_)),
            ScanState::Flushing(_) => matches!(event, ScanEvent::Flushed(_)),
            ScanState::Reading(_) => matches!(event, ScanEvent::LineRead(_)),
            ScanState::Storing => matches!(event, ScanEvent::Stored(_)),
            ScanState::Saving => matches!(event, ScanEvent::Saved(_)),
            ScanState::Leaving => matches!(event, ScanEvent::Written(_)),
            ScanState::Finished => false,
        }
    }
}

/// A database error whose message is `prefix` followed by `detail`.
fn database_error(prefix: &str, detail: &str) -> (e: TicketError)
    ensures
        e@ == TicketErrorView::DatabaseError(prefix@ + detail@),
{
    let mut m = literal(prefix);
    push_str(&mut m, detail);
    TicketError::DatabaseError(m)
}

/// Starts the scan of the ticket found under the scanned key, if any: a missing ticket
/// ends the scan; a found one is asked about.
pub fn scan_start(found: Option<Ticket>) -> (res: (ScanState, ScanAction))
    ensures
        match found {
            None => res.0 is Finished && fails_with(res.1, "\nCould not retrieve ticket!"@),
            Some(t) => res.0 matches ScanState::Prompting(u) && u@ == t@ && (res.1 matches ScanAction::Write(q)
                && q@ == scan_question()),
        },
{
    match found {
        None => (
            ScanState::Finished,
            ScanAction::Finish(Err(TicketError::DatabaseError(literal("\nCould not retrieve ticket!")))),
        ),
        Some(t) => (
            ScanState::Prompting(t),
            ScanAction::Write(literal("\nDo you want to use the ticket? (y/n): ")),
        ),
    }
}

/// Takes the scan one step on: the question is written and flushed, then a line is read;
/// a yes burns the ticket (with the key `master_seed` derives) and stores and saves it,
/// a no writes the parting lines and ends the scan as left by the user, and anything
/// else asks again. Each failure of outside work ends the scan with its error.
pub fn scan_step(state: ScanState, event: ScanEvent, master_seed: &[u8]) -> (res: (
    ScanState,
    ScanAction,
))
    requires
        scan_awaits(state, event),
    ensures
        match state {
            ScanState::Reading(t) => (event matches ScanEvent::LineRead(Ok(line)) && answer_of(
                line@,
            ) == Answer::Yes && signed_with(t@, master_seed@) && t@.status
                == TicketStatus::Unused) ==> (res.0 is Storing && (res.1 matches ScanAction::Store(
                u,
            ) && u@ == (TicketView { status: TicketStatus::Used, ..t@ }))),
            _ => true,
        },
        match state {
            ScanState::Prompting(t) => match event {
                ScanEvent::Written(Err(e)) => res.0 is Finished && fails_with(
                    res.1,
                    "Write Error -> "@ + e@,
                ),
                _ => res.0 matches ScanState::Flushing(u) && u@ == t@ && res.1 is Flush,
            },
            ScanState::Flushing(t) => match event {
                ScanEvent::Flushed(Err(e)) => res.0 is Finished && fails_with(
                    res.1,
                    "User Input Error -> "@ + e@,
                ),
                _ => res.0 matches ScanState::Reading(u) && u@ == t@ && res.1 is ReadLine,
            },
            ScanState::Reading(t) => match event {
                ScanEvent::LineRead(Err(e)) => res.0 is Finished && fails_with(
                    res.1,
                    "Read Error: "@ + e@,
                ),
                ScanEvent::LineRead(Ok(line)) => match answer_of(line@) {
                    Answer::Yes => match burn_result(t@, master_seed@) {
                        Ok(b) => res.0 is Storing && (res.1 matches ScanAction::Store(u) && u@ == b),
                        Err(m) => res.0 is Finished && fails_with(
                            res.1,
                            "\nError updating ticket: "@ + m,
                        ),
                    },
                    Answer::No => res.0 is Leaving && (res.1 matches ScanAction::Write(w) && w@
                        == "\n\n\n\n"@),
                    Answer::Other => res.0 matches ScanState::Prompting(u) && u@ == t@ && (res.1 matches ScanAction::Write(
                        q,
                    ) && q@ == scan_question()),
                },
                _ => false,
            },
            ScanState::Storing => match event {
                ScanEvent::Stored(Err(e)) => res.0 is Finished && fails_with(
                    res.1,
                    "\nError updating ticket -> "@ + e@,
                ),
                _ => res.0 is Saving && res.1 is Save,
            },
            ScanState::Saving => match event {
                ScanEvent::Saved(Err(e)) => res.0 is Finished && fails_with(
                    res.1,
                    "\nError saving database -> "@ + e@,
                ),
                _ => res.0 is Finished && (res.1 matches ScanAction::Finish(Ok(m)) && m@
                    == "\nTicket Used Successfully!"@),
            },
            ScanState::Leaving => match event {
                ScanEvent::Written(Err(e)) => res.0 is Finished && fails_with(
                    res.1,
                    "Write Error -> "@ + e@,
                ),
                _ => res.0 is Finished && fails_with(res.1, "\nUser Exited CLI"@),
            },
            ScanState::Finished => false,
        },
{
    match state {
        ScanState::Prompting(t) => match event {
            ScanEvent::Written(Err(e)) => (
                ScanState::Finished,
                ScanAction::Finish(Err(database_error("Write Error -> ", e.as_str()))),
            ),
            _ => (ScanState::Flushing(t), ScanAction::Flush),
        },
        ScanState::Flushing(t) => match event {
            ScanEvent::Flushed(Err(e)) => (
                ScanState::Finished,
                ScanAction::Finish(Err(database_error("User Input Error -> ", e.as_str()))),
            ),
            _ => (ScanState::Reading(t), ScanAction::ReadLine),
        },
        ScanState::Reading(t) => match event {
            ScanEvent::LineRead(Ok(line)) => match read_answer(line.as_str()) {
                Answer::Yes => match t.burn_ticket(master_seed) {
                    Ok(b) => (ScanState::Storing, ScanAction::Store(b)),
                    Err(m) => (
                        ScanState::Finished,
                        ScanAction::Finish(
                            Err(database_error("\nError updating ticket: ", m.as_str())),
                        ),
                    ),
                },
                Answer::No => (ScanState::Leaving, ScanAction::Write(literal("\n\n\n\n"))),
                Answer::Other => (
                    ScanState::Prompting(t),
                    ScanAction::Write(literal("\nDo you want to use the ticket? (y/n): ")),
                ),
            },
            ScanEvent::LineRead(Err(e)) => (
                ScanState::Finished,
                ScanAction::Finish(Err(database_error("Read Error: ", e.as_str()))),
            ),
            _ => (ScanState::Finished, ScanAction::Flush),
        },
        ScanState::Storing => match event {
            ScanEvent::Stored(Err(e)) => (
                ScanState::Finished,
                ScanAction::Finish(Err(database_error("\nError updating ticket -> ", e.as_str()))),
            ),
            _ => (ScanState::Saving, ScanAction::Save),
        },
        ScanState::Saving => match event {
            ScanEvent::Saved(Err(e)) => (
                ScanState::Finished,
                ScanAction::Finish(Err(database_error("\nError saving database -> ", e.as_str()))),
            ),
            _ => (ScanState::Finished, ScanAction::Finish(Ok(literal("\nTicket Used Successfully!")))),
        },
        ScanState::Leaving => match event {
            ScanEvent::Written(Err(e)) => (
                ScanState::Finished,
                ScanAction::Finish(Err(database_error("Write Error -> ", e.as_str()))),
            ),
            _ => (
                ScanState::Finished,
                ScanAction::Finish(Err(TicketError::DatabaseError(literal("\nUser Exited CLI")))),
            ),
        },
        ScanState::Finished => (ScanState::Finished, ScanAction::Flush),
    }
}

} // verus!
