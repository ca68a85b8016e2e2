//! The first form of a ticket: a fixed placeholder identity and signature, and
//! the status rules of burning.

use vstd::prelude::*;

use crate::price::Price;
use crate::text::literal;

verus! {

/// Where a ticket stands.
#[derive(Debug, Clone, Copy, PartialEq, Eq, Structural)]
pub enum TicketStatus {
    Unused,
    Used,
    Cancelled,
}

/// A ticket for an event.
#[derive(Debug)]
pub struct Ticket {
    pub id: String,
    pub event: String,
    pub price: Price,
    status: TicketStatus,
    signature: String,
}

/// What burning a ticket of status `s` gives: the status it moves to, or the refusal.
pub open spec fn burn_outcome(s: TicketStatus) -> Result<TicketStatus, Seq<char>> {
    match s {
        TicketStatus::Unused => Ok(TicketStatus::Used),
        TicketStatus::Used => Err("Ticket has already been used!"@),
        TicketStatus::Cancelled => Err("Event has been cancelled. Ticket is invalid!"@),
    }
}

/// What a ticket holds, as mathematical values.
pub struct TicketView {
    pub id: Seq<char>,
    pub event: Seq<char>,
    pub price: u128,
    pub status: TicketStatus,
    pub signature: Seq<char>,
}

impl View for Ticket {
    type V = TicketView;

    closed spec fn view(&self) -> TicketView {
        TicketView {
            id: self.id@,
            event: self.event@,
            price: self.price@,
            status: self.status,
            signature: self.signature@,
        }
    }
}

impl Ticket {

    /// A new, unused ticket for `event` at `price`, with the placeholder identity and signature.
    pub fn new(event: String, price: Price) -> (t: Ticket)
        ensures
            t@ == (TicketView {
                id: "theidtee"@,
                event: event@,
                price: price@,
                status: TicketStatus::Unused,
                signature: "yuagdhopoijfv"@,
            }),
    {
        Ticket {
            id: literal("theidtee"),
            event,
            price,
            status: TicketStatus::Unused,
            signature: literal("yuagdhopoijfv"),
        }
    }

    /// Checks a ticket by its identity; this form of the ticket accepts every identity
    /// and has no effect.
    pub fn verify(ticket_id: &str) {
    }

    /// The status of the ticket.
    pub fn status(&self) -> (s: TicketStatus)
        ensures
            s == self@.status,
    {
        self.status
    }

    /// The signature text of the ticket.
    pub fn signature(&self) -> (s: &str)
        ensures
            s@ == self@.signature,
    {
        self.signature.as_str()
    }

    /// Burns an unused ticket, which then stands as used; a used or cancelled ticket is refused.
    pub fn burn_ticket(self) -> (res: Result<Ticket, String>)
        ensures
            match burn_outcome(self@.status) {
                Ok(s) => res matches Ok(t) && t@ == (TicketView { status: s, ..self@ }),
                Err(m) => res matches Err(e) && e@ == m,
            },
    {
        let mut ticket = self;
        match ticket.status {
            TicketStatus::Unused => {
                ticket.status = TicketStatus::Used;
                Ok(ticket)
            },
            TicketStatus::Used => Err(literal("Ticket has already been used!")),
            TicketStatus::Cancelled => Err(literal("Event has been cancelled. Ticket is invalid!")),
        }
    }
}

/// Only an unused ticket can be burned, and a burned ticket cannot be burned again.
pub proof fn lemma_burn_once(s: TicketStatus)
    ensures
        burn_outcome(s) is Ok <==> s == TicketStatus::Unused,
        burn_outcome(s) matches Ok(n) ==> burn_outcome(n) is Err,
{
}

} // verus!
