use vstd::prelude::*;
use vstd::string::*;

use crate::text::{literal, push_str};

verus! {

/// The errors of the ticket validator.
#[derive(Debug)]
pub enum TicketError {
    InvalidTicket(String),
    DatabaseError(String),
    CryptoError(String),
    PriceError(String),
}

/// What an error holds, as mathematical text.
pub enum TicketErrorView {
    InvalidTicket(Seq<char>),
    DatabaseError(Seq<char>),
    CryptoError(Seq<char>),
    PriceError(Seq<char>),
}

impl View for TicketError {
    type V = TicketErrorView;

    open spec fn view(&self) -> TicketErrorView {
        match self {
            TicketError::InvalidTicket(m) => TicketErrorView::InvalidTicket(m@),
            TicketError::DatabaseError(m) => TicketErrorView::DatabaseError(m@),
            TicketError::CryptoError(m) => TicketErrorView::CryptoError(m@),
            TicketError::PriceError(m) => TicketErrorView::PriceError(m@),
        }
    }
}

impl TicketErrorView {
    /// The text the error is displayed as: a prefix naming its kind, then its message.
    pub open spec fn text(self) -> Seq<char> {
        match self {
            TicketErrorView::InvalidTicket(m) => "InvalidTicket Error: "@ + m,
            TicketErrorView::DatabaseError(m) => "Database Error: "@ + m,
            TicketErrorView::CryptoError(m) => "Encrypting Ticket Error: "@ + m,
            TicketErrorView::PriceError(m) => "Price Error: "@ + m,
        }
    }
}

impl TicketError {
    /// The display text of the error.
    pub fn to_string(&self) -> (s: String)
        ensures
            s@ == self@.text(),
    {
        match self {
            TicketError::InvalidTicket(m) => {
                let mut s = literal("InvalidTicket Error: ");
                push_str(&mut s, m.as_str());
                s
            },
            TicketError::DatabaseError(m) => {
                let mut s = literal("Database Error: ");
                push_str(&mut s, m.as_str());
                s
            },
            TicketError::CryptoError(m) => {
                let mut s = literal("Encrypting Ticket Error: ");
                push_str(&mut s, m.as_str());
                s
            },
            TicketError::PriceError(m) => {
                let mut s = literal("Price Error: ");
                push_str(&mut s, m.as_str());
                s
            },
        }
    }
}

} // verus!
