//! Signed tickets: issuing, checking and burning.

use vstd::prelude::*;
use vstd::string::*;
use vstd::utf8::*;

use crate::crypto::{
    derived_key, ed25519_accepts, ed25519_signature, sign_message, verify_signature,
};
use crate::errors::{TicketError, TicketErrorView};
use crate::ids::{id_text, lemma_id_text_injective, random_ticket_id, ticket_key};
use crate::price::{
    is_digit_char, lemma_short_text_chars, lemma_short_text_injective,
    lemma_short_text_round_trip, lemma_short_text_shortest, price_from_bytes, short_price_text,
    Price,
};
use crate::text::{literal, push_str};

verus! {

/// Where a ticket stands.
#[derive(Debug, Clone, Copy, PartialEq, Eq, Structural)]
pub enum TicketStatus {
    Unused,
    Used,
    Cancelled,
}

/// A ticket for an event, signed with a key derived for its identity.
#[derive(Debug)]
pub struct Ticket {
    pub id: u128,
    pub event: String,
    pub price: Price,
    status: TicketStatus,
    signature: [u8; 64],
}

/// What a ticket holds, as mathematical values.
pub struct TicketView {
    pub id: u128,
    pub event: Seq<char>,
    pub price: u128,
    pub status: TicketStatus,
    pub signature: Seq<u8>,
}

impl View for Ticket {
    type V = TicketView;

    closed spec fn view(&self) -> TicketView {
        TicketView {
            id: self.id,
            event: self.event@,
            price: self.price@,
            status: self.status,
            signature: self.signature@,
        }
    }
}

impl Clone for Ticket {
    /// A copy of the ticket, holding the same values.
    fn clone(&self) -> (res: Ticket)
        ensures
            res@ == self@,
    {
        Ticket {
            id: self.id,
            event: self.event.clone(),
            price: self.price,
            status: self.status,
            signature: self.signature,
        }
    }
}

/// The text that a ticket's signature covers: its identity, its price (in short
/// form) and its event.
pub open spec fn ticket_message(id: u128, price: u128, event: Seq<char>) -> Seq<char> {
    id_text(id) + short_price_text(price) + event
}

/// The bytes that a ticket's signature covers.
pub open spec fn message_bytes(t: TicketView) -> Seq<u8> {
    encode_utf8(ticket_message(t.id, t.price, t.event))
}

/// The ticket's signature is the one its derived key makes over its message.
pub open spec fn signed_with(t: TicketView, master_seed: Seq<u8>) -> bool {
    t.signature == ed25519_signature(derived_key(t.id, master_seed), message_bytes(t))
}

/// Verification with the ticket's derived key accepts its signature over its message.
pub open spec fn authentic(t: TicketView, master_seed: Seq<u8>) -> bool {
    ed25519_accepts(derived_key(t.id, master_seed), message_bytes(t), t.signature)
}

/// What burning the ticket `t` gives: the ticket standing as used, or the refusal's text.
pub open spec fn burn_result(t: TicketView, master_seed: Seq<u8>) -> Result<TicketView, Seq<char>> {
    if !authentic(t, master_seed) {
        Err("Ticket is invalid!"@)
    } else {
        match t.status {
            TicketStatus::Unused => Ok(TicketView { status: TicketStatus::Used, ..t }),
            TicketStatus::Used => Err("Ticket has already been used!"@),
            TicketStatus::Cancelled => Err("Event has been cancelled. Ticket is invalid!"@),
        }
    }
}

/// The message that the ticket's signature covers.
fn message_text(id: u128, price: &Price, event: &str) -> (m: String)
    ensures
        m@ == ticket_message(id, price@, event@),
{
    let mut m = ticket_key(id);
    let p = price.to_short_string();
    push_str(&mut m, p.as_str());
    push_str(&mut m, event);
    m
}

impl Ticket {
    /// Issues an unused ticket with identity `id` for `event` at `price`, signed with
    /// the key that `master_seed` derives for `id`.
    pub fn issue(id: u128, event: String, price: Price, master_seed: &[u8]) -> (res: Result<
        Ticket,
        TicketError,
    >)
        ensures
            res matches Ok(t) && t@.id == id && t@.event == event@ && t@.price == price@
                && t@.status == TicketStatus::Unused && signed_with(t@, master_seed@),
    {
        let message = message_text(id, &price, event.as_str());
        let signature = sign_message(message.as_str().as_bytes(), id, master_seed)?;
        Ok(Ticket { id, event, price, status: TicketStatus::Unused, signature })
    }

    /// Creates an unused ticket for `event` at `price` under a fresh random identity,
    /// signed with the key that `master_seed` derives for that identity.
    pub fn try_new(event: String, price: Price, master_seed: &[u8]) -> (res: Result<
        Ticket,
        TicketError,
    >)
        ensures
            res matches Ok(t) && t@.event == event@ && t@.price == price@ && t@.status
                == TicketStatus::Unused && signed_with(t@, master_seed@) && (t@.id >> 76u128)
                & 0xfu128 == 4 && (t@.id >> 62u128) & 0x3u128 == 2,
    {
        let id = random_ticket_id();
        Ticket::issue(id, event, price, master_seed)
    }

    /// Rebuilds a ticket from the values it holds.
    pub fn from_parts(
        id: u128,
        event: String,
        price: Price,
        status: TicketStatus,
        signature: [u8; 64],
    ) -> (t: Ticket)
        ensures
            t@ == (TicketView { id, event: event@, price: price@, status, signature: signature@ }),
    {
        Ticket { id, event, price, status, signature }
    }

    /// The identity of the ticket.
    pub fn id(&self) -> (id: u128)
        ensures
            id == self@.id,
    {
        self.id
    }

    /// The event of the ticket.
    pub fn event(&self) -> (e: &str)
        ensures
            e@ == self@.event,
    {
        self.event.as_str()
    }

    /// The price of the ticket.
    pub fn price(&self) -> (p: Price)
        ensures
            p@ == self@.price,
    {
        self.price
    }

    /// The status of the ticket.
    pub fn status(&self) -> (s: TicketStatus)
        ensures
            s == self@.status,
    {
        self.status
    }

    /// The signature of the ticket.
    pub fn signature(&self) -> (s: [u8; 64])
        ensures
            s@ == self@.signature,
    {
        self.signature
    }

    /// Checks the ticket's signature with the key that `master_seed` derives for it:
    /// `Ok(true)` when it holds, an error when it does not. A ticket issued under
    /// `master_seed` always passes.
    pub fn verify(&self, master_seed: &[u8]) -> (res: Result<bool, TicketError>)
        ensures
            authentic(self@, master_seed@) ==> res matches Ok(true),
            !authentic(self@, master_seed@) ==> (res matches Err(e) && e@
                == TicketErrorView::CryptoError("Error Verifying Key"@)),
            signed_with(self@, master_seed@) ==> res matches Ok(true),
    {
        let message = message_text(self.id, &self.price, self.event.as_str());
        verify_signature(message.as_str().as_bytes(), self.signature, self.id, master_seed)
    }

    /// Burns the ticket: an authentic unused ticket comes back standing as used; a
    /// ticket whose signature does not hold is refused as invalid, and a used or
    /// cancelled one is refused with its status.
    pub fn burn_ticket(self, master_seed: &[u8]) -> (res: Result<Ticket, String>)
        ensures
            match burn_result(self@, master_seed@) {
                Ok(t) => res matches Ok(b) && b@ == t,
                Err(m) => res matches Err(e) && e@ == m,
            },
            signed_with(self@, master_seed@) && self@.status == TicketStatus::Unused ==> (res
                matches Ok(b) && b@ == (TicketView { status: TicketStatus::Used, ..self@ })),
    {
        let mut ticket = self;
        let message = message_text(ticket.id, &ticket.price, ticket.event.as_str());
        match verify_signature(
            message.as_str().as_bytes(),
            ticket.signature,
            ticket.id,
            master_seed,
        ) {
            Ok(value) => {
                if value {
                    match ticket.status {
                        TicketStatus::Unused => {
                            ticket.status = TicketStatus::Used;
                            Ok(ticket)
                        },
                        TicketStatus::Used => Err(literal("Ticket has already been used!")),
                        TicketStatus::Cancelled => Err(
                            literal("Event has been cancelled. Ticket is invalid!"),
                        ),
                    }
                } else {
                    Err(literal("Ticket is invalid!"))
                }
            },
            Err(_) => Err(literal("Ticket is invalid!")),
        }
    }
}

/// A ticket that has been burned cannot be burned again: burning changes only its
/// status, so its signature still holds and it is refused as used.
pub proof fn lemma_burn_once(t: TicketView, master_seed: Seq<u8>)
    requires
        burn_result(t, master_seed) is Ok,
    ensures
        burn_result(burn_result(t, master_seed)->Ok_0, master_seed) == Err::<TicketView, Seq<char>>(
            "Ticket has already been used!"@,
        ),
{
    let b = burn_result(t, master_seed)->Ok_0;
    assert(message_bytes(b) == message_bytes(t));
}

/// Burning keeps the ticket's identity, event, price and signature, and leaves it used.
pub proof fn lemma_burn_keeps_ticket(t: TicketView, master_seed: Seq<u8>)
    requires
        burn_result(t, master_seed) is Ok,
    ensures
        t.status == TicketStatus::Unused,
        burn_result(t, master_seed)->Ok_0 == (TicketView { status: TicketStatus::Used, ..t }),
{
}


/// `true` when `event` does not begin with a digit or a point, so that where the
/// price ends in a signed message can be told.
pub open spec fn event_opens_plainly(event: Seq<char>) -> bool {
    event.len() == 0 || !(is_digit_char(event[0]) || event[0] == '.')
}

/// The text a signature covers determines the ticket's identity, price and event,
/// for events that do not begin with a digit or a point: two such tickets that
/// differ in any of them never have the same signed message.
pub proof fn lemma_message_determines_ticket(
    id1: u128,
    price1: u128,
    event1: Seq<char>,
    id2: u128,
    price2: u128,
    event2: Seq<char>,
)
    requires
        event_opens_plainly(event1),
        event_opens_plainly(event2),
        ticket_message(id1, price1, event1) == ticket_message(id2, price2, event2),
    ensures
        id1 == id2,
        price1 == price2,
        event1 == event2,
{
    let m = ticket_message(id1, price1, event1);
    assert(m.take(36) =~= id_text(id1));
    assert(ticket_message(id2, price2, event2).take(36) =~= id_text(id2));
    lemma_id_text_injective(id1, id2);
    let p1 = short_price_text(price1);
    let p2 = short_price_text(price2);
    let r1 = p1 + event1;
    let r2 = p2 + event2;
    assert(m.skip(36) =~= r1);
    assert(ticket_message(id2, price2, event2).skip(36) =~= r2);
    lemma_short_text_chars(price1);
    lemma_short_text_chars(price2);
    let l1 = p1.len() as int;
    let l2 = p2.len() as int;
    if l1 < l2 {
        assert(r2[l1] == p2[l1]);
        assert(is_digit_char(p2[l1]) || p2[l1] == '.');
        assert(r1[l1] == event1[0]);
    } else if l2 < l1 {
        assert(r1[l2] == p1[l2]);
        assert(is_digit_char(p1[l2]) || p1[l2] == '.');
        assert(r2[l2] == event2[0]);
    }
    assert(r1.take(l1) =~= p1);
    assert(r2.take(l2) =~= p2);
    lemma_short_text_injective(price1, price2);
    assert(r1.skip(l1) =~= event1);
    assert(r2.skip(l2) =~= event2);
}


/// The text a ticket's signature covers is laid out the same way whatever the event
/// begins with: the identity's text, then the price in its shortest decimal form (as a
/// float displays it: it reads back as the price, is made of digits and at most a
/// point, has no leading zero, no trailing point and no trailing fraction zero), then
/// the event exactly as written.
pub proof fn lemma_signed_text_layout(id: u128, price: u128, event: Seq<char>)
    ensures
        ticket_message(id, price, event) == ticket_message(id, price, Seq::empty()) + event,
        ticket_message(id, price, Seq::empty()).take(36) == id_text(id),
        ({
            let t = ticket_message(id, price, Seq::empty()).skip(36);
            &&& price_from_bytes(encode_utf8(t)) == Ok::<u128, TicketErrorView>(price)
            &&& forall|j: int| 0 <= j < t.len() ==> is_digit_char(#[trigger] t[j]) || t[j] == '.'
            &&& t.len() > 0
            &&& t.last() != '.'
            &&& t.contains('.') ==> t.last() != '0'
            &&& t[0] == '0' ==> t.len() == 1 || t[1] == '.'
        }),
{
    let p = short_price_text(price);
    assert(ticket_message(id, price, Seq::empty()) =~= id_text(id) + p);
    assert(ticket_message(id, price, event) =~= ticket_message(id, price, Seq::empty()) + event);
    assert((id_text(id) + p).take(36) =~= id_text(id));
    assert((id_text(id) + p).skip(36) =~= p);
    lemma_short_text_round_trip(price);
    lemma_short_text_chars(price);
    lemma_short_text_shortest(price);
}

} // verus!
