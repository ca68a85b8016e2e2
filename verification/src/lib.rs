//! Creation, signing, validation and burning of event tickets, with prices
//! held as exact fixed-point decimals.

pub mod answer;
pub mod crypto;
pub mod db;
pub mod errors;
pub mod event;
pub mod ids;
pub mod price;
pub mod text;
pub mod ticket;
pub mod ticket_lib;
