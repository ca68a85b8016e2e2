# ticket_validator

A command-line tool that creates, signs, validates and burns event tickets,
built around a library verified with Verus.

- `src/` — the verified library:
  - `price.rs`: fixed-point prices in thousandths, their parser, their text and arithmetic;
  - `ids.rs`: ticket identities (UUID values) and their hyphenated text;
  - `crypto.rs`: per-ticket keys derived with HKDF-SHA256 from a master seed, Ed25519 signing and checking;
  - `ticket.rs`: signed tickets, issuing, checking and burning;
  - `ticket_lib.rs`: the first, unsigned form of a ticket;
  - `db.rs`: the decisions of storing a ticket and of scanning it with the user;
  - `answer.rs`, `event.rs`, `errors.rs`, `text.rs`: user answers, events, errors, text helpers.
- `app/` — the program: command line, `.env` master seed, the `pickledb` store and the terminal.
- `tests/` — tests of the library.

The master seed is read from `MASTER_SEED` (after loading `.env`) and handed to the library.
