//! Ticket identities: 128-bit UUIDs, held as their value, and their text.

use vstd::prelude::*;
use vstd::arithmetic::div_mod::{lemma_div_denominator, lemma_fundamental_div_mod};
use vstd::arithmetic::power::{lemma_pow_positive, pow};

verus! {

/// The lowercase hexadecimal digit of `n`, for `0 <= n < 16`.
pub open spec fn hex_char(n: int) -> char {
    if n < 10 {
        (n + 48) as char
    } else {
        (n + 87) as char
    }
}

/// The `k`-th hexadecimal digit of `id`, counting from the most significant (`0 <= k < 32`).
pub open spec fn id_nibble(id: u128, k: int) -> int {
    (id as int / pow(16, (31 - k) as nat)) % 16
}

/// How many hyphens stand before position `i` of an identity's text.
pub open spec fn hyphens_before(i: int) -> int {
    if i < 9 {
        0
    } else if i < 14 {
        1
    } else if i < 19 {
        2
    } else if i < 24 {
        3
    } else {
        4
    }
}

/// The hyphenated lowercase text of an identity: 32 hexadecimal digits, most
/// significant first, in groups of 8, 4, 4, 4 and 12 joined by hyphens.
pub open spec fn id_text(id: u128) -> Seq<char> {
    Seq::new(
        36,
        |i: int|
            if i == 8 || i == 13 || i == 18 || i == 23 {
                '-'
            } else {
                hex_char(id_nibble(id, i - hyphens_before(i)))
            },
    )
}

/// The text of the UUID whose value is `id`, as `uuid::Uuid::from_u128` and its
/// `Display` write it. The contract claims that this text is the hyphenated
/// lowercase form that `id_text` states.
#[verifier::external_body]
fn uuid_display(id: u128) -> (s: String)
    ensures
        s@ == id_text(id),
{
    uuid::Uuid::from_u128(id).to_string()
}

/// A fresh random identity from `uuid::Uuid::new_v4`, taken by its value. The
/// contract claims only what holds of every outcome: the version field is 4 and
/// the variant field is the RFC 4122 one (binary `10`).
#[verifier::external_body]
pub(crate) fn random_ticket_id() -> (id: u128)
    ensures
        (id >> 76u128) & 0xfu128 == 4,
        (id >> 62u128) & 0x3u128 == 2,
{
    uuid::Uuid::new_v4().as_u128()
}

/// The key under which the ticket with identity `id` is stored: the text of its identity.
pub fn ticket_key(id: u128) -> (key: String)
    ensures
        key@ == id_text(id),
{
    uuid_display(id)
}


/// The position in an identity's text of its `k`-th hexadecimal digit.
pub open spec fn digit_position(k: int) -> int {
    if k < 8 {
        k
    } else if k < 12 {
        k + 1
    } else if k < 16 {
        k + 2
    } else if k < 20 {
        k + 3
    } else {
        k + 4
    }
}

/// Distinct hexadecimal digits are written as distinct characters.
proof fn lemma_hex_char_injective(m: int, n: int)
    requires
        0 <= m < 16,
        0 <= n < 16,
        hex_char(m) == hex_char(n),
    ensures
        m == n,
{
    assert(hex_char(m) as int == if m < 10 { m + 48 } else { m + 87 });
    assert(hex_char(n) as int == if n < 10 { n + 48 } else { n + 87 });
}

/// `16^32` is `2^128`.
proof fn lemma_pow16_32()
    ensures
        pow(16, 32) == 0x1_0000_0000_0000_0000_0000_0000_0000_0000,
{
    reveal(pow);
    reveal_with_fuel(pow, 33);
}

/// Identities whose leading `j` hexadecimal digits agree agree on everything above
/// their last `32 - j` digits.
proof fn lemma_leading_digits_agree(a: u128, b: u128, j: nat)
    requires
        j <= 32,
        forall|k: int| 0 <= k < 32 ==> id_nibble(a, k) == id_nibble(b, k),
    ensures
        a as int / pow(16, (32 - j) as nat) == b as int / pow(16, (32 - j) as nat),
    decreases j,
{
    if j == 0 {
        lemma_pow16_32();
    } else {
        lemma_leading_digits_agree(a, b, (j - 1) as nat);
        let e = (32 - j) as nat;
        lemma_pow_positive(16, e);
        assert(pow(16, e + 1) == 16 * pow(16, e)) by {
            reveal(pow);
            assert((e + 1 - 1) as nat == e);
        }
        let p = pow(16, e);
        let x = a as int / p;
        let y = b as int / p;
        lemma_div_denominator(a as int, p, 16);
        lemma_div_denominator(b as int, p, 16);
        assert(p * 16 == pow(16, e + 1));
        assert(((32 - (j - 1)) as nat) == e + 1);
        assert(x / 16 == y / 16);
        assert(id_nibble(a, j - 1) == x % 16);
        assert(id_nibble(b, j - 1) == y % 16);
        lemma_fundamental_div_mod(x, 16);
        lemma_fundamental_div_mod(y, 16);
    }
}

/// Distinct identities have distinct texts.
pub proof fn lemma_id_text_injective(a: u128, b: u128)
    requires
        id_text(a) == id_text(b),
    ensures
        a == b,
{
    assert forall|k: int| 0 <= k < 32 implies id_nibble(a, k) == id_nibble(b, k) by {
        let i = digit_position(k);
        assert(i - hyphens_before(i) == k);
        assert(i != 8 && i != 13 && i != 18 && i != 23 && 0 <= i < 36);
        assert(id_text(a)[i] == hex_char(id_nibble(a, k)));
        assert(id_text(b)[i] == hex_char(id_nibble(b, k)));
        lemma_pow_positive(16, (31 - k) as nat);
        lemma_hex_char_injective(id_nibble(a, k), id_nibble(b, k));
    }
    lemma_leading_digits_agree(a, b, 32);
    assert(pow(16, 0) == 1) by {
        reveal(pow);
    }
}

} // verus!
