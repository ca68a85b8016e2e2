use vstd::prelude::*;
use vstd::string::*;
use vstd::utf8::*;
use vstd::std_specs::ops::{AddSpec, DivSpec, MulSpec, SubSpec};

use crate::errors::{TicketError, TicketErrorView};
use crate::text::{literal, push_char};

verus! {

/// The byte of the decimal point.
pub const DOT: u8 = 46;

/// The byte of the plus sign that may lead an unsigned number.
pub const PLUS: u8 = 43;

/// `true` when `c` is an ASCII decimal digit.
pub open spec fn is_digit(c: u8) -> bool {
    48 <= c <= 57
}

/// `true` when every byte of `s` is an ASCII decimal digit.
pub open spec fn all_digits(s: Seq<u8>) -> bool {
    forall|i: int| 0 <= i < s.len() ==> is_digit(#[trigger] s[i])
}

/// The number that a run of decimal digits denotes, most significant first.
pub open spec fn digits_value(s: Seq<u8>) -> nat
    decreases s.len(),
{
    if s.len() == 0 {
        0
    } else {
        digits_value(s.drop_last()) * 10 + (s.last() - 48) as nat
    }
}

/// `10` to the power `n`.
pub open spec fn ten_pow(n: nat) -> nat
    decreases n,
{
    if n == 0 {
        1
    } else {
        10 * ten_pow((n - 1) as nat)
    }
}

/// The digits of an unsigned number's text: the text without one leading `+`.
pub open spec fn unsigned_digits(b: Seq<u8>) -> Seq<u8> {
    if b.len() > 0 && b[0] == PLUS {
        b.drop_first()
    } else {
        b
    }
}

/// What parsing `b` as an unsigned 128-bit decimal number gives: an optional
/// `+`, then at least one decimal digit, with a value that fits in 128 bits.
pub open spec fn parse_u128_spec(b: Seq<u8>) -> Option<u128> {
    let d = unsigned_digits(b);
    if d.len() == 0 || !all_digits(d) || digits_value(d) > u128::MAX {
        None
    } else {
        Some(digits_value(d) as u128)
    }
}

/// The index of the first decimal point in `b` at or after `i`, or `b.len()` if there is none.
pub open spec fn first_dot(b: Seq<u8>, i: int) -> int
    decreases b.len() - i,
{
    if i >= b.len() {
        b.len() as int
    } else if b[i] == DOT {
        i
    } else {
        first_dot(b, i + 1)
    }
}

/// The part of a price's text before its decimal point (all of it if there is none).
pub open spec fn whole_part(b: Seq<u8>) -> Seq<u8> {
    b.take(first_dot(b, 0))
}

/// The part of a price's text after its first decimal point (`"0"` if there is none).
pub open spec fn fraction_part(b: Seq<u8>) -> Seq<u8> {
    let d = first_dot(b, 0);
    if d < b.len() {
        b.skip(d + 1)
    } else {
        seq![48u8]
    }
}

/// The factor that scales a fraction of `len` digits to thousandths.
pub open spec fn fraction_scale(len: nat) -> nat {
    ten_pow((3 - len) as nat)
}

/// What the text `b` denotes as a price in thousandths, or the error that refuses it.
pub open spec fn price_from_bytes(b: Seq<u8>) -> Result<u128, TicketErrorView> {
    let whole = whole_part(b);
    let frac = fraction_part(b);
    if frac.len() > 3 {
        Err(TicketErrorView::PriceError("Too many decimal places"@))
    } else {
        match parse_u128_spec(whole) {
            None => Err(TicketErrorView::PriceError("Invalid Number"@)),
            Some(w) => match parse_u128_spec(frac) {
                None => Err(TicketErrorView::PriceError("Invalid Decimal Places"@)),
                Some(f) => if w * 1000 > u128::MAX {
                    Err(TicketErrorView::PriceError("Number too large"@))
                } else if w * 1000 + f * fraction_scale(frac.len()) > u128::MAX {
                    Err(TicketErrorView::PriceError("Number Too Large"@))
                } else {
                    Ok((w * 1000 + f * fraction_scale(frac.len())) as u128)
                },
            },
        }
    }
}

/// The value of a run of digits does not fall when more digits follow it.
pub proof fn lemma_prefix_value_le(s: Seq<u8>, i: int)
    requires
        all_digits(s),
        0 <= i <= s.len(),
    ensures
        digits_value(s.take(i)) <= digits_value(s),
    decreases s.len(),
{
    if i < s.len() {
        assert(s.drop_last().take(i) =~= s.take(i));
        lemma_prefix_value_le(s.drop_last(), i);
    } else {
        assert(s.take(i) =~= s);
    }
}

/// A run of `n` digits denotes less than `10^n`.
pub proof fn lemma_value_below_ten_pow(s: Seq<u8>)
    requires
        all_digits(s),
    ensures
        digits_value(s) < ten_pow(s.len()),
    decreases s.len(),
{
    if s.len() > 0 {
        lemma_value_below_ten_pow(s.drop_last());
        let v = digits_value(s.drop_last());
        let t = ten_pow((s.len() - 1) as nat);
        assert(is_digit(s[s.len() - 1]));
        assert(v * 10 + 9 < t * 10) by (nonlinear_arith)
            requires
                v < t,
        ;
    }
}

/// Parses the bytes `b[lo..hi]` as an unsigned 128-bit decimal number.
fn parse_u128_bytes(b: &[u8], lo: usize, hi: usize) -> (r: Option<u128>)
    requires
        lo <= hi <= b@.len(),
    ensures
        r == parse_u128_spec(b@.subrange(lo as int, hi as int)),
{
    let ghost s = b@.subrange(lo as int, hi as int);
    let mut start = lo;
    if lo < hi && b[lo] == PLUS {
        start = lo + 1;
    }
    let ghost d = b@.subrange(start as int, hi as int);
    assert(unsigned_digits(s) =~= d);
    if start == hi {
        assert(d.len() == 0);
        assert(parse_u128_spec(s) == None::<u128>);
        return None;
    }
    let mut i = start;
    while i < hi
        invariant
            start <= i <= hi <= b@.len(),
            d == b@.subrange(start as int, hi as int),
            s == b@.subrange(lo as int, hi as int),
            unsigned_digits(s) == d,
            forall|k: int| start <= k < i ==> is_digit(#[trigger] b@[k]),
        decreases hi - i,
    {
        if b[i] < 48 || b[i] > 57 {
            assert(!is_digit(d[i - start]));
            return None;
        }
        i = i + 1;
    }
    assert(all_digits(d));
    let mut acc: u128 = 0;
    let mut j = start;
    while j < hi
        invariant
            start <= j <= hi <= b@.len(),
            d == b@.subrange(start as int, hi as int),
            s == b@.subrange(lo as int, hi as int),
            unsigned_digits(s) == d,
            all_digits(d),
            acc as nat == digits_value(b@.subrange(start as int, j as int)),
        decreases hi - j,
    {
        let ghost p = b@.subrange(start as int, j + 1);
        assert(p.drop_last() =~= b@.subrange(start as int, j as int));
        assert(p =~= d.take(j + 1 - start));
        assert(is_digit(d[j - start]));
        let digit = (b[j] - 48) as u128;
        match acc.checked_mul(10) {
            None => {
                proof {
                    lemma_prefix_value_le(d, j + 1 - start);
                }
                return None;
            },
            Some(m) => match m.checked_add(digit) {
                None => {
                    proof {
                        lemma_prefix_value_le(d, j + 1 - start);
                    }
                    return None;
                },
                Some(a) => {
                    acc = a;
                },
            },
        }
        j = j + 1;
    }
    assert(b@.subrange(start as int, j as int) =~= d);
    Some(acc)
}

/// Finds the first decimal point in `b`, or `b.len()` if there is none.
fn find_dot(b: &[u8]) -> (i: usize)
    ensures
        i == first_dot(b@, 0),
        i <= b@.len(),
{
    let mut i: usize = 0;
    while i < b.len()
        invariant
            i <= b@.len(),
            first_dot(b@, 0) == first_dot(b@, i as int),
        decreases b@.len() - i,
    {
        if b[i] == DOT {
            return i;
        }
        i = i + 1;
    }
    i
}

/// Parses a price's text into its amount in thousandths: digits, then optionally a
/// decimal point and at most three more digits.
pub fn str_parser(value: &str) -> (res: Result<u128, TicketError>)
    ensures
        match res {
            Ok(v) => price_from_bytes(value.spec_bytes()) == Ok::<u128, TicketErrorView>(v),
            Err(e) => price_from_bytes(value.spec_bytes()) == Err::<u128, TicketErrorView>(e@),
        },
{
    let b = value.as_bytes();
    let n = b.len();
    let d = find_dot(b);
    let ghost bs = b@;
    assert(bs.subrange(0, d as int) =~= whole_part(bs));
    let frac_length: usize = if d < n {
        n - d - 1
    } else {
        1
    };
    if frac_length > 3 {
        return Err(TicketError::PriceError(literal("Too many decimal places")));
    }
    let whole = match parse_u128_bytes(b, 0, d) {
        Some(w) => w,
        None => {
            return Err(TicketError::PriceError(literal("Invalid Number")));
        },
    };
    let frac: Option<u128> = if d < n {
        assert(bs.subrange(d + 1, n as int) =~= fraction_part(bs));
        parse_u128_bytes(b, d + 1, n)
    } else {
        assert(digits_value(seq![48u8]) == 0) by {
            let z = seq![48u8];
            assert(z.drop_last() =~= Seq::<u8>::empty());
            assert(z.last() == 48u8);
            assert(digits_value(z) == digits_value(z.drop_last()) * 10 + (z.last() - 48) as nat);
        }
        Some(0)
    };
    let frac = match frac {
        Some(f) => f,
        None => {
            return Err(TicketError::PriceError(literal("Invalid Decimal Places")));
        },
    };
    proof {
        lemma_value_below_ten_pow(unsigned_digits(fraction_part(bs)));
        reveal_with_fuel(ten_pow, 4);
    }
    let scale: u128 = if frac_length == 0 {
        1000
    } else if frac_length == 1 {
        100
    } else if frac_length == 2 {
        10
    } else {
        1
    };
    let whole_scaled = match whole.checked_mul(1000) {
        Some(x) => x,
        None => {
            return Err(TicketError::PriceError(literal("Number too large")));
        },
    };
    let frac_scaled = match frac.checked_mul(scale) {
        Some(x) => x,
        None => {
            return Err(TicketError::PriceError(literal("")));
        },
    };
    match whole_scaled.checked_add(frac_scaled) {
        Some(v) => Ok(v),
        None => Err(TicketError::PriceError(literal("Number Too Large"))),
    }
}

} // verus!

verus! {

/// The character of the decimal digit `d`.
pub open spec fn digit_char(d: int) -> char {
    (d + 48) as char
}

/// The decimal text of `n`, without leading zeros.
pub open spec fn decimal_text(n: nat) -> Seq<char>
    decreases n,
{
    if n < 10 {
        seq![digit_char(n as int)]
    } else {
        decimal_text(n / 10).push(digit_char((n % 10) as int))
    }
}

/// The text of an amount of thousandths: the whole part, a point, then exactly
/// three digits of fraction.
pub open spec fn price_text(v: u128) -> Seq<char> {
    let f = v % 1000;
    decimal_text((v / 1000) as nat) + seq!['.'] + seq![
        digit_char((f / 100) as int),
        digit_char(((f / 10) % 10) as int),
        digit_char((f % 10) as int),
    ]
}

/// The bytes of a text of ASCII characters.
pub open spec fn ascii_bytes(t: Seq<char>) -> Seq<u8> {
    Seq::new(t.len(), |i: int| t[i] as u8)
}

/// A fixed-point price, held exactly in thousandths.
#[derive(Debug, Clone, Copy, PartialEq, Eq, Structural, PartialOrd, Ord)]
pub struct Price {
    value: u128,
}

impl View for Price {
    type V = u128;

    closed spec fn view(&self) -> u128 {
        self.value
    }
}


/// Prices are equal exactly when their amounts are.
pub proof fn lemma_price_eq(p: Price, q: Price)
    ensures
        p == q <==> p@ == q@,
{
}

/// The digit character of `d` is the ASCII byte `48 + d`.
proof fn lemma_digit_char(d: int)
    requires
        0 <= d < 10,
    ensures
        digit_char(d) as u8 == d + 48,
        '\0' <= digit_char(d) <= '\u{7f}',
        digit_char(d) != '.',
{
}

/// The decimal text of `n` is a non-empty run of ASCII digits whose value is `n`.
proof fn lemma_decimal_text(n: nat)
    ensures
        decimal_text(n).len() >= 1,
        is_ascii_chars(decimal_text(n)),
        all_digits(ascii_bytes(decimal_text(n))),
        digits_value(ascii_bytes(decimal_text(n))) == n,
    decreases n,
{
    let t = decimal_text(n);
    if n < 10 {
        lemma_digit_char(n as int);
        assert(ascii_bytes(t).drop_last() =~= Seq::<u8>::empty());
        assert(ascii_bytes(t).last() == n + 48);
        assert(digits_value(ascii_bytes(t)) == digits_value(ascii_bytes(t).drop_last()) * 10
            + (ascii_bytes(t).last() - 48) as nat);
    } else {
        lemma_decimal_text(n / 10);
        lemma_digit_char((n % 10) as int);
        let h = decimal_text(n / 10);
        assert(ascii_bytes(t).drop_last() =~= ascii_bytes(h));
        assert(ascii_bytes(t).last() == (n % 10) + 48);
        assert(digits_value(ascii_bytes(t)) == digits_value(ascii_bytes(h)) * 10 + n % 10);
        assert((n / 10) * 10 + n % 10 == n);
        assert(is_ascii_chars(t)) by {
            assert forall|i| 0 <= i < t.len() implies '\0' <= #[trigger] t[i] <= '\u{7f}' by {
                if i < h.len() {
                    assert(t[i] == h[i]);
                }
            }
        }
        assert(all_digits(ascii_bytes(t))) by {
            assert forall|i| 0 <= i < t.len() implies is_digit(#[trigger] ascii_bytes(t)[i]) by {
                if i < h.len() {
                    assert(ascii_bytes(t)[i] == ascii_bytes(h)[i]);
                }
            }
        }
    }
}

/// `first_dot` skips every byte before the first decimal point.
proof fn lemma_first_dot_at(b: Seq<u8>, i: int, k: int)
    requires
        0 <= i <= k < b.len(),
        b[k] == DOT,
        forall|j: int| i <= j < k ==> b[j] != DOT,
    ensures
        first_dot(b, i) == k,
    decreases k - i,
{
    if i < k {
        lemma_first_dot_at(b, i + 1, k);
    }
}

/// Reading back the text of an amount gives the amount.
pub proof fn lemma_price_text_round_trip(v: u128)
    ensures
        price_from_bytes(encode_utf8(price_text(v))) == Ok::<u128, TicketErrorView>(v),
{
    let w = v / 1000;
    let f = v % 1000;
    let d = decimal_text(w as nat);
    let fr = seq![
        digit_char((f / 100) as int),
        digit_char(((f / 10) % 10) as int),
        digit_char((f % 10) as int),
    ];
    let t = price_text(v);
    lemma_decimal_text(w as nat);
    lemma_digit_char((f / 100) as int);
    lemma_digit_char(((f / 10) % 10) as int);
    lemma_digit_char((f % 10) as int);
    assert(t =~= d + seq!['.'] + fr);
    assert(is_ascii_chars(t)) by {
        assert forall|i| 0 <= i < t.len() implies '\0' <= #[trigger] t[i] <= '\u{7f}' by {
            if i < d.len() {
                assert(t[i] == d[i]);
            }
        }
    }
    is_ascii_chars_encode_utf8(t);
    let b = encode_utf8(t);
    assert(b =~= ascii_bytes(d) + seq![DOT] + ascii_bytes(fr));
    assert forall|j: int| 0 <= j < d.len() implies b[j] != DOT by {
        assert(b[j] == ascii_bytes(d)[j]);
        assert(is_digit(ascii_bytes(d)[j]));
    }
    lemma_first_dot_at(b, 0, d.len() as int);
    assert(whole_part(b) =~= ascii_bytes(d));
    assert(fraction_part(b) =~= ascii_bytes(fr));
    assert(is_digit(ascii_bytes(d)[0]));
    assert(unsigned_digits(ascii_bytes(d)) =~= ascii_bytes(d));
    let fb = ascii_bytes(fr);
    assert(unsigned_digits(fb) =~= fb);
    assert(all_digits(fb));
    assert(fb.drop_last().drop_last().drop_last() =~= Seq::<u8>::empty());
    assert(digits_value(fb) == f) by {
        reveal_with_fuel(digits_value, 4);
        assert(fb.drop_last().last() == ((f / 10) % 10) + 48);
        assert(fb.drop_last().drop_last().last() == (f / 100) + 48);
    }
    assert(fraction_part(b).len() == 3);
    let fl = fraction_part(b).len();
    assert(fraction_scale(fl) == 1) by {
        assert((3 - fl) as nat == 0);
        reveal_with_fuel(ten_pow, 1);
    }
    assert(parse_u128_spec(whole_part(b)) == Some(w));
    assert(parse_u128_spec(fraction_part(b)) == Some(f));
    assert(v == w * 1000 + f);
    assert(f * fraction_scale(fl) == f);
    assert(w * 1000 <= u128::MAX);
}


/// The character of the decimal digit `d`.
fn digit(d: u128) -> (c: char)
    requires
        d < 10,
    ensures
        c == digit_char(d as int),
{
    let b: u8 = d as u8 + 48;
    b as char
}

/// Appends the decimal text of `n` to `s`.
fn push_decimal(s: &mut String, n: u128)
    ensures
        final(s)@ == old(s)@ + decimal_text(n as nat),
    decreases n,
{
    if n >= 10 {
        push_decimal(s, n / 10);
    }
    push_char(s, digit(n % 10));
    proof {
        if n >= 10 {
            assert(decimal_text(n as nat) == decimal_text((n / 10) as nat).push(
                digit_char((n % 10) as int),
            ));
        }
    }
}

impl Price {
    /// Parses a price from text such as `"400.00"`, `"440"` or `"0.125"`.
    pub fn from_str(value: &str) -> (res: Result<Price, TicketError>)
        ensures
            match res {
                Ok(p) => price_from_bytes(value.spec_bytes()) == Ok::<u128, TicketErrorView>(p@),
                Err(e) => price_from_bytes(value.spec_bytes()) == Err::<u128, TicketErrorView>(e@),
            },
    {
        match str_parser(value) {
            Ok(v) => Ok(Price { value: v }),
            Err(e) => Err(e),
        }
    }

    /// The text of the price: its whole part, a point, and three digits of fraction.
    pub fn to_string(&self) -> (s: String)
        ensures
            s@ == price_text(self@),
    {
        let mut s = String::new();
        push_decimal(&mut s, self.value / 1000);
        push_char(&mut s, '.');
        let f = self.value % 1000;
        push_char(&mut s, digit(f / 100));
        push_char(&mut s, digit((f / 10) % 10));
        push_char(&mut s, digit(f % 10));
        assert(s@ =~= price_text(self@));
        s
    }

    /// Whether the price equals the price written as `other`.
    pub fn eq_str(&self, other: &str) -> (res: bool)
        requires
            price_from_bytes(other.spec_bytes()) is Ok,
        ensures
            res == (Ok::<u128, TicketErrorView>(self@) == price_from_bytes(other.spec_bytes())),
    {
        match str_parser(other) {
            Ok(v) => self.value == v,
            Err(_) => false,
        }
    }
}


impl core::ops::Add for Price {
    type Output = Price;

    /// The sum of two prices.
    fn add(self, rhs: Price) -> (res: Price)
        ensures
            res@ == self@ + rhs@,
    {
        Price { value: self.value + rhs.value }
    }
}

impl vstd::std_specs::ops::AddSpecImpl for Price {
    open spec fn obeys_add_spec() -> bool {
        true
    }

    open spec fn add_req(self, rhs: Price) -> bool {
        self@ + rhs@ <= u128::MAX
    }

    closed spec fn add_spec(self, rhs: Price) -> Price {
        Price { value: (self.value + rhs.value) as u128 }
    }
}


impl core::ops::Add<u64> for Price {
    type Output = Price;

    /// The price raised by a whole number of units.
    fn add(self, rhs: u64) -> (res: Price)
        ensures
            res@ == self@ + rhs * 1000,
    {
        Price { value: self.value + rhs as u128 * 1000 }
    }
}

impl vstd::std_specs::ops::AddSpecImpl<u64> for Price {
    open spec fn obeys_add_spec() -> bool {
        true
    }

    open spec fn add_req(self, rhs: u64) -> bool {
        self@ + rhs * 1000 <= u128::MAX
    }

    closed spec fn add_spec(self, rhs: u64) -> Price {
        Price { value: (self.value + rhs * 1000) as u128 }
    }
}

impl core::ops::Sub for Price {
    type Output = Price;

    /// The difference of two prices.
    fn sub(self, rhs: Price) -> (res: Price)
        ensures
            res@ == self@ - rhs@,
    {
        Price { value: self.value - rhs.value }
    }
}

impl vstd::std_specs::ops::SubSpecImpl for Price {
    open spec fn obeys_sub_spec() -> bool {
        true
    }

    open spec fn sub_req(self, rhs: Price) -> bool {
        self@ >= rhs@
    }

    closed spec fn sub_spec(self, rhs: Price) -> Price {
        Price { value: (self.value - rhs.value) as u128 }
    }
}

impl core::ops::Sub<u64> for Price {
    type Output = Price;

    /// The price lowered by a whole number of units.
    fn sub(self, rhs: u64) -> (res: Price)
        ensures
            res@ == self@ - rhs * 1000,
    {
        Price { value: self.value - rhs as u128 * 1000 }
    }
}

impl vstd::std_specs::ops::SubSpecImpl<u64> for Price {
    open spec fn obeys_sub_spec() -> bool {
        true
    }

    open spec fn sub_req(self, rhs: u64) -> bool {
        self@ >= rhs * 1000
    }

    closed spec fn sub_spec(self, rhs: u64) -> Price {
        Price { value: (self.value - rhs * 1000) as u128 }
    }
}

impl core::ops::Div for Price {
    type Output = Price;

    /// The quotient of the amounts of two prices, rounded down.
    fn div(self, rhs: Price) -> (res: Price)
        ensures
            res@ == self@ / rhs@,
    {
        Price { value: self.value / rhs.value }
    }
}

impl vstd::std_specs::ops::DivSpecImpl for Price {
    open spec fn obeys_div_spec() -> bool {
        true
    }

    open spec fn div_req(self, rhs: Price) -> bool {
        rhs@ != 0
    }

    closed spec fn div_spec(self, rhs: Price) -> Price {
        Price { value: (self.value / rhs.value) as u128 }
    }
}

impl core::ops::Div<u64> for Price {
    type Output = Price;

    /// The price divided by a whole number, rounded down to a thousandth.
    fn div(self, rhs: u64) -> (res: Price)
        ensures
            res@ == self@ / (rhs as u128),
    {
        Price { value: self.value / rhs as u128 }
    }
}

impl vstd::std_specs::ops::DivSpecImpl<u64> for Price {
    open spec fn obeys_div_spec() -> bool {
        true
    }

    open spec fn div_req(self, rhs: u64) -> bool {
        rhs != 0
    }

    closed spec fn div_spec(self, rhs: u64) -> Price {
        Price { value: (self.value / (rhs as u128)) as u128 }
    }
}

impl core::ops::Mul for Price {
    type Output = Price;

    /// The product of the amounts of two prices.
    fn mul(self, rhs: Price) -> (res: Price)
        ensures
            res@ == self@ * rhs@,
    {
        Price { value: self.value * rhs.value }
    }
}

impl vstd::std_specs::ops::MulSpecImpl for Price {
    open spec fn obeys_mul_spec() -> bool {
        true
    }

    open spec fn mul_req(self, rhs: Price) -> bool {
        self@ * rhs@ <= u128::MAX
    }

    closed spec fn mul_spec(self, rhs: Price) -> Price {
        Price { value: (self.value * rhs.value) as u128 }
    }
}

impl core::ops::Mul<u64> for Price {
    type Output = Price;

    /// The price multiplied by a whole number.
    fn mul(self, rhs: u64) -> (res: Price)
        ensures
            res@ == self@ * rhs,
    {
        Price { value: self.value * rhs as u128 }
    }
}

impl vstd::std_specs::ops::MulSpecImpl<u64> for Price {
    open spec fn obeys_mul_spec() -> bool {
        true
    }

    open spec fn mul_req(self, rhs: u64) -> bool {
        self@ * rhs <= u128::MAX
    }

    closed spec fn mul_spec(self, rhs: u64) -> Price {
        Price { value: (self.value * rhs) as u128 }
    }
}


/// Distinct amounts have distinct texts.
pub proof fn lemma_price_text_injective(v: u128, w: u128)
    requires
        price_text(v) == price_text(w),
    ensures
        v == w,
{
    lemma_price_text_round_trip(v);
    lemma_price_text_round_trip(w);
}

/// A run of `n` zero digits.
pub open spec fn zeros(n: nat) -> Seq<u8> {
    Seq::new(n, |_i: int| 48u8)
}

/// `10^(a + b)` is `10^a * 10^b`.
proof fn lemma_ten_pow_add(a: nat, b: nat)
    ensures
        ten_pow(a + b) == ten_pow(a) * ten_pow(b),
    decreases a,
{
    if a > 0 {
        lemma_ten_pow_add((a - 1) as nat, b);
        assert((a + b - 1) as nat == (a - 1) as nat + b);
        let x = ten_pow((a - 1) as nat);
        let y = ten_pow(b);
        assert(10 * (x * y) == (10 * x) * y) by (nonlinear_arith);
        assert(ten_pow(a + b) == 10 * ten_pow((a + b - 1) as nat));
        assert(ten_pow(a) == 10 * x);
    } else {
        assert(ten_pow(0) == 1);
        assert(a + b == b);
    }
}

/// Appending zero digits multiplies a run of digits' value by ten for each.
proof fn lemma_value_append_zeros(f: Seq<u8>, z: nat)
    ensures
        digits_value(f + zeros(z)) == digits_value(f) * ten_pow(z),
    decreases z,
{
    if z == 0 {
        assert(f + zeros(0) =~= f);
        assert(ten_pow(0) == 1);
    } else {
        let s = f + zeros(z);
        assert(s.drop_last() =~= f + zeros((z - 1) as nat));
        assert(s.last() == 48u8);
        lemma_value_append_zeros(f, (z - 1) as nat);
        let v = digits_value(f);
        let t = ten_pow((z - 1) as nat);
        assert((v * t) * 10 == v * (10 * t)) by (nonlinear_arith);
        assert(digits_value(s) == digits_value(s.drop_last()) * 10 + (s.last() - 48) as nat);
        assert(ten_pow(z) == 10 * t);
    }
}

/// A text made of digits, a point and more text splits at that point.
proof fn lemma_split_at_point(w: Seq<u8>, r: Seq<u8>)
    requires
        all_digits(w),
    ensures
        whole_part(w + seq![DOT] + r) == w,
        fraction_part(w + seq![DOT] + r) == r,
{
    let b = w + seq![DOT] + r;
    assert forall|j: int| 0 <= j < w.len() implies b[j] != DOT by {
        assert(b[j] == w[j]);
        assert(is_digit(w[j]));
    }
    lemma_first_dot_at(b, 0, w.len() as int);
    assert(b.take(w.len() as int) =~= w);
    assert(b.skip(w.len() as int + 1) =~= r);
}

/// A run of digits parses to its value when the value fits.
proof fn lemma_parse_digits(s: Seq<u8>)
    requires
        all_digits(s),
        s.len() > 0,
        digits_value(s) <= u128::MAX,
    ensures
        parse_u128_spec(s) == Some(digits_value(s) as u128),
{
    assert(is_digit(s[0]));
    assert(unsigned_digits(s) == s);
}

/// Zeros at the end of the fraction do not change a price: `"1.5"`, `"1.50"` and
/// `"1.500"` denote the same amount, or are refused alike.
pub proof fn lemma_trailing_zeros(w: Seq<u8>, f: Seq<u8>, z: nat)
    requires
        all_digits(w),
        all_digits(f),
        f.len() >= 1,
        f.len() + z <= 3,
    ensures
        price_from_bytes(w + seq![DOT] + (f + zeros(z))) == price_from_bytes(w + seq![DOT] + f),
{
    let fz = f + zeros(z);
    lemma_split_at_point(w, fz);
    lemma_split_at_point(w, f);
    assert(all_digits(fz)) by {
        assert forall|i: int| 0 <= i < fz.len() implies is_digit(#[trigger] fz[i]) by {
            if i < f.len() {
                assert(fz[i] == f[i]);
            }
        }
    }
    lemma_value_below_ten_pow(f);
    lemma_value_append_zeros(f, z);
    let v = digits_value(f);
    let rest = (3 - f.len() - z) as nat;
    lemma_ten_pow_add(z, rest);
    assert(rest + z == (3 - f.len()) as nat);
    reveal_with_fuel(ten_pow, 4);
    assert(ten_pow(f.len()) <= 1000);
    assert(ten_pow(z) <= 1000);
    assert(v * ten_pow(z) <= 1000 * 1000) by (nonlinear_arith)
        requires
            v < 1000,
            ten_pow(z) <= 1000,
    ;
    lemma_parse_digits(f);
    lemma_parse_digits(fz);
    assert(fraction_scale(fz.len()) == ten_pow(rest));
    assert(fraction_scale(f.len()) == ten_pow(z) * ten_pow(rest));
    assert((v * ten_pow(z)) * ten_pow(rest) == v * (ten_pow(z) * ten_pow(rest)))
        by (nonlinear_arith);
}

/// A price written without a fraction is the price written with the fraction `.0`:
/// `"400"` and `"400.0"` denote the same amount, or are refused alike.
pub proof fn lemma_missing_fraction(w: Seq<u8>)
    requires
        all_digits(w),
    ensures
        price_from_bytes(w) == price_from_bytes(w + seq![DOT] + seq![48u8]),
{
    lemma_split_at_point(w, seq![48u8]);
    assert forall|j: int| 0 <= j < w.len() implies w[j] != DOT by {
        assert(is_digit(w[j]));
    }
    if w.len() > 0 {
        assert(w[w.len() - 1] != DOT);
    }
    assert(first_dot(w, 0) == w.len()) by {
        lemma_no_dot(w, 0);
    }
    assert(w.take(w.len() as int) =~= w);
}

/// A text with no decimal point has none at or after any position.
proof fn lemma_no_dot(b: Seq<u8>, i: int)
    requires
        0 <= i <= b.len(),
        forall|j: int| 0 <= j < b.len() ==> b[j] != DOT,
    ensures
        first_dot(b, i) == b.len(),
    decreases b.len() - i,
{
    if i < b.len() {
        lemma_no_dot(b, i + 1);
    }
}

/// Raising a price by whole units and then lowering it by as many gives the price back.
pub proof fn lemma_add_then_sub_units(p: Price, n: u64)
    requires
        AddSpec::<u64>::add_req(p, n),
    ensures
        SubSpec::<u64>::sub_req(AddSpec::<u64>::add_spec(p, n), n),
        SubSpec::<u64>::sub_spec(AddSpec::<u64>::add_spec(p, n), n) == p,
{
}

/// Multiplying a price by a non-zero whole number and then dividing by it gives the price back.
pub proof fn lemma_mul_then_div(p: Price, n: u64)
    requires
        MulSpec::<u64>::mul_req(p, n),
        n != 0,
    ensures
        DivSpec::<u64>::div_req(MulSpec::<u64>::mul_spec(p, n), n),
        DivSpec::<u64>::div_spec(MulSpec::<u64>::mul_spec(p, n), n) == p,
{
    let v = p.value as int;
    let m = n as int;
    assert((v * m) / m == v) by (nonlinear_arith)
        requires
            m != 0,
    ;
}


/// The short text of an amount of thousandths, as a float's display writes such a
/// price: the whole part, then, when the fraction is not zero, a point and the
/// fraction's digits without trailing zeros (`"345"`, `"90.58"`, `"12.007"`).
pub open spec fn short_price_text(v: u128) -> Seq<char> {
    let f = v % 1000;
    let d = decimal_text((v / 1000) as nat);
    if f == 0 {
        d
    } else if f % 100 == 0 {
        d + seq!['.', digit_char((f / 100) as int)]
    } else if f % 10 == 0 {
        d + seq!['.', digit_char((f / 100) as int), digit_char(((f / 10) % 10) as int)]
    } else {
        d + seq![
            '.',
            digit_char((f / 100) as int),
            digit_char(((f / 10) % 10) as int),
            digit_char((f % 10) as int),
        ]
    }
}

/// `true` when `c` is an ASCII decimal digit character.
pub open spec fn is_digit_char(c: char) -> bool {
    '0' <= c && c <= '9'
}

impl Price {
    /// The short text of the price: no trailing zeros in the fraction, and no point
    /// when the fraction is zero.
    pub fn to_short_string(&self) -> (s: String)
        ensures
            s@ == short_price_text(self@),
    {
        let mut s = String::new();
        push_decimal(&mut s, self.value / 1000);
        let f = self.value % 1000;
        if f != 0 {
            push_char(&mut s, '.');
            push_char(&mut s, digit(f / 100));
            if f % 100 != 0 {
                push_char(&mut s, digit((f / 10) % 10));
                if f % 10 != 0 {
                    push_char(&mut s, digit(f % 10));
                }
            }
        }
        assert(s@ =~= short_price_text(self@));
        s
    }
}

/// The bytes of ASCII text taken piece by piece.
proof fn lemma_ascii_bytes_concat(a: Seq<char>, b: Seq<char>)
    ensures
        ascii_bytes(a + b) =~= ascii_bytes(a) + ascii_bytes(b),
{
}

/// Every character of a short price text is a digit or the point, and it is ASCII.
pub proof fn lemma_short_text_chars(v: u128)
    ensures
        is_ascii_chars(short_price_text(v)),
        forall|j: int|
            0 <= j < short_price_text(v).len() ==> is_digit_char(#[trigger] short_price_text(v)[j])
                || short_price_text(v)[j] == '.',
{
    let f = v % 1000;
    let d = decimal_text((v / 1000) as nat);
    let t = short_price_text(v);
    lemma_decimal_text((v / 1000) as nat);
    lemma_digit_char((f / 100) as int);
    lemma_digit_char(((f / 10) % 10) as int);
    lemma_digit_char((f % 10) as int);
    assert forall|j: int| 0 <= j < t.len() implies ('\0' <= #[trigger] t[j] <= '\u{7f}') && (
    is_digit_char(t[j]) || t[j] == '.') by {
        if j < d.len() {
            assert(t[j] == d[j]);
            assert(ascii_bytes(d)[j] == d[j] as u8);
            assert(is_digit(ascii_bytes(d)[j]));
        }
    }
}

/// Reading back the short text of an amount gives the amount.
#[verifier::spinoff_prover]
#[verifier::rlimit(40)]
pub proof fn lemma_short_text_round_trip(v: u128)
    ensures
        price_from_bytes(encode_utf8(short_price_text(v))) == Ok::<u128, TicketErrorView>(v),
{
    let w = v / 1000;
    let f = v % 1000;
    let d = decimal_text(w as nat);
    let b1 = (48 + f / 100) as u8;
    let b2 = (48 + (f / 10) % 10) as u8;
    let b3 = (48 + f % 10) as u8;
    let t = short_price_text(v);
    lemma_decimal_text(w as nat);
    lemma_digit_char((f / 100) as int);
    lemma_digit_char(((f / 10) % 10) as int);
    lemma_digit_char((f % 10) as int);
    lemma_short_text_chars(v);
    is_ascii_chars_encode_utf8(t);
    let dd = ascii_bytes(d);
    let full = dd + seq![DOT] + seq![b1, b2, b3];
    // the full three-decimal text reads back as `v`
    lemma_price_text_round_trip(v);
    let pt = price_text(v);
    assert(is_ascii_chars(pt)) by {
        assert forall|i| 0 <= i < pt.len() implies '\0' <= #[trigger] pt[i] <= '\u{7f}' by {
            if i < d.len() {
                assert(pt[i] == d[i]);
                assert(ascii_bytes(d)[i] == d[i] as u8);
            }
        }
    }
    is_ascii_chars_encode_utf8(pt);
    assert(encode_utf8(pt) =~= full);
    assert(price_from_bytes(full) == Ok::<u128, TicketErrorView>(v));
    let one = seq![b1];
    let two = seq![b1, b2];
    assert(all_digits(one));
    assert(all_digits(two));
    if f == 0 {
        assert(encode_utf8(t) =~= dd);
        lemma_missing_fraction(dd);
        assert(seq![48u8] + zeros(2) =~= seq![b1, b2, b3]);
        assert(all_digits(seq![48u8]));
        lemma_trailing_zeros(dd, seq![48u8], 2);
    } else if f % 100 == 0 {
        assert(encode_utf8(t) =~= dd + seq![DOT] + one);
        assert(one + zeros(2) =~= seq![b1, b2, b3]);
        lemma_trailing_zeros(dd, one, 2);
    } else if f % 10 == 0 {
        assert(encode_utf8(t) =~= dd + seq![DOT] + two);
        assert(two + zeros(1) =~= seq![b1, b2, b3]);
        lemma_trailing_zeros(dd, two, 1);
    } else {
        assert(encode_utf8(t) =~= full);
    }
}

/// Distinct amounts have distinct short texts.
pub proof fn lemma_short_text_injective(v: u128, w: u128)
    requires
        short_price_text(v) == short_price_text(w),
    ensures
        v == w,
{
    lemma_short_text_round_trip(v);
    lemma_short_text_round_trip(w);
}


/// The decimal text of a number starts with `0` only when the number is zero.
proof fn lemma_decimal_leading(n: nat)
    ensures
        decimal_text(n)[0] == '0' ==> n == 0 && decimal_text(n).len() == 1,
    decreases n,
{
    lemma_decimal_text(n);
    if n < 10 {
        lemma_digit_char(n as int);
        assert('0' as u8 == 48);
    } else {
        lemma_decimal_leading(n / 10);
        assert(decimal_text(n)[0] == decimal_text(n / 10)[0]);
    }
}

/// The short text of an amount is its shortest decimal form: not empty, with no
/// leading zero before the units, no point at its end, and no zero ending a fraction.
pub proof fn lemma_short_text_shortest(v: u128)
    ensures
        short_price_text(v).len() > 0,
        short_price_text(v).last() != '.',
        short_price_text(v).contains('.') ==> short_price_text(v).last() != '0',
        short_price_text(v)[0] == '0' ==> short_price_text(v).len() == 1 || short_price_text(v)[1]
            == '.',
{
    let f = v % 1000;
    let w = v / 1000;
    let d = decimal_text(w as nat);
    let t = short_price_text(v);
    lemma_decimal_text(w as nat);
    lemma_decimal_leading(w as nat);
    lemma_digit_char((f / 100) as int);
    lemma_digit_char(((f / 10) % 10) as int);
    lemma_digit_char((f % 10) as int);
    assert('0' as u8 == 48);
    assert(t[0] == d[0]);
    if d[0] == '0' {
        assert(d.len() == 1);
        if t.len() > 1 {
            assert(t[1] == '.');
        }
    }
    if f == 0 {
        assert(t == d);
        assert(ascii_bytes(d)[d.len() - 1] == d[d.len() - 1] as u8);
        assert(is_digit(ascii_bytes(d)[d.len() - 1]));
        assert forall|j: int| 0 <= j < t.len() implies t[j] != '.' by {
            assert(ascii_bytes(d)[j] == d[j] as u8);
            assert(is_digit(ascii_bytes(d)[j]));
        }
        assert(!t.contains('.'));
    }
}

} // verus!
