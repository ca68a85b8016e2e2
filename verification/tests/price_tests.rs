use ticket_validator::errors::TicketError;
use ticket_validator::price::{str_parser, Price};

fn price() -> Price {
    Price::from_str("400.00").unwrap()
}

fn price_error(text: &str) -> String {
    match str_parser(text) {
        Err(TicketError::PriceError(m)) => m,
        other => panic!("unexpected {:?}", other),
    }
}

#[test]
fn test_new_price() {
    assert!(price().eq_str("400.00"));
}

#[test]
fn test_price_add() {
    let pp: u64 = 40;
    assert!((price() + pp).eq_str("440"))
}

#[test]
fn test_price_subtract() {
    let pp: u64 = 40;
    assert!((price() - pp).eq_str("360"))
}

#[test]
fn test_price_divide() {
    let pp: u64 = 40;
    assert!((price() / pp).eq_str("10"))
}

#[test]
fn test_price_multiply() {
    let pp: u64 = 40;
    assert!((price() * pp).eq_str("16000"))
}

#[test]
fn parser_scales_to_thousandths() {
    assert_eq!(str_parser("400.00").unwrap(), 400_000);
    assert_eq!(str_parser("440").unwrap(), 440_000);
    assert_eq!(str_parser("0.125").unwrap(), 125);
    assert_eq!(str_parser("1.5").unwrap(), 1_500);
    assert_eq!(str_parser("+7.+5").unwrap(), 7_050);
    assert_eq!(str_parser("007.010").unwrap(), 7_010);
}

#[test]
fn parser_errors() {
    assert_eq!(price_error("1.2345"), "Too many decimal places");
    assert_eq!(price_error("1.2.3"), "Invalid Decimal Places");
    assert_eq!(price_error(""), "Invalid Number");
    assert_eq!(price_error("abc"), "Invalid Number");
    assert_eq!(price_error("-1"), "Invalid Number");
    assert_eq!(price_error("+"), "Invalid Number");
    assert_eq!(price_error(".5"), "Invalid Number");
    assert_eq!(price_error("5."), "Invalid Decimal Places");
    assert_eq!(price_error("5.x"), "Invalid Decimal Places");
    assert_eq!(price_error("1.éé"), "Too many decimal places");
    assert_eq!(price_error("340282366920938463463374607431768211456"), "Invalid Number");
    assert_eq!(price_error("340282366920938463463374607431768212"), "Number too large");
    assert_eq!(price_error("340282366920938463463374607431768211.999"), "Number Too Large");
}

#[test]
fn largest_price_parses() {
    assert_eq!(
        str_parser("340282366920938463463374607431768211.455").unwrap(),
        u128::MAX
    );
}

#[test]
fn display_has_three_decimals() {
    assert_eq!(price().to_string(), "400.000");
    assert_eq!(Price::from_str("0.5").unwrap().to_string(), "0.500");
    assert_eq!(Price::from_str("12.007").unwrap().to_string(), "12.007");
    assert_eq!(Price::from_str("0").unwrap().to_string(), "0.000");
}

#[test]
fn display_reads_back() {
    for text in ["0", "1.001", "90.58", "123456789.123", "340282366920938463463374607431768211.455"] {
        let p = Price::from_str(text).unwrap();
        assert_eq!(Price::from_str(&p.to_string()).unwrap(), p);
    }
}

#[test]
fn price_by_price_arithmetic() {
    let a = Price::from_str("2.5").unwrap();
    let b = Price::from_str("1.25").unwrap();
    assert!((a + b).eq_str("3.75"));
    assert!((a - b).eq_str("1.25"));
    assert_eq!(str_parser(&(a / b).to_string()).unwrap(), 2);
    assert_eq!(str_parser(&(a * b).to_string()).unwrap(), 2_500 * 1_250);
}

#[test]
fn units_added_then_removed_give_the_price_back() {
    let p = Price::from_str("12.345").unwrap();
    assert_eq!((p + 9u64) - 9u64, p);
    assert_eq!((p * 9u64) / 9u64, p);
}

#[test]
fn prices_are_ordered_by_amount() {
    assert!(Price::from_str("1.5").unwrap() < Price::from_str("1.501").unwrap());
    assert!(Price::from_str("2").unwrap() > Price::from_str("1.999").unwrap());
}

#[test]
fn trailing_fraction_zeros_do_not_change_the_price() {
    let v = str_parser("400").unwrap();
    assert_eq!(v, 400_000);
    assert_eq!(str_parser("400.0").unwrap(), v);
    assert_eq!(str_parser("400.00").unwrap(), v);
    assert_eq!(str_parser("400.000").unwrap(), v);
    assert_eq!(str_parser("1.5").unwrap(), str_parser("1.50").unwrap());
    assert_eq!(str_parser("1.5").unwrap(), str_parser("1.500").unwrap());
    assert_eq!(str_parser("1.25").unwrap(), str_parser("1.250").unwrap());
}

#[test]
fn short_text_drops_trailing_zeros() {
    assert_eq!(Price::from_str("345.00").unwrap().to_short_string(), "345");
    assert_eq!(Price::from_str("90.58").unwrap().to_short_string(), "90.58");
    assert_eq!(Price::from_str("0.5").unwrap().to_short_string(), "0.5");
    assert_eq!(Price::from_str("12.007").unwrap().to_short_string(), "12.007");
    assert_eq!(Price::from_str("12.07").unwrap().to_short_string(), "12.07");
    assert_eq!(Price::from_str("0").unwrap().to_short_string(), "0");
    for text in ["0", "1.001", "90.58", "1.5", "340282366920938463463374607431768211.455"] {
        let p = Price::from_str(text).unwrap();
        assert_eq!(Price::from_str(&p.to_short_string()).unwrap(), p);
    }
}
