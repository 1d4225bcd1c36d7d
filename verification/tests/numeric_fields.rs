use zappy_server::field::{
    parse_freq, parse_height, parse_nb_clients, parse_port, parse_positive, parse_width,
};
use zappy_server::numeral::parse_decimal;

fn err(text: &str) -> String {
    String::from(text)
}

#[test]
fn decimal_reads_plain_digits() {
    assert_eq!(parse_decimal("0", 10), Some(0));
    assert_eq!(parse_decimal("7", 10), Some(7));
    assert_eq!(parse_decimal("10", 10), Some(10));
    assert_eq!(parse_decimal("4242", 65535), Some(4242));
}

#[test]
fn decimal_stops_at_the_bound() {
    assert_eq!(parse_decimal("11", 10), None);
    assert_eq!(parse_decimal("9", 8), None);
    assert_eq!(parse_decimal("8", 8), Some(8));
    assert_eq!(parse_decimal("0", 0), Some(0));
    assert_eq!(parse_decimal("1", 0), None);
    assert_eq!(parse_decimal("100", 99), None);
}

#[test]
fn decimal_reaches_the_largest_u64() {
    assert_eq!(parse_decimal("18446744073709551615", u64::MAX), Some(u64::MAX));
    assert_eq!(parse_decimal("18446744073709551616", u64::MAX), None);
    assert_eq!(parse_decimal("18446744073709551620", u64::MAX), None);
    assert_eq!(parse_decimal("99999999999999999999", u64::MAX), None);
    assert_eq!(parse_decimal("184467440737095516150", u64::MAX), None);
}

#[test]
fn decimal_allows_one_leading_plus() {
    assert_eq!(parse_decimal("+5", 10), Some(5));
    assert_eq!(parse_decimal("+0", 10), Some(0));
    assert_eq!(parse_decimal("+", 10), None);
    assert_eq!(parse_decimal("++5", 10), None);
    assert_eq!(parse_decimal("5+", 10), None);
    assert_eq!(parse_decimal("+-5", 10), None);
}

#[test]
fn decimal_ignores_leading_zeros() {
    assert_eq!(parse_decimal("007", 10), Some(7));
    assert_eq!(parse_decimal("+007", 10), Some(7));
    assert_eq!(parse_decimal("0000000000000000000000000000000255", 255), Some(255));
    assert_eq!(parse_decimal("0000000000000000000000000000000256", 255), None);
}

#[test]
fn decimal_refuses_everything_else() {
    for text in [
        "", " ", "-", "-1", "-0", " 5", "5 ", "5\n", "1_000", "0x10", "1e3", "1.0", "12a", "a12",
        "١٢٣", "５", "4２", "²", "\u{0}", "4\u{0}",
    ] {
        assert_eq!(parse_decimal(text, u64::MAX), None, "{:?}", text);
    }
}

#[test]
fn decimal_agrees_with_the_standard_parser() {
    let samples = [
        "", "+", "-", "0", "+0", "-0", "1", "+1", "-1", "01", "255", "256", "65535", "65536",
        "18446744073709551615", "18446744073709551616", "+18446744073709551615", " 1", "1 ",
        "1,0", "٣", "1２", "++1", "+-1", "0000", "+0001", "9999999999999999999999",
    ];
    for text in samples {
        assert_eq!(parse_decimal(text, 255), text.parse::<u8>().ok().map(u64::from), "{:?}", text);
        assert_eq!(
            parse_decimal(text, 65535),
            text.parse::<u16>().ok().map(u64::from),
            "{:?}",
            text
        );
        assert_eq!(parse_decimal(text, u64::MAX), text.parse::<u64>().ok(), "{:?}", text);
    }
}

#[test]
fn positive_reports_with_the_given_words() {
    assert_eq!(parse_positive("12", 20, "bad", "none"), Ok(12));
    assert_eq!(parse_positive("21", 20, "bad", "none"), Err(err("bad")));
    assert_eq!(parse_positive("twelve", 20, "bad", "none"), Err(err("bad")));
    assert_eq!(parse_positive("0", 20, "bad", "none"), Err(err("none")));
    assert_eq!(parse_positive("0", 0, "bad", "none"), Err(err("none")));
}

#[test]
fn port_accepts_every_positive_u16() {
    for n in 1..=65535u32 {
        assert_eq!(parse_port(&n.to_string()), Ok(n as u16));
    }
}

#[test]
fn port_refuses_zero_and_excess() {
    assert_eq!(parse_port("0"), Err(err("Port must be greater than 0.")));
    assert_eq!(parse_port("00"), Err(err("Port must be greater than 0.")));
    assert_eq!(parse_port("+0"), Err(err("Port must be greater than 0.")));
    assert_eq!(parse_port("65536"), Err(err("not a valid port")));
    assert_eq!(parse_port("70000"), Err(err("not a valid port")));
    for n in 65536..=70000u32 {
        assert_eq!(parse_port(&n.to_string()), Err(err("not a valid port")));
    }
}

#[test]
fn port_refuses_non_numeric_text() {
    for text in ["", "http", "42x", "-42", "4 2", "4.2", "0x1F"] {
        assert_eq!(parse_port(text), Err(err("not a valid port")), "{:?}", text);
    }
}

#[test]
fn port_reads_the_usual_value() {
    assert_eq!(parse_port("4242"), Ok(4242));
    assert_eq!(parse_port("+4242"), Ok(4242));
    assert_eq!(parse_port("04242"), Ok(4242));
    assert_eq!(parse_port("1"), Ok(1));
    assert_eq!(parse_port("65535"), Ok(65535));
}

#[test]
fn width_accepts_every_positive_u8() {
    for n in 1..=255u32 {
        assert_eq!(parse_width(&n.to_string()), Ok(n as u8));
    }
}

#[test]
fn width_refusals() {
    assert_eq!(parse_width("0"), Err(err("Width must be greater than 0")));
    assert_eq!(parse_width("256"), Err(err("not a valid width")));
    assert_eq!(parse_width("1000"), Err(err("not a valid width")));
    assert_eq!(parse_width("wide"), Err(err("not a valid width")));
    assert_eq!(parse_width(""), Err(err("not a valid width")));
    assert_eq!(parse_width("-3"), Err(err("not a valid width")));
}

#[test]
fn height_accepts_every_positive_u8() {
    for n in 1..=255u32 {
        assert_eq!(parse_height(&n.to_string()), Ok(n as u8));
    }
}

#[test]
fn height_refusals() {
    assert_eq!(parse_height("0"), Err(err("Height must be greater than 0")));
    assert_eq!(parse_height("256"), Err(err("not a valid height")));
    assert_eq!(parse_height("tall"), Err(err("not a valid height")));
    assert_eq!(parse_height("10 "), Err(err("not a valid height")));
}

#[test]
fn nb_clients_accepts_the_whole_u64_range() {
    assert_eq!(parse_nb_clients("1"), Ok(1));
    assert_eq!(parse_nb_clients("4"), Ok(4));
    assert_eq!(parse_nb_clients("65536"), Ok(65536));
    assert_eq!(parse_nb_clients("4294967296"), Ok(4294967296));
    assert_eq!(parse_nb_clients("18446744073709551615"), Ok(u64::MAX));
    assert_eq!(parse_nb_clients("18446744073709551614"), Ok(u64::MAX - 1));
}

#[test]
fn nb_clients_refusals() {
    assert_eq!(parse_nb_clients("0"), Err(err("Clients number must greater than 0")));
    assert_eq!(parse_nb_clients("18446744073709551616"), Err(err("not a valid clients number")));
    assert_eq!(parse_nb_clients("many"), Err(err("not a valid clients number")));
    assert_eq!(parse_nb_clients("-1"), Err(err("not a valid clients number")));
}

#[test]
fn freq_accepts_every_positive_u16() {
    for n in 1..=65535u32 {
        assert_eq!(parse_freq(&n.to_string()), Ok(n as u16));
    }
}

#[test]
fn freq_refusals() {
    assert_eq!(parse_freq("0"), Err(err("freq must greater than 0")));
    assert_eq!(parse_freq("65536"), Err(err("not a valid freq number")));
    assert_eq!(parse_freq("fast"), Err(err("not a valid freq number")));
    assert_eq!(parse_freq("100hz"), Err(err("not a valid freq number")));
}

#[test]
fn fields_agree_with_the_standard_parser() {
    let samples = [
        "", "+", "0", "+0", "1", "+1", "-1", "01", "255", "256", "65535", "65536", "4242",
        "18446744073709551615", "18446744073709551616", " 1", "1 ", "٣", "1２", "0000", "+0001",
    ];
    for text in samples {
        let as_u8 = text.parse::<u8>().ok().filter(|v| *v != 0);
        let as_u16 = text.parse::<u16>().ok().filter(|v| *v != 0);
        let as_u64 = text.parse::<u64>().ok().filter(|v| *v != 0);
        assert_eq!(parse_width(text).ok(), as_u8, "{:?}", text);
        assert_eq!(parse_height(text).ok(), as_u8, "{:?}", text);
        assert_eq!(parse_port(text).ok(), as_u16, "{:?}", text);
        assert_eq!(parse_freq(text).ok(), as_u16, "{:?}", text);
        assert_eq!(parse_nb_clients(text).ok(), as_u64, "{:?}", text);
    }
}

#[test]
fn a_zero_is_refused_in_the_words_of_its_own_field() {
    assert_eq!(parse_width("0"), Err(err("Width must be greater than 0")));
    assert_eq!(parse_width("+000"), Err(err("Width must be greater than 0")));
    assert_eq!(parse_height("0"), Err(err("Height must be greater than 0")));
    assert_ne!(parse_width("0"), parse_height("0"));
    assert_ne!(parse_port("0"), parse_freq("0"));
}
