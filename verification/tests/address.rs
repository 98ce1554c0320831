use wol::address::{INVALID_MAC_MESSAGE, MAC_LIMIT};
use wol::mac_from_str;

fn rejected(text: &str) -> bool {
    mac_from_str(text) == Err(String::from("Argument is not a valid MAC address"))
}

#[test]
fn parses_upper_case_address() {
    assert_eq!(mac_from_str("01:23:45:67:89:AB"), Ok(0x0123_4567_89AB));
}

#[test]
fn parses_lower_case_address() {
    assert_eq!(mac_from_str("aa:bb:cc:dd:ee:ff"), Ok(0xAABB_CCDD_EEFF));
}

#[test]
fn parses_mixed_case_address() {
    assert_eq!(mac_from_str("De:aD:bE:Ef:0a:F9"), Ok(0xDEAD_BEEF_0AF9));
}

#[test]
fn case_does_not_change_the_identifier() {
    let lower = mac_from_str("aa:bb:cc:dd:ee:ff");
    let upper = mac_from_str("AA:BB:CC:DD:EE:FF");
    let mixed = mac_from_str("aA:Bb:cC:dD:Ee:fF");
    assert!(lower.is_ok());
    assert_eq!(lower, upper);
    assert_eq!(lower, mixed);
}

#[test]
fn parses_smallest_and_largest_address() {
    assert_eq!(mac_from_str("00:00:00:00:00:00"), Ok(0));
    assert_eq!(mac_from_str("ff:ff:ff:ff:ff:ff"), Ok(0xFFFF_FFFF_FFFF));
    assert_eq!(mac_from_str("FF:FF:FF:FF:FF:FF"), Ok(MAC_LIMIT - 1));
}

#[test]
fn first_octet_is_most_significant() {
    assert_eq!(mac_from_str("01:00:00:00:00:00"), Ok(0x0100_0000_0000));
    assert_eq!(mac_from_str("00:00:00:00:00:01"), Ok(1));
    assert_eq!(mac_from_str("00:00:00:00:01:00"), Ok(0x100));
    assert_eq!(mac_from_str("10:00:00:00:00:00"), Ok(0x1000_0000_0000));
}

#[test]
fn every_digit_has_its_value() {
    assert_eq!(mac_from_str("01:23:45:67:89:ab"), Ok(0x0123_4567_89AB));
    assert_eq!(mac_from_str("cd:ef:AB:CD:EF:09"), Ok(0xCDEF_ABCD_EF09));
}

#[test]
fn rejects_every_other_length() {
    let full = "01:23:45:67:89:AB:CD:EF:01:23:45";
    for len in 0..full.len() {
        if len != 17 {
            assert!(rejected(&full[..len]), "length {}", len);
        }
    }
    assert!(mac_from_str(&full[..17]).is_ok());
}

#[test]
fn rejects_missing_leading_zero() {
    assert!(rejected("1:23:45:67:89:AB"));
}

#[test]
fn rejects_non_hex_characters() {
    assert!(rejected("01:23:45:67:89:ZZ"));
    assert!(rejected("01:23:45:67:89:Ag"));
    assert!(rejected("0G:23:45:67:89:AB"));
    assert!(rejected("01:23:45:67:89:A "));
    assert!(rejected("+1:23:45:67:89:AB"));
    assert!(rejected("01:23:45:67:89:A@"));
    assert!(rejected("01:23:45:67:89:A`"));
    assert!(rejected("01:23:45:67:89:A/"));
}

#[test]
fn rejects_colon_in_a_digit_position() {
    let valid = "01:23:45:67:89:AB";
    for i in 0..17 {
        if (i + 1) % 3 != 0 {
            let mut text = String::from(valid);
            text.replace_range(i..i + 1, ":");
            assert!(rejected(&text), "colon at {}", i);
        }
    }
}

#[test]
fn rejects_digit_in_a_colon_position() {
    let valid = "01:23:45:67:89:AB";
    for i in [2, 5, 8, 11, 14] {
        let mut text = String::from(valid);
        text.replace_range(i..i + 1, "0");
        assert!(rejected(&text), "digit at {}", i);
    }
}

#[test]
fn rejects_other_separators() {
    assert!(rejected("01-23-45-67-89-AB"));
    assert!(rejected("01.23.45.67.89.AB"));
    assert!(rejected("0123.4567.89AB.00"));
    assert!(rejected("01:23:45:67:89-AB"));
}

#[test]
fn rejects_text_that_is_not_ascii() {
    // seventeen characters, more than seventeen bytes
    assert!(rejected("01:23:45:67:89:A\u{e9}"));
    // seventeen bytes, fewer than seventeen characters
    assert!(rejected("01:23:45:67:89:\u{e9}"));
    // full-width digits
    assert!(rejected("\u{ff10}1:23:45:67:89:AB"));
}

#[test]
fn rejects_empty_and_padded_text() {
    assert!(rejected(""));
    assert!(rejected(" 01:23:45:67:89:AB"));
    assert!(rejected("01:23:45:67:89:AB "));
    assert!(rejected("01:23:45:67:89:AB\n"));
}

#[test]
fn reports_the_same_message_for_every_rejection() {
    assert_eq!(INVALID_MAC_MESSAGE, "Argument is not a valid MAC address");
    assert_eq!(mac_from_str("nonsense"), Err(String::from(INVALID_MAC_MESSAGE)));
    assert_eq!(mac_from_str("01:23:45:67:89:ZZ"), Err(String::from(INVALID_MAC_MESSAGE)));
}

#[test]
fn never_exceeds_forty_eight_bits() {
    for text in ["ff:ff:ff:ff:ff:ff", "80:00:00:00:00:00", "12:34:56:78:9a:bc"] {
        let mac = mac_from_str(text).unwrap();
        assert!(mac < MAC_LIMIT);
    }
}
