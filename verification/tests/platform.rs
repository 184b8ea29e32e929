use rpi_gpio::{check_bcm283x_gpio, read_gpio_address, Error};

#[test]
fn identity_matches_with_and_without_terminator() {
    assert_eq!(check_bcm283x_gpio(b"brcm,bcm2835-gpio"), Ok(()));
    assert_eq!(check_bcm283x_gpio(b"brcm,bcm2835-gpio\0"), Ok(()));
}

#[test]
fn identity_mismatch_reports_what_was_found() {
    let r = check_bcm283x_gpio(b"brcm,bcm2711-gpio\0");
    assert_eq!(
        r,
        Err(Error::VerificationError { found: b"brcm,bcm2711-gpio".to_vec() })
    );
    assert_eq!(
        check_bcm283x_gpio(b""),
        Err(Error::VerificationError { found: Vec::new() })
    );
    assert_eq!(
        check_bcm283x_gpio(b"brcm,bcm2835-gpio2"),
        Err(Error::VerificationError { found: b"brcm,bcm2835-gpio2".to_vec() })
    );
}

#[test]
fn gpio_address_is_found_in_a_listing() {
    let listing = b"00000000-3b3fffff : System RAM\n\
        3f006000-3f006fff : dwc_otg\n\
        3f200000-3f2000b3 : 3f200000.gpio\n\
        3f201000-3f201fff : serial@7e201000\n";
    assert_eq!(read_gpio_address(listing), Ok(0x3f200000));
}

#[test]
fn first_gpio_entry_wins() {
    let listing = b"1000-1fff : a.gpio\n2000-2fff : b.gpio\n";
    assert_eq!(read_gpio_address(listing), Ok(0x1000));
}

#[test]
fn empty_lines_are_skipped_but_numbered() {
    let listing = b"\n\nbad line without colon\n";
    assert_eq!(
        read_gpio_address(listing),
        Err(Error::MalformedIomemEntry { line: 2 })
    );
}

#[test]
fn missing_gpio_entry_is_reported() {
    assert_eq!(
        read_gpio_address(b"00000000-3b3fffff : System RAM\n"),
        Err(Error::GpioPeripheralNotFound)
    );
    assert_eq!(read_gpio_address(b""), Err(Error::GpioPeripheralNotFound));
}

#[test]
fn gpio_range_without_dash_is_malformed() {
    assert_eq!(
        read_gpio_address(b"3f200000 : 3f200000.gpio\n"),
        Err(Error::MalformedIomemEntry { line: 0 })
    );
}

#[test]
fn non_hex_start_address_is_invalid() {
    assert_eq!(
        read_gpio_address(b"zz-3f2000b3 : 3f200000.gpio\n"),
        Err(Error::InvalidIomemAddress { line: 0 })
    );
    assert_eq!(
        read_gpio_address(b"-3f2000b3 : 3f200000.gpio\n"),
        Err(Error::InvalidIomemAddress { line: 0 })
    );
}

#[test]
fn oversized_start_address_is_invalid() {
    assert_eq!(
        read_gpio_address(b"ffffffffffffffff-ffffffffffffffff : a.gpio\n"),
        Err(Error::InvalidIomemAddress { line: 0 })
    );
    // The largest address that fits is parsed exactly.
    assert_eq!(
        read_gpio_address(b"7fffffffffffffff-7fffffffffffffff : a.gpio\n"),
        Ok(i64::MAX)
    );
}

#[test]
fn surrounding_whitespace_is_trimmed() {
    assert_eq!(
        read_gpio_address(b"  3f200000-3f2000b3   :   3f200000.gpio  \n"),
        Ok(0x3f200000)
    );
}

#[test]
fn upper_and_mixed_case_hex_parse() {
    assert_eq!(read_gpio_address(b"3F20AbCd-3f2000b3 : x.gpio\n"), Ok(0x3F20_ABCD));
}

#[test]
fn final_line_without_newline_is_parsed() {
    assert_eq!(read_gpio_address(b"10-20 : x.gpio"), Ok(0x10));
}
