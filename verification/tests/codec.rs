use rpi_gpio::{assert_pin_index, Error, PinFunction, PullMode};

#[test]
fn function_codes_are_exact() {
    assert_eq!(PinFunction::Input.to_bits(), 0b000);
    assert_eq!(PinFunction::Output.to_bits(), 0b001);
    assert_eq!(PinFunction::Alt0.to_bits(), 0b100);
    assert_eq!(PinFunction::Alt1.to_bits(), 0b101);
    assert_eq!(PinFunction::Alt2.to_bits(), 0b110);
    assert_eq!(PinFunction::Alt3.to_bits(), 0b111);
    assert_eq!(PinFunction::Alt4.to_bits(), 0b011);
    assert_eq!(PinFunction::Alt5.to_bits(), 0b010);
}

#[test]
fn function_decode_is_exact() {
    assert_eq!(PinFunction::try_from_bits(0b000), Ok(PinFunction::Input));
    assert_eq!(PinFunction::try_from_bits(0b001), Ok(PinFunction::Output));
    assert_eq!(PinFunction::try_from_bits(0b100), Ok(PinFunction::Alt0));
    assert_eq!(PinFunction::try_from_bits(0b101), Ok(PinFunction::Alt1));
    assert_eq!(PinFunction::try_from_bits(0b110), Ok(PinFunction::Alt2));
    assert_eq!(PinFunction::try_from_bits(0b111), Ok(PinFunction::Alt3));
    assert_eq!(PinFunction::try_from_bits(0b011), Ok(PinFunction::Alt4));
    assert_eq!(PinFunction::try_from_bits(0b010), Ok(PinFunction::Alt5));
}

#[test]
fn function_codes_round_trip() {
    let all = [
        PinFunction::Input,
        PinFunction::Output,
        PinFunction::Alt0,
        PinFunction::Alt1,
        PinFunction::Alt2,
        PinFunction::Alt3,
        PinFunction::Alt4,
        PinFunction::Alt5,
    ];
    for f in all {
        assert_eq!(PinFunction::try_from_bits(f.to_bits()), Ok(f));
    }
}

#[test]
fn function_decode_rejects_wide_patterns() {
    for bits in 8u8..=255 {
        assert_eq!(PinFunction::try_from_bits(bits), Err(()));
    }
}

#[test]
fn pull_codes_are_exact() {
    assert_eq!(PullMode::Float.to_bits(), 0b00);
    assert_eq!(PullMode::PullDown.to_bits(), 0b01);
    assert_eq!(PullMode::PullUp.to_bits(), 0b10);
}

#[test]
fn pin_index_bounds() {
    assert_eq!(assert_pin_index(0), Ok(()));
    assert_eq!(assert_pin_index(53), Ok(()));
    assert_eq!(assert_pin_index(54), Err(Error::ProgrammingError));
    assert_eq!(assert_pin_index(usize::MAX), Err(Error::ProgrammingError));
}
