use rpi_gpio::{GpioState, PinFunction};

/// A deterministic pseudo-random block of register words.
fn synthetic_block() -> [u32; 256] {
    let mut data = [0u32; 256];
    let mut state: u32 = 0x1234_5678;
    for word in data.iter_mut() {
        state = state.wrapping_mul(1_664_525).wrapping_add(1_013_904_223);
        *word = state;
    }
    data
}

/// The reference bit extraction for a banked boolean attribute.
fn reference_bit(data: &[u32; 256], base_word: usize, pin: usize) -> bool {
    (data[base_word + pin / 32] >> (pin % 32)) & 1 == 1
}

/// The reference field extraction for a pin's function code.
fn reference_function_bits(data: &[u32; 256], pin: usize) -> u8 {
    ((data[pin / 10] >> (3 * (pin % 10))) & 0b111) as u8
}

#[test]
fn boolean_attributes_match_reference_extraction() {
    let data = synthetic_block();
    let state = GpioState::from_data(data);
    for pin in 0..=53 {
        assert_eq!(state.pin_level(pin), reference_bit(&data, 0x34 / 4, pin));
        assert_eq!(state.pin_event(pin), reference_bit(&data, 0x40 / 4, pin));
        assert_eq!(state.pin_detect_rise(pin), reference_bit(&data, 0x4C / 4, pin));
        assert_eq!(state.pin_detect_fall(pin), reference_bit(&data, 0x58 / 4, pin));
        assert_eq!(state.pin_detect_high(pin), reference_bit(&data, 0x64 / 4, pin));
        assert_eq!(state.pin_detect_low(pin), reference_bit(&data, 0x70 / 4, pin));
        assert_eq!(state.pin_detect_async_rise(pin), reference_bit(&data, 0x7C / 4, pin));
        assert_eq!(state.pin_detect_async_fall(pin), reference_bit(&data, 0x88 / 4, pin));
    }
}

#[test]
fn function_matches_reference_extraction() {
    let data = synthetic_block();
    let state = GpioState::from_data(data);
    for pin in 0..=53 {
        let expected = PinFunction::try_from_bits(reference_function_bits(&data, pin)).unwrap();
        assert_eq!(state.pin_function(pin), expected);
    }
}

#[test]
fn pin_aggregates_the_attributes() {
    let data = synthetic_block();
    let state = GpioState::from_data(data);
    for pin in 0..=53 {
        let info = state.pin(pin);
        assert_eq!(info.function, state.pin_function(pin));
        assert_eq!(info.level, state.pin_level(pin));
        assert_eq!(info.event, state.pin_event(pin));
        assert_eq!(info.detect_rise, state.pin_detect_rise(pin));
        assert_eq!(info.detect_fall, state.pin_detect_fall(pin));
        assert_eq!(info.detect_high, state.pin_detect_high(pin));
        assert_eq!(info.detect_low, state.pin_detect_low(pin));
        assert_eq!(info.detect_async_rise, state.pin_detect_async_rise(pin));
        assert_eq!(info.detect_async_fall, state.pin_detect_async_fall(pin));
    }
}

#[test]
fn pins_is_deterministic() {
    let state = GpioState::from_data(synthetic_block());
    let first = state.pins();
    let second = state.pins();
    assert_eq!(first.len(), 54);
    assert_eq!(first, second);
    for (pin, info) in first.iter().enumerate() {
        assert_eq!(*info, state.pin(pin));
    }
}

#[test]
fn known_bits_decode_to_known_pins() {
    let mut data = [0u32; 256];
    // Pin 33 level high: bit 1 of the second level bank.
    data[0x38 / 4] = 1 << 1;
    // Pin 5 configured as output: code 001 at bits 15..18 of the first
    // function-select register.
    data[0] = 0b001 << 15;
    let state = GpioState::from_data(data);
    assert!(state.pin_level(33));
    assert!(!state.pin_level(32));
    assert!(!state.pin_level(5));
    assert_eq!(state.pin_function(5), PinFunction::Output);
    assert_eq!(state.pin_function(4), PinFunction::Input);
    assert_eq!(state.pin_function(6), PinFunction::Input);
}

#[test]
fn data_accessors_return_the_snapshot() {
    let data = synthetic_block();
    let state = GpioState::from_data(data);
    assert_eq!(state.data(), &data);
    let state2 = state.clone();
    assert_eq!(state2.into_data(), data);
}
