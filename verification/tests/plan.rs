use rpi_gpio::{
    set_level_op, GpioConfig, GpioPullConfig, PinFunction, PullMode, PullSequence, RegOp, Register,
};

/// Apply a plan to a simulated register block, returning the new block.
fn simulate(mut block: [u32; 256], ops: &[RegOp]) -> [u32; 256] {
    for op in ops {
        match *op {
            RegOp::And { reg, value } => block[reg.word_index()] &= value,
            RegOp::Or { reg, value } => block[reg.word_index()] |= value,
            RegOp::Write { reg, value } => block[reg.word_index()] = value,
            RegOp::Wait { .. } => {},
        }
    }
    block
}

#[test]
fn empty_config_issues_no_operations() {
    let config = GpioConfig::new();
    assert_eq!(config.apply(), vec![]);
}

#[test]
fn empty_pull_config_issues_no_sequences() {
    let pull = GpioPullConfig::new();
    assert_eq!(pull.apply(), vec![]);
}

#[test]
fn single_function_change_touches_one_register() {
    let mut config = GpioConfig::new();
    config.set_function(5, PinFunction::Output);
    let ops = config.apply();
    assert_eq!(
        ops,
        vec![
            RegOp::And { reg: Register::GPFSEL0, value: !(0b111 << 15) },
            RegOp::Or { reg: Register::GPFSEL0, value: 0b001 << 15 },
        ]
    );

    let after = simulate([0u32; 256], &ops);
    for (word, value) in after.iter().enumerate() {
        if word == 0 {
            // Only bits [15..18) of the first function-select register
            // changed, to the output code.
            assert_eq!(*value, 0b001 << 15);
        } else {
            assert_eq!(*value, 0);
        }
    }
}

#[test]
fn detect_rise_on_two_banks_touches_only_rise_registers() {
    let mut config = GpioConfig::new();
    config.set_detect_rise(0, true);
    config.set_detect_rise(33, true);
    let ops = config.apply();
    assert_eq!(
        ops,
        vec![
            RegOp::And { reg: Register::GPREN0, value: !1 },
            RegOp::Or { reg: Register::GPREN0, value: 1 },
            RegOp::And { reg: Register::GPREN1, value: !(1 << 1) },
            RegOp::Or { reg: Register::GPREN1, value: 1 << 1 },
        ]
    );

    let after = simulate([0u32; 256], &ops);
    assert_eq!(after[0x4C / 4], 1); // bit 0 of rise bank 0
    assert_eq!(after[0x50 / 4], 1 << 1); // bit 1 of rise bank 1
    for (word, value) in after.iter().enumerate() {
        if word != 0x4C / 4 && word != 0x50 / 4 {
            // fall, high, low and the async detect registers stay untouched
            assert_eq!(*value, 0);
        }
    }
}

#[test]
fn disabling_detect_clears_without_setting() {
    let mut config = GpioConfig::new();
    config.set_detect_fall(7, false);
    let ops = config.apply();
    assert_eq!(
        ops,
        vec![
            RegOp::And { reg: Register::GPFEN0, value: !(1 << 7) },
            RegOp::Or { reg: Register::GPFEN0, value: 0 },
        ]
    );
    let mut before = [0u32; 256];
    before[0x58 / 4] = 0xFFFF_FFFF;
    let after = simulate(before, &ops);
    assert_eq!(after[0x58 / 4], !(1 << 7));
}

#[test]
fn levels_use_set_and_clear_strobes() {
    let mut config = GpioConfig::new();
    config.set_level(3, true);
    config.set_level(40, false);
    let ops = config.apply();
    assert_eq!(
        ops,
        vec![
            RegOp::Write { reg: Register::GPSET0, value: 1 << 3 },
            RegOp::Write { reg: Register::GPCLR1, value: 1 << 8 },
        ]
    );
}

#[test]
fn last_write_wins_within_a_batch() {
    let mut config = GpioConfig::new();
    config.set_function(5, PinFunction::Alt3);
    config.set_function(5, PinFunction::Output);
    let ops = config.apply();
    assert_eq!(
        ops,
        vec![
            RegOp::And { reg: Register::GPFSEL0, value: !(0b111 << 15) },
            RegOp::Or { reg: Register::GPFSEL0, value: 0b001 << 15 },
        ]
    );
}

#[test]
fn functions_levels_and_detects_are_ordered() {
    let mut config = GpioConfig::new();
    config.set_function(10, PinFunction::Alt0);
    config.set_level(1, true);
    config.set_detect_async_fall(53, true);
    let ops = config.apply();
    assert_eq!(
        ops,
        vec![
            RegOp::And { reg: Register::GPFSEL1, value: !0b111 },
            RegOp::Or { reg: Register::GPFSEL1, value: 0b100 },
            RegOp::Write { reg: Register::GPSET0, value: 1 << 1 },
            RegOp::And { reg: Register::GPAFEN1, value: !(1 << 21) },
            RegOp::Or { reg: Register::GPAFEN1, value: 1 << 21 },
        ]
    );
}

#[test]
fn pull_batch_yields_one_sequence_per_used_mode() {
    let mut pull = GpioPullConfig::new();
    pull.set_pull_mode(2, PullMode::PullUp);
    pull.set_pull_mode(40, PullMode::PullDown);
    let sequences = pull.apply();
    assert_eq!(
        sequences,
        vec![
            PullSequence { mode: PullMode::PullUp, bank0: 1 << 2, bank1: 0 },
            PullSequence { mode: PullMode::PullDown, bank0: 0, bank1: 1 << 8 },
        ]
    );
}

#[test]
fn pull_sequence_steps_follow_the_strobe_protocol() {
    let sequence = PullSequence { mode: PullMode::PullUp, bank0: 1 << 2, bank1: 0 };
    assert_eq!(
        sequence.steps(),
        vec![
            RegOp::Write { reg: Register::GPPUDCLK0, value: 0 },
            RegOp::Write { reg: Register::GPPUDCLK1, value: 0 },
            RegOp::Write { reg: Register::GPPUD, value: 0b10 },
            RegOp::Wait { cycles: 150 },
            RegOp::Write { reg: Register::GPPUDCLK0, value: 1 << 2 },
            RegOp::Write { reg: Register::GPPUDCLK1, value: 0 },
            RegOp::Wait { cycles: 150 },
            RegOp::Write { reg: Register::GPPUDCLK0, value: 0 },
            RegOp::Write { reg: Register::GPPUDCLK1, value: 0 },
            RegOp::Write { reg: Register::GPPUD, value: 0 },
        ]
    );
}

#[test]
fn float_mode_is_strobed_first() {
    let mut pull = GpioPullConfig::new();
    pull.set_pull_mode(0, PullMode::PullDown);
    pull.set_pull_mode(1, PullMode::Float);
    let sequences = pull.apply();
    assert_eq!(
        sequences,
        vec![
            PullSequence { mode: PullMode::Float, bank0: 1 << 1, bank1: 0 },
            PullSequence { mode: PullMode::PullDown, bank0: 1, bank1: 0 },
        ]
    );
}

#[test]
fn single_level_strobe_ops() {
    assert_eq!(
        set_level_op(6, true),
        RegOp::Write { reg: Register::GPSET0, value: 1 << 6 }
    );
    assert_eq!(
        set_level_op(34, false),
        RegOp::Write { reg: Register::GPCLR1, value: 1 << 2 }
    );
}

#[test]
fn register_offsets_match_the_datasheet() {
    let banked = [
        (Register::GPSET0, 0x1C),
        (Register::GPSET1, 0x20),
        (Register::GPCLR0, 0x28),
        (Register::GPCLR1, 0x2C),
        (Register::GPLEV0, 0x34),
        (Register::GPLEV1, 0x38),
        (Register::GPEDS0, 0x40),
        (Register::GPEDS1, 0x44),
        (Register::GPREN0, 0x4C),
        (Register::GPREN1, 0x50),
        (Register::GPFEN0, 0x58),
        (Register::GPFEN1, 0x5C),
        (Register::GPHEN0, 0x64),
        (Register::GPHEN1, 0x68),
        (Register::GPLEN0, 0x70),
        (Register::GPLEN1, 0x74),
        (Register::GPAREN0, 0x7C),
        (Register::GPAREN1, 0x80),
        (Register::GPAFEN0, 0x88),
        (Register::GPAFEN1, 0x8C),
        (Register::GPPUD, 0x94),
        (Register::GPPUDCLK0, 0x98),
        (Register::GPPUDCLK1, 0x9C),
    ];
    for (reg, offset) in banked {
        assert_eq!(reg.byte_offset(), offset);
        assert_eq!(reg.word_index(), offset / 4);
    }
    for i in 0..6 {
        assert_eq!(Register::fsel(i).byte_offset(), 4 * i);
    }
    for i in 0..2 {
        assert_eq!(Register::set(i).byte_offset(), 0x1C + 4 * i);
        assert_eq!(Register::clr(i).byte_offset(), 0x28 + 4 * i);
        assert_eq!(Register::lev(i).byte_offset(), 0x34 + 4 * i);
        assert_eq!(Register::eds(i).byte_offset(), 0x40 + 4 * i);
        assert_eq!(Register::ren(i).byte_offset(), 0x4C + 4 * i);
        assert_eq!(Register::fen(i).byte_offset(), 0x58 + 4 * i);
        assert_eq!(Register::hen(i).byte_offset(), 0x64 + 4 * i);
        assert_eq!(Register::len(i).byte_offset(), 0x70 + 4 * i);
        assert_eq!(Register::aren(i).byte_offset(), 0x7C + 4 * i);
        assert_eq!(Register::afen(i).byte_offset(), 0x88 + 4 * i);
        assert_eq!(Register::pudclk(i).byte_offset(), 0x98 + 4 * i);
    }
    assert_eq!(Register::pud().byte_offset(), 0x94);
}
