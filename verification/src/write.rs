//! Batches of desired per-pin settings and the register operations that
//! apply them.
//!
//! A batch holds, for each pin, an optional desired value; `None` means
//! "leave unchanged". Applying a batch yields the exact sequence of
//! register operations to issue: every register with at least one pending
//! change is touched by exactly one AND and, where applicable, one OR (or
//! one strobe write per direction for levels), however many pins inside it
//! changed, and registers without pending changes get no operation at all.
//!
//! Pull up/down settings use the legacy multi-step strobing protocol and
//! cannot be applied atomically; they form their own batch whose plan is a
//! sequence of five-step strobe sequences, one per pull mode in use.

use vstd::prelude::*;

use crate::PinFunction;
use crate::PullMode;
use crate::function_to_bits;
use crate::pull_to_bits;
use crate::read::bank_bit_set;
use crate::read::function_code;
use crate::register::Register;
use crate::register::clr_reg;
use crate::register::fsel_reg;
use crate::register::register_word;
use crate::register::set_reg;

verus! {

/// One operation on a single register of the control block.
///
/// `And` and `Or` are hardware-atomic read-modify-writes, safe against
/// concurrent actors touching other bits. `Write` is a plain volatile
/// write, used for write-only strobe registers. `Wait` is a busy-wait of a
/// fixed number of loop iterations, not a calibrated real-time delay: the
/// hardware's documented settle requirement is an iteration count, and its
/// behavior under compiler optimization or varying clock speed is left as
/// undefined here as the hardware leaves it.
#[derive(Copy, Clone, Debug, Eq, PartialEq, Structural)]
pub enum RegOp {
    And { reg: Register, value: u32 },
    Or { reg: Register, value: u32 },
    Write { reg: Register, value: u32 },
    Wait { cycles: u32 },
}

/// A batch of desired per-pin settings that can be applied with atomic
/// per-register operations.
///
/// Setting the same field of the same pin twice before applying silently
/// overwrites: the last write wins.
#[derive(Clone)]
pub struct GpioConfig {
    pub function: [Option<PinFunction>; 54],
    pub level: [Option<bool>; 54],
    pub detect_rise: [Option<bool>; 54],
    pub detect_fall: [Option<bool>; 54],
    pub detect_high: [Option<bool>; 54],
    pub detect_low: [Option<bool>; 54],
    pub detect_async_rise: [Option<bool>; 54],
    pub detect_async_fall: [Option<bool>; 54],
}

/// A batch of desired per-pin pull up/down modes.
///
/// These are separate from [`GpioConfig`] because the hardware cannot apply
/// them atomically: the multi-register strobing protocol is racy against
/// concurrent actors by design, a documented risk accepted by the caller.
#[derive(Clone)]
pub struct GpioPullConfig {
    pub pull_mode: [Option<PullMode>; 54],
}

/// One application of the pull strobing protocol: every pin whose bit is
/// set in `bank0` or `bank1` receives the pull mode `mode`.
#[derive(Copy, Clone, Debug, Eq, PartialEq, Structural)]
pub struct PullSequence {
    pub mode: PullMode,
    pub bank0: u32,
    pub bank1: u32,
}

/// The clear mask of function-select register `reg` over pins `0..n`: the
/// OR of `0b111 << (3 * (pin % 10))` for every such pin of that register
/// with a pending function change.
pub open spec fn fsel_clear_upto(f: Seq<Option<PinFunction>>, reg: int, n: int) -> u32
    decreases n,
{
    if n <= 0 {
        0u32
    } else {
        let rest = fsel_clear_upto(f, reg, n - 1);
        if f[n - 1] is Some && (n - 1) / 10 == reg {
            rest | (0b111u32 << ((3 * ((n - 1) % 10)) as u32))
        } else {
            rest
        }
    }
}

/// The set value of function-select register `reg` over pins `0..n`: the
/// OR of `code << (3 * (pin % 10))` for every such pin of that register
/// with a pending function change.
pub open spec fn fsel_set_upto(f: Seq<Option<PinFunction>>, reg: int, n: int) -> u32
    decreases n,
{
    if n <= 0 {
        0u32
    } else {
        let rest = fsel_set_upto(f, reg, n - 1);
        if f[n - 1] is Some && (n - 1) / 10 == reg {
            rest | ((function_to_bits(f[n - 1]->0) as u32) << ((3 * ((n - 1) % 10)) as u32))
        } else {
            rest
        }
    }
}

/// The clear mask of function-select register `reg` over all 54 pins.
pub open spec fn fsel_clear_mask(f: Seq<Option<PinFunction>>, reg: int) -> u32 {
    fsel_clear_upto(f, reg, 54)
}

/// The set value of function-select register `reg` over all 54 pins.
pub open spec fn fsel_set_mask(f: Seq<Option<PinFunction>>, reg: int) -> u32 {
    fsel_set_upto(f, reg, 54)
}

/// The bank mask over pins `0..n` of the pins with any pending change.
pub open spec fn bank_touch_upto(v: Seq<Option<bool>>, bank: int, n: int) -> u32
    decreases n,
{
    if n <= 0 {
        0u32
    } else {
        let rest = bank_touch_upto(v, bank, n - 1);
        if v[n - 1] is Some && (n - 1) / 32 == bank {
            rest | (1u32 << (((n - 1) % 32) as u32))
        } else {
            rest
        }
    }
}

/// The bank mask over pins `0..n` of the pins pending the value `want`.
pub open spec fn bank_value_upto(v: Seq<Option<bool>>, bank: int, want: bool, n: int) -> u32
    decreases n,
{
    if n <= 0 {
        0u32
    } else {
        let rest = bank_value_upto(v, bank, want, n - 1);
        if v[n - 1] == Some(want) && (n - 1) / 32 == bank {
            rest | (1u32 << (((n - 1) % 32) as u32))
        } else {
            rest
        }
    }
}

/// The bank mask of the pins with any pending change, over all 54 pins.
pub open spec fn bank_touch_mask(v: Seq<Option<bool>>, bank: int) -> u32 {
    bank_touch_upto(v, bank, 54)
}

/// The bank mask of the pins pending the value `want`, over all 54 pins.
pub open spec fn bank_value_mask(v: Seq<Option<bool>>, bank: int, want: bool) -> u32 {
    bank_value_upto(v, bank, want, 54)
}

/// The operations on one function-select register: one atomic AND that
/// transiently drives the changed pins to the Input pattern (a documented,
/// presumed-safe side effect), then one atomic OR setting the new codes.
/// A register with no pending change gets no operation.
pub open spec fn fsel_reg_ops(f: Seq<Option<PinFunction>>, reg: int) -> Seq<RegOp> {
    if fsel_clear_mask(f, reg) == 0 {
        seq![]
    } else {
        seq![
            RegOp::And { reg: fsel_reg(reg), value: !fsel_clear_mask(f, reg) },
            RegOp::Or { reg: fsel_reg(reg), value: fsel_set_mask(f, reg) },
        ]
    }
}

/// The function-select operations of the first `n` registers, in order.
pub open spec fn fsel_ops_upto(f: Seq<Option<PinFunction>>, n: int) -> Seq<RegOp>
    decreases n,
{
    if n <= 0 {
        seq![]
    } else {
        fsel_ops_upto(f, n - 1) + fsel_reg_ops(f, n - 1)
    }
}

/// The function-select operations of all six registers.
pub open spec fn fsel_ops(f: Seq<Option<PinFunction>>) -> Seq<RegOp> {
    fsel_ops_upto(f, 6)
}

/// The level operations of one bank: levels use the write-only set and
/// clear strobe registers, so at most one write per direction is issued,
/// and only when that direction has a pending pin.
pub open spec fn level_bank_ops(lv: Seq<Option<bool>>, bank: int) -> Seq<RegOp> {
    (if bank_value_mask(lv, bank, true) != 0 {
        seq![RegOp::Write { reg: set_reg(bank), value: bank_value_mask(lv, bank, true) }]
    } else {
        seq![]
    }) + (if bank_value_mask(lv, bank, false) != 0 {
        seq![RegOp::Write { reg: clr_reg(bank), value: bank_value_mask(lv, bank, false) }]
    } else {
        seq![]
    })
}

/// The level operations of both banks.
pub open spec fn level_ops(lv: Seq<Option<bool>>) -> Seq<RegOp> {
    level_bank_ops(lv, 0) + level_bank_ops(lv, 1)
}

/// The operations on one bank of a persistent detect-enable family: one
/// atomic AND clearing every touched pin's bit, then one atomic OR setting
/// the enabled pins' bits. An untouched bank gets no operation.
pub open spec fn detect_bank_ops(v: Seq<Option<bool>>, reg0: Register, reg1: Register, bank: int) -> Seq<
    RegOp,
> {
    let reg = if bank == 0 {
        reg0
    } else {
        reg1
    };
    if bank_touch_mask(v, bank) == 0 {
        seq![]
    } else {
        seq![
            RegOp::And { reg, value: !bank_touch_mask(v, bank) },
            RegOp::Or { reg, value: bank_value_mask(v, bank, true) },
        ]
    }
}

/// The operations of both banks of a detect-enable family.
pub open spec fn detect_ops(v: Seq<Option<bool>>, reg0: Register, reg1: Register) -> Seq<RegOp> {
    detect_bank_ops(v, reg0, reg1, 0) + detect_bank_ops(v, reg0, reg1, 1)
}

/// The full plan of an atomic config batch: function select first, then
/// levels, then the six detect families.
pub open spec fn config_plan(c: GpioConfig) -> Seq<RegOp> {
    fsel_ops(c.function@) + level_ops(c.level@) + detect_ops(
        c.detect_rise@,
        Register::GPREN0,
        Register::GPREN1,
    ) + detect_ops(c.detect_fall@, Register::GPFEN0, Register::GPFEN1) + detect_ops(
        c.detect_high@,
        Register::GPHEN0,
        Register::GPHEN1,
    ) + detect_ops(c.detect_low@, Register::GPLEN0, Register::GPLEN1) + detect_ops(
        c.detect_async_rise@,
        Register::GPAREN0,
        Register::GPAREN1,
    ) + detect_ops(c.detect_async_fall@, Register::GPAFEN0, Register::GPAFEN1)
}

impl GpioConfig {
    /// An empty batch: every pin of every field is left unchanged.
    pub fn new() -> (r: Self)
        ensures
            forall|i: int| 0 <= i < 54 ==> r.function@[i] is None,
            forall|i: int| 0 <= i < 54 ==> r.level@[i] is None,
            forall|i: int| 0 <= i < 54 ==> r.detect_rise@[i] is None,
            forall|i: int| 0 <= i < 54 ==> r.detect_fall@[i] is None,
            forall|i: int| 0 <= i < 54 ==> r.detect_high@[i] is None,
            forall|i: int| 0 <= i < 54 ==> r.detect_low@[i] is None,
            forall|i: int| 0 <= i < 54 ==> r.detect_async_rise@[i] is None,
            forall|i: int| 0 <= i < 54 ==> r.detect_async_fall@[i] is None,
    {
        Self {
            function: [None; 54],
            level: [None; 54],
            detect_rise: [None; 54],
            detect_fall: [None; 54],
            detect_high: [None; 54],
            detect_low: [None; 54],
            detect_async_fall: [None; 54],
            detect_async_rise: [None; 54],
        }
    }

    /// Record a desired function for a pin.
    pub fn set_function(&mut self, pin: usize, mode: PinFunction)
        requires
            pin <= 53,
        ensures
            final(self).function@ == old(self).function@.update(pin as int, Some(mode)),
            final(self).level == old(self).level,
            final(self).detect_rise == old(self).detect_rise,
            final(self).detect_fall == old(self).detect_fall,
            final(self).detect_high == old(self).detect_high,
            final(self).detect_low == old(self).detect_low,
            final(self).detect_async_rise == old(self).detect_async_rise,
            final(self).detect_async_fall == old(self).detect_async_fall,
    {
        self.function[pin] = Some(mode);
    }

    /// Record a desired level for a pin.
    pub fn set_level(&mut self, pin: usize, level: bool)
        requires
            pin <= 53,
        ensures
            final(self).level@ == old(self).level@.update(pin as int, Some(level)),
            final(self).function == old(self).function,
            final(self).detect_rise == old(self).detect_rise,
            final(self).detect_fall == old(self).detect_fall,
            final(self).detect_high == old(self).detect_high,
            final(self).detect_low == old(self).detect_low,
            final(self).detect_async_rise == old(self).detect_async_rise,
            final(self).detect_async_fall == old(self).detect_async_fall,
    {
        self.level[pin] = Some(level);
    }

    /// Record a desired rising-edge detect-enable state for a pin.
    pub fn set_detect_rise(&mut self, pin: usize, detect: bool)
        requires
            pin <= 53,
        ensures
            final(self).detect_rise@ == old(self).detect_rise@.update(pin as int, Some(detect)),
            final(self).function == old(self).function,
            final(self).level == old(self).level,
            final(self).detect_fall == old(self).detect_fall,
            final(self).detect_high == old(self).detect_high,
            final(self).detect_low == old(self).detect_low,
            final(self).detect_async_rise == old(self).detect_async_rise,
            final(self).detect_async_fall == old(self).detect_async_fall,
    {
        self.detect_rise[pin] = Some(detect);
    }

    /// Record a desired falling-edge detect-enable state for a pin.
    pub fn set_detect_fall(&mut self, pin: usize, detect: bool)
        requires
            pin <= 53,
        ensures
            final(self).detect_fall@ == old(self).detect_fall@.update(pin as int, Some(detect)),
            final(self).function == old(self).function,
            final(self).level == old(self).level,
            final(self).detect_rise == old(self).detect_rise,
            final(self).detect_high == old(self).detect_high,
            final(self).detect_low == old(self).detect_low,
            final(self).detect_async_rise == old(self).detect_async_rise,
            final(self).detect_async_fall == old(self).detect_async_fall,
    {
        self.detect_fall[pin] = Some(detect);
    }

    /// Record a desired high-level detect-enable state for a pin.
    pub fn set_detect_high(&mut self, pin: usize, detect: bool)
        requires
            pin <= 53,
        ensures
            final(self).detect_high@ == old(self).detect_high@.update(pin as int, Some(detect)),
            final(self).function == old(self).function,
            final(self).level == old(self).level,
            final(self).detect_rise == old(self).detect_rise,
            final(self).detect_fall == old(self).detect_fall,
            final(self).detect_low == old(self).detect_low,
            final(self).detect_async_rise == old(self).detect_async_rise,
            final(self).detect_async_fall == old(self).detect_async_fall,
    {
        self.detect_high[pin] = Some(detect);
    }

    /// Record a desired low-level detect-enable state for a pin.
    pub fn set_detect_low(&mut self, pin: usize, detect: bool)
        requires
            pin <= 53,
        ensures
            final(self).detect_low@ == old(self).detect_low@.update(pin as int, Some(detect)),
            final(self).function == old(self).function,
            final(self).level == old(self).level,
            final(self).detect_rise == old(self).detect_rise,
            final(self).detect_fall == old(self).detect_fall,
            final(self).detect_high == old(self).detect_high,
            final(self).detect_async_rise == old(self).detect_async_rise,
            final(self).detect_async_fall == old(self).detect_async_fall,
    {
        self.detect_low[pin] = Some(detect);
    }

    /// Record a desired asynchronous rising-edge detect-enable state.
    pub fn set_detect_async_rise(&mut self, pin: usize, detect: bool)
        requires
            pin <= 53,
        ensures
            final(self).detect_async_rise@ == old(self).detect_async_rise@.update(
                pin as int,
                Some(detect),
            ),
            final(self).function == old(self).function,
            final(self).level == old(self).level,
            final(self).detect_rise == old(self).detect_rise,
            final(self).detect_fall == old(self).detect_fall,
            final(self).detect_high == old(self).detect_high,
            final(self).detect_low == old(self).detect_low,
            final(self).detect_async_fall == old(self).detect_async_fall,
    {
        self.detect_async_rise[pin] = Some(detect);
    }

    /// Record a desired asynchronous falling-edge detect-enable state.
    pub fn set_detect_async_fall(&mut self, pin: usize, detect: bool)
        requires
            pin <= 53,
        ensures
            final(self).detect_async_fall@ == old(self).detect_async_fall@.update(
                pin as int,
                Some(detect),
            ),
            final(self).function == old(self).function,
            final(self).level == old(self).level,
            final(self).detect_rise == old(self).detect_rise,
            final(self).detect_fall == old(self).detect_fall,
            final(self).detect_high == old(self).detect_high,
            final(self).detect_low == old(self).detect_low,
            final(self).detect_async_rise == old(self).detect_async_rise,
    {
        self.detect_async_fall[pin] = Some(detect);
    }

    /// Compute the exact sequence of register operations that applies this
    /// batch: minimal per-register atomic read-modify-writes and level
    /// strobes, touching no register without a pending change.
    pub fn apply(&self) -> (r: Vec<RegOp>)
        ensures
            r@ == config_plan(*self),
    {
        let mut ops = self.apply_functions();
        let mut more = self.apply_levels();
        ops.append(&mut more);
        let mut more = apply_registers(&self.detect_rise, Register::GPREN0, Register::GPREN1);
        ops.append(&mut more);
        let mut more = apply_registers(&self.detect_fall, Register::GPFEN0, Register::GPFEN1);
        ops.append(&mut more);
        let mut more = apply_registers(&self.detect_high, Register::GPHEN0, Register::GPHEN1);
        ops.append(&mut more);
        let mut more = apply_registers(&self.detect_low, Register::GPLEN0, Register::GPLEN1);
        ops.append(&mut more);
        let mut more = apply_registers(&self.detect_async_rise, Register::GPAREN0, Register::GPAREN1);
        ops.append(&mut more);
        let mut more = apply_registers(&self.detect_async_fall, Register::GPAFEN0, Register::GPAFEN1);
        ops.append(&mut more);
        proof {
            assert(ops@ =~= config_plan(*self));
        }
        ops
    }

    /// The function-select part of the plan.
    fn apply_functions(&self) -> (r: Vec<RegOp>)
        ensures
            r@ == fsel_ops(self.function@),
    {
        let mut mask: [u32; 6] = [0; 6];
        let mut value: [u32; 6] = [0; 6];

        for pin in 0..54usize
            invariant
                forall|rg: int|
                    0 <= rg < 6 ==> mask@[rg] == fsel_clear_upto(self.function@, rg, pin as int),
                forall|rg: int|
                    0 <= rg < 6 ==> value@[rg] == fsel_set_upto(self.function@, rg, pin as int),
        {
            if let Some(function) = self.function[pin] {
                let reg = pin / 10;
                let index = pin % 10;
                mask[reg] = mask[reg] | (0b111u32 << ((3 * index) as u32));
                value[reg] = value[reg] | ((function.to_bits() as u32) << ((3 * index) as u32));
            }
        }

        let mut ops: Vec<RegOp> = Vec::new();
        for i in 0..6usize
            invariant
                forall|rg: int|
                    0 <= rg < 6 ==> mask@[rg] == fsel_clear_mask(self.function@, rg),
                forall|rg: int|
                    0 <= rg < 6 ==> value@[rg] == fsel_set_mask(self.function@, rg),
                ops@ == fsel_ops_upto(self.function@, i as int),
        {
            if mask[i] != 0 {
                ops.push(RegOp::And { reg: Register::fsel(i), value: !mask[i] });
                ops.push(RegOp::Or { reg: Register::fsel(i), value: value[i] });
            }
            proof {
                assert(ops@ =~= fsel_ops_upto(self.function@, i as int + 1));
            }
        }
        ops
    }

    /// The level part of the plan.
    fn apply_levels(&self) -> (r: Vec<RegOp>)
        ensures
            r@ == level_ops(self.level@),
    {
        let mut set_mask: [u32; 2] = [0; 2];
        let mut clear_mask: [u32; 2] = [0; 2];

        for pin in 0..54usize
            invariant
                forall|b: int|
                    0 <= b < 2 ==> set_mask@[b] == bank_value_upto(self.level@, b, true, pin as int),
                forall|b: int|
                    0 <= b < 2 ==> clear_mask@[b] == bank_value_upto(
                        self.level@,
                        b,
                        false,
                        pin as int,
                    ),
        {
            if let Some(level) = self.level[pin] {
                let bank = pin / 32;
                let bit = 1u32 << ((pin % 32) as u32);
                if level {
                    set_mask[bank] = set_mask[bank] | bit;
                } else {
                    clear_mask[bank] = clear_mask[bank] | bit;
                }
            }
        }

        let mut ops: Vec<RegOp> = Vec::new();
        for bank in 0..2usize
            invariant
                forall|b: int|
                    0 <= b < 2 ==> set_mask@[b] == bank_value_mask(self.level@, b, true),
                forall|b: int|
                    0 <= b < 2 ==> clear_mask@[b] == bank_value_mask(self.level@, b, false),
                ops@ == (if bank == 0 {
                    Seq::<RegOp>::empty()
                } else if bank == 1 {
                    level_bank_ops(self.level@, 0)
                } else {
                    level_bank_ops(self.level@, 0) + level_bank_ops(self.level@, 1)
                }),
        {
            if set_mask[bank] != 0 {
                ops.push(RegOp::Write { reg: Register::set(bank), value: set_mask[bank] });
            }
            if clear_mask[bank] != 0 {
                ops.push(RegOp::Write { reg: Register::clr(bank), value: clear_mask[bank] });
            }
            proof {
                assert(ops@ =~= (if bank == 0 {
                    level_bank_ops(self.level@, 0)
                } else {
                    level_bank_ops(self.level@, 0) + level_bank_ops(self.level@, 1)
                }));
            }
        }
        proof {
            assert(ops@ =~= level_ops(self.level@));
        }
        ops
    }
}

/// The two-bank plan of one persistent detect-enable family.
fn apply_registers(values: &[Option<bool>; 54], reg0: Register, reg1: Register) -> (r: Vec<RegOp>)
    ensures
        r@ == detect_ops(values@, reg0, reg1),
{
    let mut touch: [u32; 2] = [0; 2];
    let mut enable: [u32; 2] = [0; 2];

    for pin in 0..54usize
        invariant
            forall|b: int| 0 <= b < 2 ==> touch@[b] == bank_touch_upto(values@, b, pin as int),
            forall|b: int|
                0 <= b < 2 ==> enable@[b] == bank_value_upto(values@, b, true, pin as int),
    {
        if let Some(bit) = values[pin] {
            let bank = pin / 32;
            let mask = 1u32 << ((pin % 32) as u32);
            touch[bank] = touch[bank] | mask;
            if bit {
                enable[bank] = enable[bank] | mask;
            }
        }
    }

    let mut ops: Vec<RegOp> = Vec::new();
    for bank in 0..2usize
        invariant
            forall|b: int| 0 <= b < 2 ==> touch@[b] == bank_touch_mask(values@, b),
            forall|b: int| 0 <= b < 2 ==> enable@[b] == bank_value_mask(values@, b, true),
            ops@ == (if bank == 0 {
                Seq::<RegOp>::empty()
            } else if bank == 1 {
                detect_bank_ops(values@, reg0, reg1, 0)
            } else {
                detect_bank_ops(values@, reg0, reg1, 0) + detect_bank_ops(values@, reg0, reg1, 1)
            }),
    {
        let reg = if bank == 0 {
            reg0
        } else {
            reg1
        };
        if touch[bank] != 0 {
            ops.push(RegOp::And { reg, value: !touch[bank] });
            ops.push(RegOp::Or { reg, value: enable[bank] });
        }
        proof {
            assert(ops@ =~= (if bank == 0 {
                detect_bank_ops(values@, reg0, reg1, 0)
            } else {
                detect_bank_ops(values@, reg0, reg1, 0) + detect_bank_ops(values@, reg0, reg1, 1)
            }));
        }
    }
    proof {
        assert(ops@ =~= detect_ops(values@, reg0, reg1));
    }
    ops
}

/// The bank mask over pins `0..n` of the pins pending the pull mode `mode`.
pub open spec fn pull_mask_upto(p: Seq<Option<PullMode>>, mode: PullMode, bank: int, n: int) -> u32
    decreases n,
{
    if n <= 0 {
        0u32
    } else {
        let rest = pull_mask_upto(p, mode, bank, n - 1);
        if p[n - 1] == Some(mode) && (n - 1) / 32 == bank {
            rest | (1u32 << (((n - 1) % 32) as u32))
        } else {
            rest
        }
    }
}

/// The bank mask of the pins pending the pull mode `mode`, over all pins.
pub open spec fn pull_mask(p: Seq<Option<PullMode>>, mode: PullMode, bank: int) -> u32 {
    pull_mask_upto(p, mode, bank, 54)
}

/// The strobe sequences a pull mode contributes to the plan: none when no
/// pin is pending that mode, else exactly one covering both banks.
pub open spec fn pull_mode_sequences(p: Seq<Option<PullMode>>, mode: PullMode) -> Seq<
    PullSequence,
> {
    if pull_mask(p, mode, 0) == 0 && pull_mask(p, mode, 1) == 0 {
        seq![]
    } else {
        seq![PullSequence { mode, bank0: pull_mask(p, mode, 0), bank1: pull_mask(p, mode, 1) }]
    }
}

/// The full pull plan: the modes are strobed in the fixed order float,
/// pull-up, pull-down, each only if some pin is pending it.
pub open spec fn pull_plan(p: Seq<Option<PullMode>>) -> Seq<PullSequence> {
    pull_mode_sequences(p, PullMode::Float) + pull_mode_sequences(p, PullMode::PullUp)
        + pull_mode_sequences(p, PullMode::PullDown)
}

/// The five steps of one strobe sequence: clear both pull clocks and write
/// the mode code, busy-wait the documented settle count, strobe the
/// selected pins' clock bits, busy-wait again, then clear the clocks and
/// the mode register.
pub open spec fn pull_sequence_steps(s: PullSequence) -> Seq<RegOp> {
    seq![
        RegOp::Write { reg: Register::GPPUDCLK0, value: 0u32 },
        RegOp::Write { reg: Register::GPPUDCLK1, value: 0u32 },
        RegOp::Write { reg: Register::GPPUD, value: pull_to_bits(s.mode) as u32 },
        RegOp::Wait { cycles: 150u32 },
        RegOp::Write { reg: Register::GPPUDCLK0, value: s.bank0 },
        RegOp::Write { reg: Register::GPPUDCLK1, value: s.bank1 },
        RegOp::Wait { cycles: 150u32 },
        RegOp::Write { reg: Register::GPPUDCLK0, value: 0u32 },
        RegOp::Write { reg: Register::GPPUDCLK1, value: 0u32 },
        RegOp::Write { reg: Register::GPPUD, value: 0u32 },
    ]
}

impl PullSequence {
    /// The register operations of this strobe sequence, in order.
    pub fn steps(&self) -> (r: Vec<RegOp>)
        ensures
            r@ == pull_sequence_steps(*self),
    {
        let mut ops: Vec<RegOp> = Vec::new();
        ops.push(RegOp::Write { reg: Register::GPPUDCLK0, value: 0 });
        ops.push(RegOp::Write { reg: Register::GPPUDCLK1, value: 0 });
        ops.push(RegOp::Write { reg: Register::GPPUD, value: self.mode.to_bits() as u32 });
        ops.push(RegOp::Wait { cycles: 150 });
        ops.push(RegOp::Write { reg: Register::GPPUDCLK0, value: self.bank0 });
        ops.push(RegOp::Write { reg: Register::GPPUDCLK1, value: self.bank1 });
        ops.push(RegOp::Wait { cycles: 150 });
        ops.push(RegOp::Write { reg: Register::GPPUDCLK0, value: 0 });
        ops.push(RegOp::Write { reg: Register::GPPUDCLK1, value: 0 });
        ops.push(RegOp::Write { reg: Register::GPPUD, value: 0 });
        proof {
            assert(ops@ =~= pull_sequence_steps(*self));
        }
        ops
    }
}

impl GpioPullConfig {
    /// An empty batch: every pin's pull mode is left unchanged.
    pub fn new() -> (r: Self)
        ensures
            forall|i: int| 0 <= i < 54 ==> r.pull_mode@[i] is None,
    {
        Self { pull_mode: [None; 54] }
    }

    /// Record a desired pull mode for a pin.
    pub fn set_pull_mode(&mut self, pin: usize, mode: PullMode)
        requires
            pin <= 53,
        ensures
            final(self).pull_mode@ == old(self).pull_mode@.update(pin as int, Some(mode)),
    {
        self.pull_mode[pin] = Some(mode);
    }

    /// Compute the strobe sequences that apply this batch: one five-step
    /// sequence per pull mode that has at least one pending pin, in the
    /// fixed order float, pull-up, pull-down.
    ///
    /// The protocol is not atomic: another actor changing pull settings
    /// concurrently may see or cause the wrong mode being strobed.
    pub fn apply(&self) -> (r: Vec<PullSequence>)
        ensures
            r@ == pull_plan(self.pull_mode@),
    {
        let mut float_clk: [u32; 2] = [0; 2];
        let mut pull_up_clk: [u32; 2] = [0; 2];
        let mut pull_down_clk: [u32; 2] = [0; 2];

        for pin in 0..54usize
            invariant
                forall|b: int|
                    0 <= b < 2 ==> float_clk@[b] == pull_mask_upto(
                        self.pull_mode@,
                        PullMode::Float,
                        b,
                        pin as int,
                    ),
                forall|b: int|
                    0 <= b < 2 ==> pull_up_clk@[b] == pull_mask_upto(
                        self.pull_mode@,
                        PullMode::PullUp,
                        b,
                        pin as int,
                    ),
                forall|b: int|
                    0 <= b < 2 ==> pull_down_clk@[b] == pull_mask_upto(
                        self.pull_mode@,
                        PullMode::PullDown,
                        b,
                        pin as int,
                    ),
        {
            let bank = pin / 32;
            let bit = 1u32 << ((pin % 32) as u32);
            match self.pull_mode[pin] {
                None => (),
                Some(PullMode::Float) => {
                    float_clk[bank] = float_clk[bank] | bit;
                },
                Some(PullMode::PullUp) => {
                    pull_up_clk[bank] = pull_up_clk[bank] | bit;
                },
                Some(PullMode::PullDown) => {
                    pull_down_clk[bank] = pull_down_clk[bank] | bit;
                },
            }
        }

        let mut sequences: Vec<PullSequence> = Vec::new();
        if float_clk[0] != 0 || float_clk[1] != 0 {
            sequences.push(
                PullSequence { mode: PullMode::Float, bank0: float_clk[0], bank1: float_clk[1] },
            );
        }
        if pull_up_clk[0] != 0 || pull_up_clk[1] != 0 {
            sequences.push(
                PullSequence {
                    mode: PullMode::PullUp,
                    bank0: pull_up_clk[0],
                    bank1: pull_up_clk[1],
                },
            );
        }
        if pull_down_clk[0] != 0 || pull_down_clk[1] != 0 {
            sequences.push(
                PullSequence {
                    mode: PullMode::PullDown,
                    bank0: pull_down_clk[0],
                    bank1: pull_down_clk[1],
                },
            );
        }
        proof {
            assert(sequences@ =~= pull_plan(self.pull_mode@));
        }
        sequences
    }
}

/// The control block a single register operation leaves behind: the model
/// of what the hardware does to its registers, a wait changing nothing.
pub open spec fn apply_op(block: Seq<u32>, op: RegOp) -> Seq<u32> {
    match op {
        RegOp::And { reg, value } => block.update(
            register_word(reg),
            block[register_word(reg)] & value,
        ),
        RegOp::Or { reg, value } => block.update(
            register_word(reg),
            block[register_word(reg)] | value,
        ),
        RegOp::Write { reg, value } => block.update(register_word(reg), value),
        RegOp::Wait { .. } => block,
    }
}

/// The control block a sequence of register operations leaves behind.
pub open spec fn apply_ops(block: Seq<u32>, ops: Seq<RegOp>) -> Seq<u32>
    decreases ops.len(),
{
    if ops.len() == 0 {
        block
    } else {
        apply_ops(apply_op(block, ops[0]), ops.drop_first())
    }
}

/// Applying a concatenation applies the parts in order.
pub proof fn lemma_apply_ops_concat(block: Seq<u32>, a: Seq<RegOp>, b: Seq<RegOp>)
    ensures
        apply_ops(block, a + b) == apply_ops(apply_ops(block, a), b),
    decreases a.len(),
{
    if a.len() == 0 {
        assert(a + b =~= b);
    } else {
        assert((a + b).drop_first() =~= a.drop_first() + b);
        lemma_apply_ops_concat(apply_op(block, a[0]), a.drop_first(), b);
    }
}

/// Whether bit `k` of a mask is set.
pub open spec fn mask_bit(m: u32, k: int) -> bool {
    (m >> (k as u32)) & 1u32 == 1u32
}

/// A bank mask bit belonging to a pin not yet folded is clear.
proof fn lemma_bank_mask_bit_free(v: Seq<Option<bool>>, bank: int, n: int, k: int)
    requires
        0 <= k < 32,
        bank * 32 + k >= n,
    ensures
        !mask_bit(bank_touch_upto(v, bank, n), k),
        !mask_bit(bank_value_upto(v, bank, true, n), k),
    decreases n,
{
    assert(forall|k: u32| k < 32 ==> ((0u32 >> k) & 1u32) != 1u32) by (bit_vector);
    if n > 0 {
        lemma_bank_mask_bit_free(v, bank, n - 1, k);
        if (n - 1) / 32 == bank {
            // the contribution of pin n - 1 lands on another bit
            assert((n - 1) % 32 != k);
            assert(forall|m: u32, k: u32, sh: u32|
                k < 32 && sh < 32 && sh != k ==> (((m | (1u32 << sh)) >> k) & 1u32) == ((m >> k)
                    & 1u32)) by (bit_vector);
        }
    }
}

/// The bank mask bits of a folded pin say exactly whether it is pending,
/// and pending which value.
proof fn lemma_bank_mask_bits(v: Seq<Option<bool>>, bank: int, n: int, pin: int)
    requires
        0 <= pin < n <= 54,
        pin / 32 == bank,
    ensures
        mask_bit(bank_touch_upto(v, bank, n), pin % 32) == (v[pin] is Some),
        mask_bit(bank_value_upto(v, bank, true, n), pin % 32) == (v[pin] == Some(true)),
    decreases n,
{
    if n - 1 == pin {
        lemma_bank_mask_bit_free(v, bank, n - 1, pin % 32);
        assert(forall|m: u32, k: u32|
            k < 32 ==> (((m | (1u32 << k)) >> k) & 1u32) == 1u32) by (bit_vector);
    } else {
        lemma_bank_mask_bits(v, bank, n - 1, pin);
        if (n - 1) / 32 == bank {
            assert((n - 1) % 32 != pin % 32);
        }
        assert(forall|m: u32, k: u32, sh: u32|
            k < 32 && sh < 32 && sh != k ==> (((m | (1u32 << sh)) >> k) & 1u32) == ((m >> k)
                & 1u32)) by (bit_vector);
    }
}

/// The word a touched bank register holds after its AND and OR: per bit,
/// the enable mask where touched, the old value elsewhere.
proof fn lemma_rmw_bit(w: u32, t: u32, e: u32, k: int)
    requires
        0 <= k < 32,
    ensures
        mask_bit(t, k) ==> mask_bit((w & !t) | e, k) == mask_bit(e, k),
        !mask_bit(t, k) && !mask_bit(e, k) ==> mask_bit((w & !t) | e, k) == mask_bit(w, k),
{
    assert(forall|w: u32, t: u32, e: u32, k: u32|
        k < 32 && ((t >> k) & 1u32) == 1u32 ==> ((((w & !t) | e) >> k) & 1u32) == ((e >> k)
            & 1u32)) by (bit_vector);
    assert(forall|w: u32, t: u32, e: u32, k: u32|
        k < 32 && ((t >> k) & 1u32) != 1u32 && ((e >> k) & 1u32) != 1u32 ==> ((((w & !t) | e) >> k)
            & 1u32) == ((w >> k) & 1u32)) by (bit_vector);
}

/// What one bank of a detect family's plan does to the block: the bank's
/// register holds the requested bit for every pending pin and the old bit
/// for every other pin, and no other word of the block changes.
proof fn lemma_detect_bank_ops_effect(
    v: Seq<Option<bool>>,
    reg0: Register,
    reg1: Register,
    bank: int,
    block: Seq<u32>,
)
    requires
        v.len() == 54,
        block.len() == 256,
        bank == 0 || bank == 1,
        0 <= register_word(if bank == 0 { reg0 } else { reg1 }) < 256,
    ensures
        apply_ops(block, detect_bank_ops(v, reg0, reg1, bank)).len() == 256,
        forall|w: int|
            0 <= w < 256 && w != register_word(if bank == 0 { reg0 } else { reg1 })
                ==> apply_ops(block, detect_bank_ops(v, reg0, reg1, bank))[w] == block[w],
        forall|pin: int|
            #![trigger v[pin]]
            0 <= pin < 54 && pin / 32 == bank ==> {
                let after = apply_ops(block, detect_bank_ops(v, reg0, reg1, bank));
                let word = register_word(if bank == 0 { reg0 } else { reg1 });
                match v[pin] {
                    Some(want) => mask_bit(after[word], pin % 32) == want,
                    None => mask_bit(after[word], pin % 32) == mask_bit(block[word], pin % 32),
                }
            },
{
    let reg = if bank == 0 { reg0 } else { reg1 };
    let word = register_word(reg);
    let t = bank_touch_mask(v, bank);
    let e = bank_value_mask(v, bank, true);
    let ops = detect_bank_ops(v, reg0, reg1, bank);
    if t == 0 {
        assert(ops =~= Seq::<RegOp>::empty());
        assert(apply_ops(block, ops) == block);
        assert forall|pin: int| 0 <= pin < 54 && pin / 32 == bank implies v[pin] is None by {
            lemma_bank_mask_bits(v, bank, 54, pin);
            assert(forall|k: u32| k < 32 ==> ((0u32 >> k) & 1u32) != 1u32) by (bit_vector);
        }
    } else {
        let anded = block.update(word, block[word] & !t);
        let after = anded.update(word, (block[word] & !t) | e);
        assert(apply_ops(block, ops) == after) by {
            let op_and = RegOp::And { reg, value: !t };
            let op_or = RegOp::Or { reg, value: e };
            assert(ops =~= seq![op_and, op_or]);
            let rest = ops.drop_first();
            assert(rest =~= seq![op_or]);
            assert(rest.drop_first() =~= Seq::<RegOp>::empty());
            let b1 = apply_op(block, op_and);
            assert(b1 == anded);
            assert(apply_ops(block, ops) == apply_ops(b1, rest));
            assert(b1[word] == block[word] & !t);
            let b2 = apply_op(b1, op_or);
            assert(b2 == after);
            assert(apply_ops(b1, rest) == apply_ops(b2, rest.drop_first()));
            assert(apply_ops(b2, rest.drop_first()) == b2);
        }
        assert forall|pin: int| #![trigger v[pin]] 0 <= pin < 54 && pin / 32 == bank implies match v[pin] {
            Some(want) => mask_bit(after[word], pin % 32) == want,
            None => mask_bit(after[word], pin % 32) == mask_bit(block[word], pin % 32),
        } by {
            lemma_bank_mask_bits(v, bank, 54, pin);
            lemma_rmw_bit(block[word], t, e, pin % 32);
        }
    }
}

/// What a detect family's full plan does to the block: each bank register
/// ends with the requested bit for every pending pin of its bank and the
/// old bit for every other pin, and every other word of the block is left
/// exactly as it was.
pub proof fn lemma_detect_ops_effect(
    v: Seq<Option<bool>>,
    reg0: Register,
    reg1: Register,
    block: Seq<u32>,
)
    requires
        v.len() == 54,
        block.len() == 256,
        register_word(reg1) == register_word(reg0) + 1,
        0 <= register_word(reg0),
        register_word(reg0) + 1 < 256,
    ensures
        apply_ops(block, detect_ops(v, reg0, reg1)).len() == 256,
        forall|w: int|
            0 <= w < 256 && w != register_word(reg0) && w != register_word(reg1) ==> apply_ops(
                block,
                detect_ops(v, reg0, reg1),
            )[w] == block[w],
        forall|pin: int|
            #![trigger v[pin]]
            0 <= pin < 54 ==> {
                let after = apply_ops(block, detect_ops(v, reg0, reg1));
                match v[pin] {
                    Some(want) => bank_bit_set(after, reg0, pin) == want,
                    None => bank_bit_set(after, reg0, pin) == bank_bit_set(block, reg0, pin),
                }
            },
{
    let mid = apply_ops(block, detect_bank_ops(v, reg0, reg1, 0));
    lemma_apply_ops_concat(block, detect_bank_ops(v, reg0, reg1, 0), detect_bank_ops(v, reg0, reg1, 1));
    lemma_detect_bank_ops_effect(v, reg0, reg1, 0, block);
    lemma_detect_bank_ops_effect(v, reg0, reg1, 1, mid);
}

/// The 3-bit field `q` of a function-select register value.
pub open spec fn field_of(m: u32, q: int) -> u32 {
    (m >> ((3 * q) as u32)) & 7u32
}

/// A function-select mask field belonging to a pin not yet folded is clear.
proof fn lemma_fsel_field_free(f: Seq<Option<PinFunction>>, reg: int, n: int, q: int)
    requires
        0 <= q < 10,
        0 <= reg,
        reg * 10 + q >= n,
    ensures
        field_of(fsel_clear_upto(f, reg, n), q) == 0,
        field_of(fsel_set_upto(f, reg, n), q) == 0,
    decreases n,
{
    let sh = (3 * q) as u32;
    assert(((0u32 >> sh) & 7u32) == 0u32) by (bit_vector);
    if n > 0 {
        lemma_fsel_field_free(f, reg, n - 1, q);
        if f[n - 1] is Some && (n - 1) / 10 == reg {
            assert((n - 1) % 10 != q) by (nonlinear_arith)
                requires
                    (n - 1) / 10 == reg,
                    reg * 10 + q >= n,
                    0 <= q < 10,
                    0 <= reg,
            ;
            let shq = (3 * ((n - 1) % 10)) as u32;
            let c = function_to_bits(f[n - 1]->0) as u32;
            let mc = fsel_clear_upto(f, reg, n - 1);
            let ms = fsel_set_upto(f, reg, n - 1);
            assert(function_to_bits(f[n - 1]->0) <= 7);
            assert((((mc | (7u32 << shq)) >> sh) & 7u32) == ((mc >> sh) & 7u32)) by (bit_vector)
                requires
                    sh <= 27,
                    shq <= 27,
                    sh % 3 == 0,
                    shq % 3 == 0,
                    sh != shq,
            ;
            assert((((ms | (c << shq)) >> sh) & 7u32) == ((ms >> sh) & 7u32)) by (bit_vector)
                requires
                    c <= 7,
                    sh <= 27,
                    shq <= 27,
                    sh % 3 == 0,
                    shq % 3 == 0,
                    sh != shq,
            ;
        }
    }
}

/// The mask fields of a folded pin say exactly whether its function is
/// pending, and pending which code.
proof fn lemma_fsel_fields(f: Seq<Option<PinFunction>>, reg: int, n: int, pin: int)
    requires
        0 <= pin < n <= 54,
        pin / 10 == reg,
    ensures
        f[pin] is Some ==> field_of(fsel_clear_upto(f, reg, n), pin % 10) == 7 && field_of(
            fsel_set_upto(f, reg, n),
            pin % 10,
        ) == function_to_bits(f[pin]->0),
        f[pin] is None ==> field_of(fsel_clear_upto(f, reg, n), pin % 10) == 0 && field_of(
            fsel_set_upto(f, reg, n),
            pin % 10,
        ) == 0,
    decreases n,
{
    let sh = (3 * (pin % 10)) as u32;
    if n - 1 == pin {
        lemma_fsel_field_free(f, reg, n - 1, pin % 10);
        if f[pin] is Some {
            let c = function_to_bits(f[pin]->0) as u32;
            let mc = fsel_clear_upto(f, reg, n - 1);
            let ms = fsel_set_upto(f, reg, n - 1);
            assert(function_to_bits(f[pin]->0) <= 7);
            assert((((mc | (7u32 << sh)) >> sh) & 7u32) == 7u32) by (bit_vector)
                requires
                    sh <= 27,
                    ((mc >> sh) & 7u32) == 0u32,
            ;
            assert((((ms | (c << sh)) >> sh) & 7u32) == c) by (bit_vector)
                requires
                    c <= 7,
                    sh <= 27,
                    ((ms >> sh) & 7u32) == 0u32,
            ;
        }
    } else {
        lemma_fsel_fields(f, reg, n - 1, pin);
        if f[n - 1] is Some && (n - 1) / 10 == reg {
            assert((n - 1) % 10 != pin % 10);
            let shq = (3 * ((n - 1) % 10)) as u32;
            let c = function_to_bits(f[n - 1]->0) as u32;
            let mc = fsel_clear_upto(f, reg, n - 1);
            let ms = fsel_set_upto(f, reg, n - 1);
            assert(function_to_bits(f[n - 1]->0) <= 7);
            assert((((mc | (7u32 << shq)) >> sh) & 7u32) == ((mc >> sh) & 7u32)) by (bit_vector)
                requires
                    sh <= 27,
                    shq <= 27,
                    sh % 3 == 0,
                    shq % 3 == 0,
                    sh != shq,
            ;
            assert((((ms | (c << shq)) >> sh) & 7u32) == ((ms >> sh) & 7u32)) by (bit_vector)
                requires
                    c <= 7,
                    sh <= 27,
                    shq <= 27,
                    sh % 3 == 0,
                    shq % 3 == 0,
                    sh != shq,
            ;
        }
    }
}

/// The word a function-select register holds after its AND and OR: per
/// field, the set value where cleared, the old field elsewhere.
proof fn lemma_rmw_field(w: u32, cm: u32, sm: u32, q: int)
    requires
        0 <= q < 10,
    ensures
        field_of(cm, q) == 7 ==> field_of((w & !cm) | sm, q) == field_of(sm, q),
        field_of(cm, q) == 0 && field_of(sm, q) == 0 ==> field_of((w & !cm) | sm, q) == field_of(
            w,
            q,
        ),
{
    let sh = (3 * q) as u32;
    assert(((cm >> sh) & 7u32) == 7u32 ==> ((((w & !cm) | sm) >> sh) & 7u32) == ((sm >> sh)
        & 7u32)) by (bit_vector)
        requires
            sh <= 27,
    ;
    assert(((cm >> sh) & 7u32) == 0u32 && ((sm >> sh) & 7u32) == 0u32 ==> ((((w & !cm) | sm) >> sh)
        & 7u32) == ((w >> sh) & 7u32)) by (bit_vector)
        requires
            sh <= 27,
    ;
}

/// What one function-select register's plan does to the block: its word
/// holds the requested code for every pin with a pending change and the
/// old field for every other pin, and no other word changes.
proof fn lemma_fsel_reg_ops_effect(f: Seq<Option<PinFunction>>, reg: int, block: Seq<u32>)
    requires
        f.len() == 54,
        block.len() == 256,
        0 <= reg < 6,
    ensures
        apply_ops(block, fsel_reg_ops(f, reg)).len() == 256,
        forall|w: int|
            0 <= w < 256 && w != reg ==> apply_ops(block, fsel_reg_ops(f, reg))[w] == block[w],
        forall|pin: int|
            #![trigger f[pin]]
            0 <= pin < 54 && pin / 10 == reg ==> {
                let after = apply_ops(block, fsel_reg_ops(f, reg));
                match f[pin] {
                    Some(function) => field_of(after[reg], pin % 10) == function_to_bits(function),
                    None => field_of(after[reg], pin % 10) == field_of(block[reg], pin % 10),
                }
            },
{
    let word = register_word(fsel_reg(reg));
    assert(word == reg);
    let cm = fsel_clear_mask(f, reg);
    let sm = fsel_set_mask(f, reg);
    let ops = fsel_reg_ops(f, reg);
    if cm == 0 {
        assert(ops =~= Seq::<RegOp>::empty());
        assert(apply_ops(block, ops) == block);
        assert forall|pin: int| #![trigger f[pin]] 0 <= pin < 54 && pin / 10 == reg implies f[pin] is None by {
            lemma_fsel_fields(f, reg, 54, pin);
            let sh = (3 * (pin % 10)) as u32;
            assert(((0u32 >> sh) & 7u32) == 0u32) by (bit_vector);
        }
    } else {
        let anded = block.update(word, block[word] & !cm);
        let after = anded.update(word, (block[word] & !cm) | sm);
        assert(apply_ops(block, ops) == after) by {
            let op_and = RegOp::And { reg: fsel_reg(reg), value: !cm };
            let op_or = RegOp::Or { reg: fsel_reg(reg), value: sm };
            assert(ops =~= seq![op_and, op_or]);
            let rest = ops.drop_first();
            assert(rest =~= seq![op_or]);
            assert(rest.drop_first() =~= Seq::<RegOp>::empty());
            let b1 = apply_op(block, op_and);
            assert(b1 == anded);
            assert(apply_ops(block, ops) == apply_ops(b1, rest));
            assert(b1[word] == block[word] & !cm);
            let b2 = apply_op(b1, op_or);
            assert(b2 == after);
            assert(apply_ops(b1, rest) == apply_ops(b2, rest.drop_first()));
            assert(apply_ops(b2, rest.drop_first()) == b2);
        }
        assert forall|pin: int| #![trigger f[pin]] 0 <= pin < 54 && pin / 10 == reg implies match f[pin] {
            Some(function) => field_of(after[reg], pin % 10) == function_to_bits(function),
            None => field_of(after[reg], pin % 10) == field_of(block[reg], pin % 10),
        } by {
            lemma_fsel_fields(f, reg, 54, pin);
            lemma_rmw_field(block[word], cm, sm, pin % 10);
        }
    }
}

/// What the function-select part of a plan does to the block, register by
/// register, over the first `n` registers.
proof fn lemma_fsel_ops_upto_effect(f: Seq<Option<PinFunction>>, n: int, block: Seq<u32>)
    requires
        f.len() == 54,
        block.len() == 256,
        0 <= n <= 6,
    ensures
        apply_ops(block, fsel_ops_upto(f, n)).len() == 256,
        forall|w: int|
            0 <= w < 256 && !(0 <= w < n) ==> apply_ops(block, fsel_ops_upto(f, n))[w] == block[w],
        forall|pin: int|
            #![trigger f[pin]]
            0 <= pin < 54 && pin / 10 < n ==> {
                let after = apply_ops(block, fsel_ops_upto(f, n));
                match f[pin] {
                    Some(function) => field_of(after[pin / 10], pin % 10) == function_to_bits(
                        function,
                    ),
                    None => field_of(after[pin / 10], pin % 10) == field_of(
                        block[pin / 10],
                        pin % 10,
                    ),
                }
            },
    decreases n,
{
    if n > 0 {
        lemma_fsel_ops_upto_effect(f, n - 1, block);
        let mid = apply_ops(block, fsel_ops_upto(f, n - 1));
        lemma_apply_ops_concat(block, fsel_ops_upto(f, n - 1), fsel_reg_ops(f, n - 1));
        lemma_fsel_reg_ops_effect(f, n - 1, mid);
    }
}

/// What the function-select part of a plan does to the block: every pin
/// with a pending function change ends with exactly its requested 3-bit
/// code, every other pin's code is untouched, and no word outside the six
/// function-select registers changes.
pub proof fn lemma_fsel_ops_effect(f: Seq<Option<PinFunction>>, block: Seq<u32>)
    requires
        f.len() == 54,
        block.len() == 256,
    ensures
        apply_ops(block, fsel_ops(f)).len() == 256,
        forall|w: int|
            0 <= w < 256 && !(0 <= w < 6) ==> apply_ops(block, fsel_ops(f))[w] == block[w],
        forall|pin: int|
            #![trigger f[pin]]
            0 <= pin < 54 ==> {
                let after = apply_ops(block, fsel_ops(f));
                match f[pin] {
                    Some(function) => function_code(after, pin) == function_to_bits(function),
                    None => function_code(after, pin) == function_code(block, pin),
                }
            },
{
    lemma_fsel_ops_upto_effect(f, 6, block);
    let after = apply_ops(block, fsel_ops(f));
    assert forall|pin: int| #![trigger f[pin]] 0 <= pin < 54 implies match f[pin] {
        Some(function) => function_code(after, pin) == function_to_bits(function),
        None => function_code(after, pin) == function_code(block, pin),
    } by {
        assert(register_word(Register::GPFSEL0) == 0);
        assert(function_code(after, pin) == field_of(after[pin / 10], pin % 10) as u8);
        assert(function_code(block, pin) == field_of(block[pin / 10], pin % 10) as u8);
        assert(forall|m: u32| (m & 7u32) <= 7) by (bit_vector);
    }
}

/// What one bank of the level plan does to the block: the bank's set and
/// clear strobe registers receive their masks when non-empty, and no
/// other word changes. What the strobes then do to the pins' levels is
/// the hardware's side of the contract, not part of the block model.
proof fn lemma_level_bank_ops_effect(lv: Seq<Option<bool>>, bank: int, block: Seq<u32>)
    requires
        lv.len() == 54,
        block.len() == 256,
        bank == 0 || bank == 1,
    ensures
        apply_ops(block, level_bank_ops(lv, bank)).len() == 256,
        forall|w: int|
            0 <= w < 256 && w != register_word(set_reg(bank)) && w != register_word(clr_reg(bank))
                ==> apply_ops(block, level_bank_ops(lv, bank))[w] == block[w],
        bank_value_mask(lv, bank, true) != 0 ==> apply_ops(block, level_bank_ops(lv, bank))[
            register_word(set_reg(bank))] == bank_value_mask(lv, bank, true),
        bank_value_mask(lv, bank, true) == 0 ==> apply_ops(block, level_bank_ops(lv, bank))[
            register_word(set_reg(bank))] == block[register_word(set_reg(bank))],
        bank_value_mask(lv, bank, false) != 0 ==> apply_ops(block, level_bank_ops(lv, bank))[
            register_word(clr_reg(bank))] == bank_value_mask(lv, bank, false),
        bank_value_mask(lv, bank, false) == 0 ==> apply_ops(block, level_bank_ops(lv, bank))[
            register_word(clr_reg(bank))] == block[register_word(clr_reg(bank))],
{
    let sm = bank_value_mask(lv, bank, true);
    let cm = bank_value_mask(lv, bank, false);
    let ws = register_word(set_reg(bank));
    let wc = register_word(clr_reg(bank));
    let a = if sm != 0 {
        seq![RegOp::Write { reg: set_reg(bank), value: sm }]
    } else {
        Seq::<RegOp>::empty()
    };
    let b = if cm != 0 {
        seq![RegOp::Write { reg: clr_reg(bank), value: cm }]
    } else {
        Seq::<RegOp>::empty()
    };
    assert(level_bank_ops(lv, bank) == a + b);
    lemma_apply_ops_concat(block, a, b);
    let mid = apply_ops(block, a);
    if sm != 0 {
        assert(mid == block.update(ws, sm)) by {
            let op = RegOp::Write { reg: set_reg(bank), value: sm };
            assert(a.drop_first() =~= Seq::<RegOp>::empty());
            assert(apply_ops(block, a) == apply_ops(apply_op(block, op), a.drop_first()));
        }
    } else {
        assert(a =~= Seq::<RegOp>::empty());
        assert(mid == block);
    }
    if cm != 0 {
        assert(apply_ops(mid, b) == mid.update(wc, cm)) by {
            let op = RegOp::Write { reg: clr_reg(bank), value: cm };
            assert(b.drop_first() =~= Seq::<RegOp>::empty());
            assert(apply_ops(mid, b) == apply_ops(apply_op(mid, op), b.drop_first()));
        }
    } else {
        assert(b =~= Seq::<RegOp>::empty());
        assert(apply_ops(mid, b) == mid);
    }
}

/// What the level part of a plan does to the block: the four strobe words
/// receive their masks when non-empty, everything else is untouched.
proof fn lemma_level_ops_effect(lv: Seq<Option<bool>>, block: Seq<u32>)
    requires
        lv.len() == 54,
        block.len() == 256,
    ensures
        apply_ops(block, level_ops(lv)).len() == 256,
        forall|w: int|
            0 <= w < 256 && w != register_word(Register::GPSET0) && w != register_word(
                Register::GPSET1,
            ) && w != register_word(Register::GPCLR0) && w != register_word(Register::GPCLR1)
                ==> apply_ops(block, level_ops(lv))[w] == block[w],
{
    lemma_apply_ops_concat(block, level_bank_ops(lv, 0), level_bank_ops(lv, 1));
    let mid = apply_ops(block, level_bank_ops(lv, 0));
    lemma_level_bank_ops_effect(lv, 0, block);
    lemma_level_bank_ops_effect(lv, 1, mid);
}

/// What applying a whole atomic config batch does to the control block:
/// every pin with a pending function change ends with exactly its
/// requested code and every pin with a pending detect change ends with
/// exactly its requested enable bit; pins outside the batch keep their
/// old codes and bits; and no word outside the function-select registers,
/// the level strobe registers and the six detect families is disturbed —
/// in particular the level, event and pull registers.
pub proof fn lemma_config_plan_effect(c: GpioConfig, block: Seq<u32>)
    requires
        block.len() == 256,
    ensures
        apply_ops(block, config_plan(c)).len() == 256,
        forall|pin: int|
            #![trigger c.function@[pin]]
            0 <= pin < 54 ==> {
                let after = apply_ops(block, config_plan(c));
                match c.function@[pin] {
                    Some(function) => function_code(after, pin) == function_to_bits(function),
                    None => function_code(after, pin) == function_code(block, pin),
                }
            },
        forall|pin: int|
            #![trigger c.detect_rise@[pin]]
            0 <= pin < 54 ==> {
                let after = apply_ops(block, config_plan(c));
                match c.detect_rise@[pin] {
                    Some(want) => bank_bit_set(after, Register::GPREN0, pin) == want,
                    None => bank_bit_set(after, Register::GPREN0, pin) == bank_bit_set(
                        block,
                        Register::GPREN0,
                        pin,
                    ),
                }
            },
        forall|pin: int|
            #![trigger c.detect_fall@[pin]]
            0 <= pin < 54 ==> {
                let after = apply_ops(block, config_plan(c));
                match c.detect_fall@[pin] {
                    Some(want) => bank_bit_set(after, Register::GPFEN0, pin) == want,
                    None => bank_bit_set(after, Register::GPFEN0, pin) == bank_bit_set(
                        block,
                        Register::GPFEN0,
                        pin,
                    ),
                }
            },
        forall|pin: int|
            #![trigger c.detect_high@[pin]]
            0 <= pin < 54 ==> {
                let after = apply_ops(block, config_plan(c));
                match c.detect_high@[pin] {
                    Some(want) => bank_bit_set(after, Register::GPHEN0, pin) == want,
                    None => bank_bit_set(after, Register::GPHEN0, pin) == bank_bit_set(
                        block,
                        Register::GPHEN0,
                        pin,
                    ),
                }
            },
        forall|pin: int|
            #![trigger c.detect_low@[pin]]
            0 <= pin < 54 ==> {
                let after = apply_ops(block, config_plan(c));
                match c.detect_low@[pin] {
                    Some(want) => bank_bit_set(after, Register::GPLEN0, pin) == want,
                    None => bank_bit_set(after, Register::GPLEN0, pin) == bank_bit_set(
                        block,
                        Register::GPLEN0,
                        pin,
                    ),
                }
            },
        forall|pin: int|
            #![trigger c.detect_async_rise@[pin]]
            0 <= pin < 54 ==> {
                let after = apply_ops(block, config_plan(c));
                match c.detect_async_rise@[pin] {
                    Some(want) => bank_bit_set(after, Register::GPAREN0, pin) == want,
                    None => bank_bit_set(after, Register::GPAREN0, pin) == bank_bit_set(
                        block,
                        Register::GPAREN0,
                        pin,
                    ),
                }
            },
        forall|pin: int|
            #![trigger c.detect_async_fall@[pin]]
            0 <= pin < 54 ==> {
                let after = apply_ops(block, config_plan(c));
                match c.detect_async_fall@[pin] {
                    Some(want) => bank_bit_set(after, Register::GPAFEN0, pin) == want,
                    None => bank_bit_set(after, Register::GPAFEN0, pin) == bank_bit_set(
                        block,
                        Register::GPAFEN0,
                        pin,
                    ),
                }
            },
        forall|pin: int|
            0 <= pin < 54 ==> bank_bit_set(apply_ops(block, config_plan(c)), Register::GPLEV0, pin)
                == bank_bit_set(block, Register::GPLEV0, pin) && bank_bit_set(
                apply_ops(block, config_plan(c)),
                Register::GPEDS0,
                pin,
            ) == bank_bit_set(block, Register::GPEDS0, pin),
        forall|w: int|
            0 <= w < 256 && !(0 <= w < 6) && w != register_word(Register::GPSET0) && w
                != register_word(Register::GPSET1) && w != register_word(Register::GPCLR0) && w
                != register_word(Register::GPCLR1) && w != register_word(Register::GPREN0) && w
                != register_word(Register::GPREN1) && w != register_word(Register::GPFEN0) && w
                != register_word(Register::GPFEN1) && w != register_word(Register::GPHEN0) && w
                != register_word(Register::GPHEN1) && w != register_word(Register::GPLEN0) && w
                != register_word(Register::GPLEN1) && w != register_word(Register::GPAREN0) && w
                != register_word(Register::GPAREN1) && w != register_word(Register::GPAFEN0) && w
                != register_word(Register::GPAFEN1) ==> apply_ops(block, config_plan(c))[w]
                == block[w],
{
    let p1 = fsel_ops(c.function@);
    let p2 = level_ops(c.level@);
    let p3 = detect_ops(c.detect_rise@, Register::GPREN0, Register::GPREN1);
    let p4 = detect_ops(c.detect_fall@, Register::GPFEN0, Register::GPFEN1);
    let p5 = detect_ops(c.detect_high@, Register::GPHEN0, Register::GPHEN1);
    let p6 = detect_ops(c.detect_low@, Register::GPLEN0, Register::GPLEN1);
    let p7 = detect_ops(c.detect_async_rise@, Register::GPAREN0, Register::GPAREN1);
    let p8 = detect_ops(c.detect_async_fall@, Register::GPAFEN0, Register::GPAFEN1);

    let b1 = apply_ops(block, p1);
    let b2 = apply_ops(b1, p2);
    let b3 = apply_ops(b2, p3);
    let b4 = apply_ops(b3, p4);
    let b5 = apply_ops(b4, p5);
    let b6 = apply_ops(b5, p6);
    let b7 = apply_ops(b6, p7);
    let b8 = apply_ops(b7, p8);

    lemma_apply_ops_concat(block, p1, p2);
    lemma_apply_ops_concat(block, p1 + p2, p3);
    lemma_apply_ops_concat(block, p1 + p2 + p3, p4);
    lemma_apply_ops_concat(block, p1 + p2 + p3 + p4, p5);
    lemma_apply_ops_concat(block, p1 + p2 + p3 + p4 + p5, p6);
    lemma_apply_ops_concat(block, p1 + p2 + p3 + p4 + p5 + p6, p7);
    lemma_apply_ops_concat(block, p1 + p2 + p3 + p4 + p5 + p6 + p7, p8);
    assert(apply_ops(block, config_plan(c)) == b8);

    lemma_fsel_ops_effect(c.function@, block);
    lemma_level_ops_effect(c.level@, b1);
    lemma_detect_ops_effect(c.detect_rise@, Register::GPREN0, Register::GPREN1, b2);
    lemma_detect_ops_effect(c.detect_fall@, Register::GPFEN0, Register::GPFEN1, b3);
    lemma_detect_ops_effect(c.detect_high@, Register::GPHEN0, Register::GPHEN1, b4);
    lemma_detect_ops_effect(c.detect_low@, Register::GPLEN0, Register::GPLEN1, b5);
    lemma_detect_ops_effect(c.detect_async_rise@, Register::GPAREN0, Register::GPAREN1, b6);
    lemma_detect_ops_effect(c.detect_async_fall@, Register::GPAFEN0, Register::GPAFEN1, b7);
}

/// What one full strobe sequence does to the control block: the pull mode
/// register and both pull clock registers end cleared, and no other word
/// is touched. The strobed pull state itself lives inside the pins, not
/// in any readable register, so it has no trace in the block model.
pub proof fn lemma_pull_sequence_steps_effect(sequence: PullSequence, block: Seq<u32>)
    requires
        block.len() == 256,
    ensures
        apply_ops(block, pull_sequence_steps(sequence)).len() == 256,
        apply_ops(block, pull_sequence_steps(sequence))[register_word(Register::GPPUD)] == 0,
        apply_ops(block, pull_sequence_steps(sequence))[register_word(Register::GPPUDCLK0)] == 0,
        apply_ops(block, pull_sequence_steps(sequence))[register_word(Register::GPPUDCLK1)] == 0,
        forall|w: int|
            0 <= w < 256 && w != register_word(Register::GPPUD) && w != register_word(
                Register::GPPUDCLK0,
            ) && w != register_word(Register::GPPUDCLK1) ==> apply_ops(
                block,
                pull_sequence_steps(sequence),
            )[w] == block[w],
{
    let t0 = pull_sequence_steps(sequence);
    let t1 = t0.drop_first();
    let t2 = t1.drop_first();
    let t3 = t2.drop_first();
    let t4 = t3.drop_first();
    let t5 = t4.drop_first();
    let t6 = t5.drop_first();
    let t7 = t6.drop_first();
    let t8 = t7.drop_first();
    let t9 = t8.drop_first();
    assert(t9.drop_first() =~= Seq::<RegOp>::empty());
    let b1 = apply_op(block, t0[0]);
    let b2 = apply_op(b1, t1[0]);
    let b3 = apply_op(b2, t2[0]);
    let b4 = apply_op(b3, t3[0]);
    let b5 = apply_op(b4, t4[0]);
    let b6 = apply_op(b5, t5[0]);
    let b7 = apply_op(b6, t6[0]);
    let b8 = apply_op(b7, t7[0]);
    let b9 = apply_op(b8, t8[0]);
    let b10 = apply_op(b9, t9[0]);
    assert(apply_ops(block, t0) == apply_ops(b1, t1));
    assert(apply_ops(b1, t1) == apply_ops(b2, t2));
    assert(apply_ops(b2, t2) == apply_ops(b3, t3));
    assert(apply_ops(b3, t3) == apply_ops(b4, t4));
    assert(apply_ops(b4, t4) == apply_ops(b5, t5));
    assert(apply_ops(b5, t5) == apply_ops(b6, t6));
    assert(apply_ops(b6, t6) == apply_ops(b7, t7));
    assert(apply_ops(b7, t7) == apply_ops(b8, t8));
    assert(apply_ops(b8, t8) == apply_ops(b9, t9));
    assert(apply_ops(b9, t9) == apply_ops(b10, t9.drop_first()));
    assert(apply_ops(block, t0) == b10);
}

/// A config batch with no pending change for any pin.
pub open spec fn config_is_empty(c: GpioConfig) -> bool {
    (forall|i: int| 0 <= i < 54 ==> c.function@[i] is None) && (forall|i: int|
        0 <= i < 54 ==> c.level@[i] is None) && (forall|i: int|
        0 <= i < 54 ==> c.detect_rise@[i] is None) && (forall|i: int|
        0 <= i < 54 ==> c.detect_fall@[i] is None) && (forall|i: int|
        0 <= i < 54 ==> c.detect_high@[i] is None) && (forall|i: int|
        0 <= i < 54 ==> c.detect_low@[i] is None) && (forall|i: int|
        0 <= i < 54 ==> c.detect_async_rise@[i] is None) && (forall|i: int|
        0 <= i < 54 ==> c.detect_async_fall@[i] is None)
}

/// A pull batch with no pending change for any pin.
pub open spec fn pull_config_is_empty(c: GpioPullConfig) -> bool {
    forall|i: int| 0 <= i < 54 ==> c.pull_mode@[i] is None
}

proof fn lemma_fsel_upto_all_none(f: Seq<Option<PinFunction>>, reg: int, n: int)
    requires
        forall|i: int| 0 <= i < n ==> f[i] is None,
    ensures
        fsel_clear_upto(f, reg, n) == 0,
        fsel_set_upto(f, reg, n) == 0,
    decreases n,
{
    if n > 0 {
        lemma_fsel_upto_all_none(f, reg, n - 1);
    }
}

proof fn lemma_fsel_ops_upto_all_none(f: Seq<Option<PinFunction>>, n: int)
    requires
        forall|i: int| 0 <= i < 54 ==> f[i] is None,
    ensures
        fsel_ops_upto(f, n).len() == 0,
    decreases n,
{
    if n > 0 {
        lemma_fsel_ops_upto_all_none(f, n - 1);
        lemma_fsel_upto_all_none(f, n - 1, 54);
    }
}

proof fn lemma_bank_upto_all_none(v: Seq<Option<bool>>, bank: int, n: int)
    requires
        forall|i: int| 0 <= i < n ==> v[i] is None,
    ensures
        bank_touch_upto(v, bank, n) == 0,
        bank_value_upto(v, bank, true, n) == 0,
        bank_value_upto(v, bank, false, n) == 0,
    decreases n,
{
    if n > 0 {
        lemma_bank_upto_all_none(v, bank, n - 1);
    }
}

proof fn lemma_pull_upto_all_none(p: Seq<Option<PullMode>>, mode: PullMode, bank: int, n: int)
    requires
        forall|i: int| 0 <= i < n ==> p[i] is None,
    ensures
        pull_mask_upto(p, mode, bank, n) == 0,
    decreases n,
{
    if n > 0 {
        lemma_pull_upto_all_none(p, mode, bank, n - 1);
    }
}

/// Applying an empty atomic config batch issues zero register operations.
pub proof fn lemma_empty_config_plan(c: GpioConfig)
    requires
        config_is_empty(c),
    ensures
        config_plan(c).len() == 0,
{
    lemma_fsel_ops_upto_all_none(c.function@, 6);
    lemma_bank_upto_all_none(c.level@, 0, 54);
    lemma_bank_upto_all_none(c.level@, 1, 54);
    lemma_bank_upto_all_none(c.detect_rise@, 0, 54);
    lemma_bank_upto_all_none(c.detect_rise@, 1, 54);
    lemma_bank_upto_all_none(c.detect_fall@, 0, 54);
    lemma_bank_upto_all_none(c.detect_fall@, 1, 54);
    lemma_bank_upto_all_none(c.detect_high@, 0, 54);
    lemma_bank_upto_all_none(c.detect_high@, 1, 54);
    lemma_bank_upto_all_none(c.detect_low@, 0, 54);
    lemma_bank_upto_all_none(c.detect_low@, 1, 54);
    lemma_bank_upto_all_none(c.detect_async_rise@, 0, 54);
    lemma_bank_upto_all_none(c.detect_async_rise@, 1, 54);
    lemma_bank_upto_all_none(c.detect_async_fall@, 0, 54);
    lemma_bank_upto_all_none(c.detect_async_fall@, 1, 54);
}

/// Applying an empty pull batch issues zero strobe sequences.
pub proof fn lemma_empty_pull_plan(c: GpioPullConfig)
    requires
        pull_config_is_empty(c),
    ensures
        pull_plan(c.pull_mode@).len() == 0,
{
    lemma_pull_upto_all_none(c.pull_mode@, PullMode::Float, 0, 54);
    lemma_pull_upto_all_none(c.pull_mode@, PullMode::Float, 1, 54);
    lemma_pull_upto_all_none(c.pull_mode@, PullMode::PullUp, 0, 54);
    lemma_pull_upto_all_none(c.pull_mode@, PullMode::PullUp, 1, 54);
    lemma_pull_upto_all_none(c.pull_mode@, PullMode::PullDown, 0, 54);
    lemma_pull_upto_all_none(c.pull_mode@, PullMode::PullDown, 1, 54);
}

proof fn lemma_fsel_upto_nonzero(f: Seq<Option<PinFunction>>, reg: int, pin: int, n: int)
    requires
        0 <= pin < n,
        f[pin] is Some,
        pin / 10 == reg,
    ensures
        fsel_clear_upto(f, reg, n) != 0,
    decreases n,
{
    if n - 1 == pin {
        assert(0 <= 3 * (pin % 10) <= 27);
        assert(forall|rest: u32, sh: u32| sh <= 27 ==> (rest | (0b111u32 << sh)) != 0)
            by (bit_vector);
    } else {
        lemma_fsel_upto_nonzero(f, reg, pin, n - 1);
        assert(forall|rest: u32, more: u32| rest != 0 ==> (rest | more) != 0) by (bit_vector);
    }
}

proof fn lemma_bank_touch_nonzero(v: Seq<Option<bool>>, bank: int, pin: int, n: int)
    requires
        0 <= pin < n,
        v[pin] is Some,
        pin / 32 == bank,
    ensures
        bank_touch_upto(v, bank, n) != 0,
    decreases n,
{
    if n - 1 == pin {
        assert(0 <= (pin % 32) <= 31);
        assert(forall|rest: u32, sh: u32| sh <= 31 ==> (rest | (1u32 << sh)) != 0) by (bit_vector);
    } else {
        lemma_bank_touch_nonzero(v, bank, pin, n - 1);
        assert(forall|rest: u32, more: u32| rest != 0 ==> (rest | more) != 0) by (bit_vector);
    }
}

/// A pin with a pending function change has its function-select register
/// touched by exactly one AND and one OR in the plan.
pub proof fn lemma_pending_function_register_touched(c: GpioConfig, pin: int)
    requires
        0 <= pin < 54,
        c.function@[pin] is Some,
    ensures
        fsel_reg_ops(c.function@, pin / 10).len() == 2,
{
    lemma_fsel_upto_nonzero(c.function@, pin / 10, pin, 54);
}

/// A pin with a pending change in a detect family has its bank's register
/// touched by exactly one AND and one OR in that family's plan.
pub proof fn lemma_pending_detect_bank_touched(
    v: Seq<Option<bool>>,
    reg0: Register,
    reg1: Register,
    pin: int,
)
    requires
        0 <= pin < 54,
        v[pin] is Some,
    ensures
        detect_bank_ops(v, reg0, reg1, pin / 32).len() == 2,
{
    lemma_bank_touch_nonzero(v, pin / 32, pin, 54);
}

/// A pull mask bit belonging to a pin not yet folded is clear.
proof fn lemma_pull_mask_bit_free(p: Seq<Option<PullMode>>, mode: PullMode, bank: int, n: int, k: int)
    requires
        0 <= k < 32,
        bank * 32 + k >= n,
    ensures
        !mask_bit(pull_mask_upto(p, mode, bank, n), k),
    decreases n,
{
    assert(forall|k: u32| k < 32 ==> ((0u32 >> k) & 1u32) != 1u32) by (bit_vector);
    if n > 0 {
        lemma_pull_mask_bit_free(p, mode, bank, n - 1, k);
        if (n - 1) / 32 == bank {
            assert((n - 1) % 32 != k);
            assert(forall|m: u32, k: u32, sh: u32|
                k < 32 && sh < 32 && sh != k ==> (((m | (1u32 << sh)) >> k) & 1u32) == ((m >> k)
                    & 1u32)) by (bit_vector);
        }
    }
}

proof fn lemma_pull_mask_bits_upto(
    p: Seq<Option<PullMode>>,
    mode: PullMode,
    bank: int,
    n: int,
    pin: int,
)
    requires
        0 <= pin < n <= 54,
        pin / 32 == bank,
    ensures
        mask_bit(pull_mask_upto(p, mode, bank, n), pin % 32) == (p[pin] == Some(mode)),
    decreases n,
{
    if n - 1 == pin {
        lemma_pull_mask_bit_free(p, mode, bank, n - 1, pin % 32);
        assert(forall|m: u32, k: u32|
            k < 32 ==> (((m | (1u32 << k)) >> k) & 1u32) == 1u32) by (bit_vector);
    } else {
        lemma_pull_mask_bits_upto(p, mode, bank, n - 1, pin);
        if (n - 1) / 32 == bank {
            assert((n - 1) % 32 != pin % 32);
        }
        assert(forall|m: u32, k: u32, sh: u32|
            k < 32 && sh < 32 && sh != k ==> (((m | (1u32 << sh)) >> k) & 1u32) == ((m >> k)
                & 1u32)) by (bit_vector);
    }
}

/// A pull mode's clock masks strobe exactly the pins pending that mode:
/// pin by pin, the bit of its bank's mask is set precisely when the batch
/// holds that mode for it.
pub proof fn lemma_pull_mask_bits(p: Seq<Option<PullMode>>, mode: PullMode, pin: int)
    requires
        0 <= pin < 54,
    ensures
        mask_bit(pull_mask(p, mode, pin / 32), pin % 32) == (p[pin] == Some(mode)),
{
    lemma_pull_mask_bits_upto(p, mode, pin / 32, 54, pin);
}

/// The strobe that changes a single pin's level: raising a pin strobes
/// its bit into the set register of its bank, lowering it strobes the
/// clear register.
pub fn set_level_op(index: usize, value: bool) -> (r: RegOp)
    requires
        index <= 53,
    ensures
        value ==> r == (RegOp::Write {
            reg: set_reg(index as int / 32),
            value: (1u32 << ((index as int % 32) as u32)),
        }),
        !value ==> r == (RegOp::Write {
            reg: clr_reg(index as int / 32),
            value: (1u32 << ((index as int % 32) as u32)),
        }),
{
    let bits = 1u32 << ((index % 32) as u32);
    if value {
        RegOp::Write { reg: Register::set(index / 32), value: bits }
    } else {
        RegOp::Write { reg: Register::clr(index / 32), value: bits }
    }
}

} // verus!
