//! Decoding a raw snapshot of the control block into per-pin state.
//!
//! A snapshot is one volatile read of all 256 words of the control block.
//! Every decoded attribute is a pure function of those words: a banked
//! boolean attribute of pin `p` is bit `p % 32` of word `base + p / 32`,
//! and the function of pin `p` is the 3-bit field `p % 10` of word
//! `base + p / 10`.

use vstd::prelude::*;

use crate::PinFunction;
use crate::function_from_bits;
use crate::register::Register;
use crate::register::register_word;

verus! {

/// The decoded state of a single pin.
#[derive(Clone, Debug, Eq, PartialEq, Structural)]
pub struct PinInfo {
    pub function: PinFunction,
    pub level: bool,
    pub event: bool,
    pub detect_rise: bool,
    pub detect_fall: bool,
    pub detect_high: bool,
    pub detect_low: bool,
    pub detect_async_rise: bool,
    pub detect_async_fall: bool,
}

/// One raw snapshot of the 256-word control block.
#[derive(Clone)]
pub struct GpioState {
    data: [u32; 256],
}

/// The reference bit extraction for a banked boolean attribute: bit
/// `pin % 32` of word `register_word(bank0) + pin / 32`.
pub open spec fn bank_bit_set(data: Seq<u32>, bank0: Register, pin: int) -> bool {
    (data[register_word(bank0) + pin / 32] >> ((pin % 32) as u32)) & 1u32 == 1u32
}

/// The reference field extraction for a pin's 3-bit function code: bits
/// `3 * (pin % 10)` and up of word `pin / 10`.
pub open spec fn function_code(data: Seq<u32>, pin: int) -> u8 {
    (((data[register_word(Register::GPFSEL0) + pin / 10] >> ((3 * (pin % 10)) as u32)) & 7u32) as u8)
}

/// The decoded function of a pin. Every 3-bit pattern is an assigned
/// function code, so the decode is total.
pub open spec fn pin_function_of(data: Seq<u32>, pin: int) -> PinFunction {
    function_from_bits(function_code(data, pin))->0
}

/// The full decoded state of a pin, as a function of the snapshot alone.
pub open spec fn pin_info_of(data: Seq<u32>, pin: int) -> PinInfo {
    PinInfo {
        function: pin_function_of(data, pin),
        level: bank_bit_set(data, Register::GPLEV0, pin),
        event: bank_bit_set(data, Register::GPEDS0, pin),
        detect_rise: bank_bit_set(data, Register::GPREN0, pin),
        detect_fall: bank_bit_set(data, Register::GPFEN0, pin),
        detect_high: bank_bit_set(data, Register::GPHEN0, pin),
        detect_low: bank_bit_set(data, Register::GPLEN0, pin),
        detect_async_rise: bank_bit_set(data, Register::GPAREN0, pin),
        detect_async_fall: bank_bit_set(data, Register::GPAFEN0, pin),
    }
}

impl View for GpioState {
    type V = Seq<u32>;

    closed spec fn view(&self) -> Seq<u32> {
        self.data@
    }
}

impl GpioState {
    /// Wrap one raw read of the control block.
    pub fn from_data(data: [u32; 256]) -> (r: Self)
        ensures
            r@ == data@,
    {
        Self { data }
    }

    /// The raw words of the snapshot.
    pub fn data(&self) -> (r: &[u32; 256])
        ensures
            r@ == self@,
    {
        &self.data
    }

    /// The raw words of the snapshot, by value.
    pub fn into_data(self) -> (r: [u32; 256])
        ensures
            r@ == self@,
    {
        self.data
    }

    /// The function a pin was configured for when the snapshot was taken.
    pub fn pin_function(&self, index: usize) -> (r: PinFunction)
        requires
            index <= 53,
        ensures
            r == pin_function_of(self@, index as int),
    {
        let bits = self.read_pin_bits(index, Register::GPFSEL0, 10, 3);
        proof {
            assert(forall|v: u32| (v & 7u32) < 8) by (bit_vector);
        }
        PinFunction::try_from_bits(bits as u8).unwrap()
    }

    /// The level of a pin in the snapshot.
    pub fn pin_level(&self, index: usize) -> (r: bool)
        requires
            index <= 53,
        ensures
            r == bank_bit_set(self@, Register::GPLEV0, index as int),
    {
        self.read_pin_bits(index, Register::GPLEV0, 32, 1) != 0
    }

    /// Whether a detected event is latched for a pin in the snapshot.
    pub fn pin_event(&self, index: usize) -> (r: bool)
        requires
            index <= 53,
        ensures
            r == bank_bit_set(self@, Register::GPEDS0, index as int),
    {
        self.read_pin_bits(index, Register::GPEDS0, 32, 1) != 0
    }

    /// Whether rising-edge detection is enabled for a pin in the snapshot.
    pub fn pin_detect_rise(&self, index: usize) -> (r: bool)
        requires
            index <= 53,
        ensures
            r == bank_bit_set(self@, Register::GPREN0, index as int),
    {
        self.read_pin_bits(index, Register::GPREN0, 32, 1) != 0
    }

    /// Whether falling-edge detection is enabled for a pin in the snapshot.
    pub fn pin_detect_fall(&self, index: usize) -> (r: bool)
        requires
            index <= 53,
        ensures
            r == bank_bit_set(self@, Register::GPFEN0, index as int),
    {
        self.read_pin_bits(index, Register::GPFEN0, 32, 1) != 0
    }

    /// Whether high-level detection is enabled for a pin in the snapshot.
    pub fn pin_detect_high(&self, index: usize) -> (r: bool)
        requires
            index <= 53,
        ensures
            r == bank_bit_set(self@, Register::GPHEN0, index as int),
    {
        self.read_pin_bits(index, Register::GPHEN0, 32, 1) != 0
    }

    /// Whether low-level detection is enabled for a pin in the snapshot.
    pub fn pin_detect_low(&self, index: usize) -> (r: bool)
        requires
            index <= 53,
        ensures
            r == bank_bit_set(self@, Register::GPLEN0, index as int),
    {
        self.read_pin_bits(index, Register::GPLEN0, 32, 1) != 0
    }

    /// Whether asynchronous rising-edge detection is enabled for a pin.
    pub fn pin_detect_async_rise(&self, index: usize) -> (r: bool)
        requires
            index <= 53,
        ensures
            r == bank_bit_set(self@, Register::GPAREN0, index as int),
    {
        self.read_pin_bits(index, Register::GPAREN0, 32, 1) != 0
    }

    /// Whether asynchronous falling-edge detection is enabled for a pin.
    pub fn pin_detect_async_fall(&self, index: usize) -> (r: bool)
        requires
            index <= 53,
        ensures
            r == bank_bit_set(self@, Register::GPAFEN0, index as int),
    {
        self.read_pin_bits(index, Register::GPAFEN0, 32, 1) != 0
    }

    /// The full decoded state of one pin.
    pub fn pin(&self, index: usize) -> (r: PinInfo)
        requires
            index <= 53,
        ensures
            r == pin_info_of(self@, index as int),
    {
        PinInfo {
            function: self.pin_function(index),
            level: self.pin_level(index),
            event: self.pin_event(index),
            detect_rise: self.pin_detect_rise(index),
            detect_fall: self.pin_detect_fall(index),
            detect_high: self.pin_detect_high(index),
            detect_low: self.pin_detect_low(index),
            detect_async_rise: self.pin_detect_async_rise(index),
            detect_async_fall: self.pin_detect_async_fall(index),
        }
    }

    /// The decoded state of every pin, in pin order. The snapshot is
    /// immutable, so repeating this yields the same sequence.
    pub fn pins(&self) -> (r: Vec<PinInfo>)
        ensures
            r@.len() == 54,
            forall|i: int| 0 <= i < 54 ==> r@[i] == pin_info_of(self@, i),
    {
        let mut pins: Vec<PinInfo> = Vec::new();
        for i in 0..54usize
            invariant
                pins@.len() == i,
                forall|j: int| 0 <= j < i ==> pins@[j] == pin_info_of(self@, j),
        {
            pins.push(self.pin(i));
        }
        pins
    }

    /// Extract the field of one pin from the snapshot word that holds it:
    /// `bits_per_pin` bits starting at bit `bits_per_pin * (index % pins_per_register)`
    /// of word `base + index / pins_per_register`.
    fn read_pin_bits(&self, index: usize, base: Register, pins_per_register: u8, bits_per_pin: u8) -> (r:
        u32)
        requires
            index <= 53,
            pins_per_register == 32 && bits_per_pin == 1 || pins_per_register == 10
                && bits_per_pin == 3,
        ensures
            bits_per_pin == 1 ==> r == (self@[register_word(base) + index as int / 32] >> ((
            index as int % 32) as u32)) & 1u32 && r <= 1,
            bits_per_pin == 3 ==> r == (self@[register_word(base) + index as int / 10] >> ((3 * (
            index as int % 10)) as u32)) & 7u32 && r <= 7,
    {
        let pins_per_register = pins_per_register as usize;
        let bits_per_pin = bits_per_pin as usize;

        let base_word = base.word_index();
        let register_index = base_word + index / pins_per_register;
        let field = index % pins_per_register;
        let shift: usize = if bits_per_pin == 1 {
            field
        } else {
            3 * field
        };

        let value = self.data[register_index] >> (shift as u32);
        let mask = !(u32::MAX << (bits_per_pin as u32));
        proof {
            if bits_per_pin == 1 {
                assert(!(u32::MAX << 1u32) == 1u32) by (bit_vector);
                assert(forall|v: u32| #[trigger] (v & 1u32) <= 1) by (bit_vector);
            } else {
                assert(!(u32::MAX << 3u32) == 7u32) by (bit_vector);
                assert(forall|v: u32| #[trigger] (v & 7u32) <= 7) by (bit_vector);
            }
        }
        value & mask
    }
}

/// The level of a pin as read from its own bank's level register alone:
/// bit `index % 32` of that register's value.
pub fn level_from_bank_word(word: u32, index: usize) -> (r: bool)
    requires
        index <= 53,
    ensures
        r == ((word >> ((index as int % 32) as u32)) & 1u32 == 1u32),
{
    (word >> ((index % 32) as u32)) & 1 == 1
}

/// Decoding is a pure function of the snapshot: equal snapshots decode to
/// equal per-pin state, however often they are read.
pub proof fn lemma_decode_is_pure(a: Seq<u32>, b: Seq<u32>, pin: int)
    requires
        a == b,
    ensures
        pin_info_of(a, pin) == pin_info_of(b, pin),
{
}

} // verus!
