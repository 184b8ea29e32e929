//! Register-level control of a BCM283x GPIO peripheral.
//!
//! The library decodes raw snapshots of the memory-mapped control block into
//! per-pin state, and turns batches of desired per-pin settings into exact
//! sequences of register operations for a caller to issue against the
//! hardware.

use vstd::prelude::*;

mod iomem;
mod read;
mod register;
mod write;

pub use iomem::iomem_result;
pub use iomem::read_gpio_address;

pub use read::GpioState;
pub use read::PinInfo;
pub use read::bank_bit_set;
pub use read::function_code;
pub use read::lemma_decode_is_pure;
pub use read::level_from_bank_word;
pub use read::pin_function_of;
pub use read::pin_info_of;
pub use register::Register;
pub use register::register_byte_offset;
pub use register::register_word;
pub use write::GpioConfig;
pub use write::GpioPullConfig;
pub use write::PullSequence;
pub use write::RegOp;
pub use write::apply_op;
pub use write::apply_ops;
pub use write::config_is_empty;
pub use write::config_plan;
pub use write::field_of;
pub use write::lemma_apply_ops_concat;
pub use write::lemma_config_plan_effect;
pub use write::lemma_detect_ops_effect;
pub use write::lemma_empty_config_plan;
pub use write::lemma_fsel_ops_effect;
pub use write::lemma_pull_sequence_steps_effect;
pub use write::mask_bit;
pub use write::lemma_empty_pull_plan;
pub use write::lemma_pending_detect_bank_touched;
pub use write::lemma_pending_function_register_touched;
pub use write::lemma_pull_mask_bits;
pub use write::pull_config_is_empty;
pub use write::pull_plan;
pub use write::pull_sequence_steps;
pub use write::set_level_op;

verus! {

/// The function a GPIO pin is configured for.
#[derive(Copy, Clone, Debug, Eq, PartialEq, Ord, PartialOrd, Structural)]
pub enum PinFunction {
    Input,
    Output,
    Alt0,
    Alt1,
    Alt2,
    Alt3,
    Alt4,
    Alt5,
}

/// The 3-bit hardware code of a pin function.
pub open spec fn function_to_bits(f: PinFunction) -> u8 {
    match f {
        PinFunction::Input => 0b000,
        PinFunction::Output => 0b001,
        PinFunction::Alt0 => 0b100,
        PinFunction::Alt1 => 0b101,
        PinFunction::Alt2 => 0b110,
        PinFunction::Alt3 => 0b111,
        PinFunction::Alt4 => 0b011,
        PinFunction::Alt5 => 0b010,
    }
}

/// The pin function denoted by a 3-bit hardware code, if any.
pub open spec fn function_from_bits(bits: u8) -> Option<PinFunction> {
    match bits {
        0b000 => Some(PinFunction::Input),
        0b001 => Some(PinFunction::Output),
        0b100 => Some(PinFunction::Alt0),
        0b101 => Some(PinFunction::Alt1),
        0b110 => Some(PinFunction::Alt2),
        0b111 => Some(PinFunction::Alt3),
        0b011 => Some(PinFunction::Alt4),
        0b010 => Some(PinFunction::Alt5),
        _ => None,
    }
}

impl PinFunction {
    /// Decode a 3-bit hardware function code.
    pub fn try_from_bits(bits: u8) -> (r: Result<Self, ()>)
        ensures
            r == match function_from_bits(bits) {
                Some(f) => Result::<Self, ()>::Ok(f),
                None => Result::<Self, ()>::Err(()),
            },
    {
        match bits {
            0b000 => Ok(PinFunction::Input),
            0b001 => Ok(PinFunction::Output),
            0b100 => Ok(PinFunction::Alt0),
            0b101 => Ok(PinFunction::Alt1),
            0b110 => Ok(PinFunction::Alt2),
            0b111 => Ok(PinFunction::Alt3),
            0b011 => Ok(PinFunction::Alt4),
            0b010 => Ok(PinFunction::Alt5),
            _ => Err(()),
        }
    }

    /// Encode this pin function as its 3-bit hardware code.
    pub fn to_bits(self) -> (r: u8)
        ensures
            r == function_to_bits(self),
            r < 8,
    {
        match self {
            PinFunction::Input => 0b000,
            PinFunction::Output => 0b001,
            PinFunction::Alt0 => 0b100,
            PinFunction::Alt1 => 0b101,
            PinFunction::Alt2 => 0b110,
            PinFunction::Alt3 => 0b111,
            PinFunction::Alt4 => 0b011,
            PinFunction::Alt5 => 0b010,
        }
    }
}

/// Every pin function decodes back from its own hardware code.
pub proof fn lemma_function_bits_round_trip(f: PinFunction)
    ensures
        function_from_bits(function_to_bits(f)) == Some(f),
{
}

/// Every assigned 3-bit code encodes back to itself.
pub proof fn lemma_function_bits_complete(bits: u8)
    requires
        bits < 8,
    ensures
        function_from_bits(bits) is Some,
        function_to_bits(function_from_bits(bits)->0) == bits,
{
}

/// A pull up/down mode for a GPIO pin.
#[derive(Copy, Clone, Debug, Eq, PartialEq, Ord, PartialOrd, Structural)]
pub enum PullMode {
    Float,
    PullDown,
    PullUp,
}

/// The 2-bit legacy hardware code of a pull mode.
pub open spec fn pull_to_bits(m: PullMode) -> u8 {
    match m {
        PullMode::Float => 0b00,
        PullMode::PullDown => 0b01,
        PullMode::PullUp => 0b10,
    }
}

impl PullMode {
    /// Encode this pull mode as its 2-bit legacy hardware code.
    pub fn to_bits(self) -> (r: u8)
        ensures
            r == pull_to_bits(self),
            r < 4,
    {
        match self {
            PullMode::Float => 0b00,
            PullMode::PullDown => 0b01,
            PullMode::PullUp => 0b10,
        }
    }
}

/// An error raised by the library or by the collaborators that acquire and
/// verify the peripheral on its behalf.
#[derive(Clone, Debug, Eq, PartialEq)]
pub enum Error {
    /// A precondition violation by the caller: a pin index outside `[0, 53]`
    /// or a bank or register-family index out of range.
    ProgrammingError,
    /// Mapping or opening the peripheral failed; carries the underlying OS
    /// error code when one is known.
    AcquisitionError { errno: Option<i32> },
    /// The platform's peripheral identity did not match the expected
    /// BCM283x identity string; carries the identity that was found.
    VerificationError { found: Vec<u8> },
    /// An entry of the platform's I/O memory listing could not be split
    /// into a range and a peripheral name.
    MalformedIomemEntry { line: usize },
    /// The start address of a GPIO entry in the platform's I/O memory
    /// listing was not a hexadecimal number fitting the address type.
    InvalidIomemAddress { line: usize },
    /// No GPIO peripheral was listed in the platform's I/O memory listing.
    GpioPeripheralNotFound,
}

/// The highest valid pin index.
pub open spec fn max_pin_index() -> int {
    53
}

/// The identity string a BCM283x GPIO peripheral reports: the bytes of
/// `brcm,bcm2835-gpio`.
pub open spec fn expected_identity() -> Seq<u8> {
    seq![
        0x62u8,
        0x72,
        0x63,
        0x6D,
        0x2C,
        0x62,
        0x63,
        0x6D,
        0x32,
        0x38,
        0x33,
        0x35,
        0x2D,
        0x67,
        0x70,
        0x69,
        0x6F,
    ]
}

/// A reported identity with its trailing NUL terminator removed, when one
/// is present.
pub open spec fn stripped_identity(data: Seq<u8>) -> Seq<u8> {
    if data.len() > 0 && data.last() == 0 {
        data.drop_last()
    } else {
        data
    }
}

/// The bytes of the expected identity string, as a vector.
fn expected_identity_bytes() -> (r: Vec<u8>)
    ensures
        r@ == expected_identity(),
{
    let mut v: Vec<u8> = Vec::new();
    v.push(0x62);
    v.push(0x72);
    v.push(0x63);
    v.push(0x6D);
    v.push(0x2C);
    v.push(0x62);
    v.push(0x63);
    v.push(0x6D);
    v.push(0x32);
    v.push(0x38);
    v.push(0x33);
    v.push(0x35);
    v.push(0x2D);
    v.push(0x67);
    v.push(0x70);
    v.push(0x69);
    v.push(0x6F);
    proof {
        assert(v@ =~= expected_identity());
    }
    v
}

/// Check a peripheral identity, as read from the platform's device
/// metadata, against the expected BCM283x GPIO identity string. A trailing
/// NUL terminator on the reported identity is ignored. On a mismatch the
/// error carries the identity that was found.
pub fn check_bcm283x_gpio(data: &[u8]) -> (r: Result<(), Error>)
    ensures
        r is Ok <==> stripped_identity(data@) == expected_identity(),
        r is Err ==> (match r->Err_0 {
            Error::VerificationError { found } => found@ == stripped_identity(data@),
            _ => false,
        }),
{
    let trimmed: &[u8] = if data.len() > 0 && data[data.len() - 1] == 0 {
        vstd::slice::slice_subrange(data, 0, data.len() - 1)
    } else {
        data
    };
    proof {
        assert(trimmed@ =~= stripped_identity(data@));
    }
    let expected = expected_identity_bytes();
    if trimmed.len() != expected.len() {
        return Err(Error::VerificationError { found: vstd::slice::slice_to_vec(trimmed) });
    }
    let mut i: usize = 0;
    while i < expected.len()
        invariant
            i <= expected@.len(),
            trimmed@.len() == expected@.len(),
            expected@ == expected_identity(),
            trimmed@ == stripped_identity(data@),
            forall|j: int| 0 <= j < i ==> trimmed@[j] == expected@[j],
        decreases expected@.len() - i,
    {
        if trimmed[i] != expected[i] {
            return Err(Error::VerificationError { found: vstd::slice::slice_to_vec(trimmed) });
        }
        i = i + 1;
    }
    proof {
        assert(trimmed@ =~= expected@);
    }
    Ok(())
}

/// Check that a pin index lies in the valid range `[0, 53]`.
pub fn assert_pin_index(index: usize) -> (r: Result<(), Error>)
    ensures
        r is Ok <==> index <= max_pin_index(),
        r is Err ==> r->Err_0 == Error::ProgrammingError,
{
    if index <= 53 {
        Ok(())
    } else {
        Err(Error::ProgrammingError)
    }
}

} // verus!
