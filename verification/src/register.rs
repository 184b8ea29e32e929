//! The register map of the BCM283x GPIO control block.
//!
//! Each register is a named 32-bit word at a fixed byte offset inside the
//! 1024-byte memory-mapped window. Banked families (set, clear, level,
//! event, the six detect families and the pull clock) use two registers
//! covering 32 pins each; function select uses six registers of 10 pins.

use vstd::prelude::*;

verus! {

/// A named register of the GPIO control block.
#[derive(Copy, Clone, Debug, Eq, PartialEq, Ord, PartialOrd, Structural)]
pub enum Register {
    GPFSEL0,
    GPFSEL1,
    GPFSEL2,
    GPFSEL3,
    GPFSEL4,
    GPFSEL5,
    GPSET0,
    GPSET1,
    GPCLR0,
    GPCLR1,
    GPLEV0,
    GPLEV1,
    GPEDS0,
    GPEDS1,
    GPREN0,
    GPREN1,
    GPFEN0,
    GPFEN1,
    GPHEN0,
    GPHEN1,
    GPLEN0,
    GPLEN1,
    GPAREN0,
    GPAREN1,
    GPAFEN0,
    GPAFEN1,
    GPPUD,
    GPPUDCLK0,
    GPPUDCLK1,
}

/// The byte offset of a register inside the control block.
pub open spec fn register_byte_offset(r: Register) -> int {
    match r {
        Register::GPFSEL0 => 0x00,
        Register::GPFSEL1 => 0x04,
        Register::GPFSEL2 => 0x08,
        Register::GPFSEL3 => 0x0C,
        Register::GPFSEL4 => 0x10,
        Register::GPFSEL5 => 0x14,
        Register::GPSET0 => 0x1C,
        Register::GPSET1 => 0x20,
        Register::GPCLR0 => 0x28,
        Register::GPCLR1 => 0x2C,
        Register::GPLEV0 => 0x34,
        Register::GPLEV1 => 0x38,
        Register::GPEDS0 => 0x40,
        Register::GPEDS1 => 0x44,
        Register::GPREN0 => 0x4C,
        Register::GPREN1 => 0x50,
        Register::GPFEN0 => 0x58,
        Register::GPFEN1 => 0x5C,
        Register::GPHEN0 => 0x64,
        Register::GPHEN1 => 0x68,
        Register::GPLEN0 => 0x70,
        Register::GPLEN1 => 0x74,
        Register::GPAREN0 => 0x7C,
        Register::GPAREN1 => 0x80,
        Register::GPAFEN0 => 0x88,
        Register::GPAFEN1 => 0x8C,
        Register::GPPUD => 0x94,
        Register::GPPUDCLK0 => 0x98,
        Register::GPPUDCLK1 => 0x9C,
    }
}

/// The index of a register among the 256 32-bit words of the control block.
pub open spec fn register_word(r: Register) -> int {
    register_byte_offset(r) / 4
}

/// The function-select register covering pins `10 * index .. 10 * index + 10`.
pub open spec fn fsel_reg(index: int) -> Register {
    if index == 0 {
        Register::GPFSEL0
    } else if index == 1 {
        Register::GPFSEL1
    } else if index == 2 {
        Register::GPFSEL2
    } else if index == 3 {
        Register::GPFSEL3
    } else if index == 4 {
        Register::GPFSEL4
    } else {
        Register::GPFSEL5
    }
}

/// The level-set strobe register of a bank.
pub open spec fn set_reg(index: int) -> Register {
    if index == 0 {
        Register::GPSET0
    } else {
        Register::GPSET1
    }
}

/// The level-clear strobe register of a bank.
pub open spec fn clr_reg(index: int) -> Register {
    if index == 0 {
        Register::GPCLR0
    } else {
        Register::GPCLR1
    }
}

/// The level register of a bank.
pub open spec fn lev_reg(index: int) -> Register {
    if index == 0 {
        Register::GPLEV0
    } else {
        Register::GPLEV1
    }
}

/// The event-status register of a bank.
pub open spec fn eds_reg(index: int) -> Register {
    if index == 0 {
        Register::GPEDS0
    } else {
        Register::GPEDS1
    }
}

/// The rising-edge detect-enable register of a bank.
pub open spec fn ren_reg(index: int) -> Register {
    if index == 0 {
        Register::GPREN0
    } else {
        Register::GPREN1
    }
}

/// The falling-edge detect-enable register of a bank.
pub open spec fn fen_reg(index: int) -> Register {
    if index == 0 {
        Register::GPFEN0
    } else {
        Register::GPFEN1
    }
}

/// The high-level detect-enable register of a bank.
pub open spec fn hen_reg(index: int) -> Register {
    if index == 0 {
        Register::GPHEN0
    } else {
        Register::GPHEN1
    }
}

/// The low-level detect-enable register of a bank.
pub open spec fn len_reg(index: int) -> Register {
    if index == 0 {
        Register::GPLEN0
    } else {
        Register::GPLEN1
    }
}

/// The asynchronous rising-edge detect-enable register of a bank.
pub open spec fn aren_reg(index: int) -> Register {
    if index == 0 {
        Register::GPAREN0
    } else {
        Register::GPAREN1
    }
}

/// The asynchronous falling-edge detect-enable register of a bank.
pub open spec fn afen_reg(index: int) -> Register {
    if index == 0 {
        Register::GPAFEN0
    } else {
        Register::GPAFEN1
    }
}

/// The pull clock register of a bank.
pub open spec fn pudclk_reg(index: int) -> Register {
    if index == 0 {
        Register::GPPUDCLK0
    } else {
        Register::GPPUDCLK1
    }
}

impl Register {
    /// The byte offset of this register inside the control block.
    pub fn byte_offset(self) -> (r: usize)
        ensures
            r == register_byte_offset(self),
            r <= 0x9C,
    {
        match self {
            Register::GPFSEL0 => 0x00,
            Register::GPFSEL1 => 0x04,
            Register::GPFSEL2 => 0x08,
            Register::GPFSEL3 => 0x0C,
            Register::GPFSEL4 => 0x10,
            Register::GPFSEL5 => 0x14,
            Register::GPSET0 => 0x1C,
            Register::GPSET1 => 0x20,
            Register::GPCLR0 => 0x28,
            Register::GPCLR1 => 0x2C,
            Register::GPLEV0 => 0x34,
            Register::GPLEV1 => 0x38,
            Register::GPEDS0 => 0x40,
            Register::GPEDS1 => 0x44,
            Register::GPREN0 => 0x4C,
            Register::GPREN1 => 0x50,
            Register::GPFEN0 => 0x58,
            Register::GPFEN1 => 0x5C,
            Register::GPHEN0 => 0x64,
            Register::GPHEN1 => 0x68,
            Register::GPLEN0 => 0x70,
            Register::GPLEN1 => 0x74,
            Register::GPAREN0 => 0x7C,
            Register::GPAREN1 => 0x80,
            Register::GPAFEN0 => 0x88,
            Register::GPAFEN1 => 0x8C,
            Register::GPPUD => 0x94,
            Register::GPPUDCLK0 => 0x98,
            Register::GPPUDCLK1 => 0x9C,
        }
    }

    /// The index of this register among the 256 words of the control block.
    pub fn word_index(self) -> (r: usize)
        ensures
            r == register_word(self),
            r < 40,
    {
        self.byte_offset() / 4
    }

    /// The function-select register responsible for a group of ten pins.
    pub fn fsel(index: usize) -> (r: Self)
        requires
            index < 6,
        ensures
            r == fsel_reg(index as int),
    {
        match index {
            0 => Register::GPFSEL0,
            1 => Register::GPFSEL1,
            2 => Register::GPFSEL2,
            3 => Register::GPFSEL3,
            4 => Register::GPFSEL4,
            _ => Register::GPFSEL5,
        }
    }

    /// The level-set strobe register of a bank.
    pub fn set(index: usize) -> (r: Self)
        requires
            index < 2,
        ensures
            r == set_reg(index as int),
    {
        match index {
            0 => Register::GPSET0,
            _ => Register::GPSET1,
        }
    }

    /// The level-clear strobe register of a bank.
    pub fn clr(index: usize) -> (r: Self)
        requires
            index < 2,
        ensures
            r == clr_reg(index as int),
    {
        match index {
            0 => Register::GPCLR0,
            _ => Register::GPCLR1,
        }
    }

    /// The level register of a bank.
    pub fn lev(index: usize) -> (r: Self)
        requires
            index < 2,
        ensures
            r == lev_reg(index as int),
    {
        match index {
            0 => Register::GPLEV0,
            _ => Register::GPLEV1,
        }
    }

    /// The event-status register of a bank.
    pub fn eds(index: usize) -> (r: Self)
        requires
            index < 2,
        ensures
            r == eds_reg(index as int),
    {
        match index {
            0 => Register::GPEDS0,
            _ => Register::GPEDS1,
        }
    }

    /// The rising-edge detect-enable register of a bank.
    pub fn ren(index: usize) -> (r: Self)
        requires
            index < 2,
        ensures
            r == ren_reg(index as int),
    {
        match index {
            0 => Register::GPREN0,
            _ => Register::GPREN1,
        }
    }

    /// The falling-edge detect-enable register of a bank.
    pub fn fen(index: usize) -> (r: Self)
        requires
            index < 2,
        ensures
            r == fen_reg(index as int),
    {
        match index {
            0 => Register::GPFEN0,
            _ => Register::GPFEN1,
        }
    }

    /// The high-level detect-enable register of a bank.
    pub fn hen(index: usize) -> (r: Self)
        requires
            index < 2,
        ensures
            r == hen_reg(index as int),
    {
        match index {
            0 => Register::GPHEN0,
            _ => Register::GPHEN1,
        }
    }

    /// The low-level detect-enable register of a bank.
    pub fn len(index: usize) -> (r: Self)
        requires
            index < 2,
        ensures
            r == len_reg(index as int),
    {
        match index {
            0 => Register::GPLEN0,
            _ => Register::GPLEN1,
        }
    }

    /// The asynchronous rising-edge detect-enable register of a bank.
    pub fn aren(index: usize) -> (r: Self)
        requires
            index < 2,
        ensures
            r == aren_reg(index as int),
    {
        match index {
            0 => Register::GPAREN0,
            _ => Register::GPAREN1,
        }
    }

    /// The asynchronous falling-edge detect-enable register of a bank.
    pub fn afen(index: usize) -> (r: Self)
        requires
            index < 2,
        ensures
            r == afen_reg(index as int),
    {
        match index {
            0 => Register::GPAFEN0,
            _ => Register::GPAFEN1,
        }
    }

    /// The pull up/down mode register.
    pub fn pud() -> (r: Self)
        ensures
            r == Register::GPPUD,
    {
        Register::GPPUD
    }

    /// The pull clock register of a bank.
    pub fn pudclk(index: usize) -> (r: Self)
        requires
            index < 2,
        ensures
            r == pudclk_reg(index as int),
    {
        match index {
            0 => Register::GPPUDCLK0,
            _ => Register::GPPUDCLK1,
        }
    }
}

} // verus!
