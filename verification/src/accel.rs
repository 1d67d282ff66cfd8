//! Register field values of the accelerometer.

use vstd::prelude::*;

verus! {

/// The measurement range of the accelerometer, in g.
#[derive(Debug, Default, Clone, Copy, PartialEq, Eq, Structural)]
pub enum GRange {
    /// Plus or minus 2 g.
    #[default]
    Two,
    /// Plus or minus 4 g.
    Four,
    /// Plus or minus 8 g.
    Eight,
    /// Plus or minus 16 g.
    Sixteen,
}

/// The range selected by the two low bits of the data-format register.
pub open spec fn grange_from_bits(byte: u8) -> GRange {
    if byte & 0x03 == 0x00 {
        GRange::Two
    } else if byte & 0x03 == 0x01 {
        GRange::Four
    } else if byte & 0x03 == 0x02 {
        GRange::Eight
    } else {
        GRange::Sixteen
    }
}

impl GRange {
    /// Create a [`GRange`] from a byte value.
    pub fn from_byte(byte: u8) -> (r: GRange)
        ensures
            r == grange_from_bits(byte),
    {
        let bits: u8 = byte & 0x03;
        if bits == 0x00 {
            GRange::Two
        } else if bits == 0x01 {
            GRange::Four
        } else if bits == 0x02 {
            GRange::Eight
        } else {
            GRange::Sixteen
        }
    }
}

/// The output data rate of the accelerometer.
#[derive(Debug, Default, Clone, Copy, PartialEq, Eq, Structural)]
#[allow(missing_docs)]
pub enum DataRate {
    Hz0_10,
    Hz0_20,
    Hz0_39,
    Hz0_78,
    Hz1_56,
    Hz3_13,
    Hz6_25,
    Hz12_5,
    Hz25,
    Hz50,
    #[default]
    Hz100,
    Hz200,
    Hz400,
    Hz800,
    Hz1600,
    Hz3200,
}

/// The rate field value each [`DataRate`] stands for, as the low four
/// bits of the rate register.
pub open spec fn data_rate_bits(rate: DataRate) -> u8 {
    match rate {
        DataRate::Hz0_10 => 0x0,
        DataRate::Hz0_20 => 0x1,
        DataRate::Hz0_39 => 0x2,
        DataRate::Hz0_78 => 0x3,
        DataRate::Hz1_56 => 0x4,
        DataRate::Hz3_13 => 0x5,
        DataRate::Hz6_25 => 0x6,
        DataRate::Hz12_5 => 0x7,
        DataRate::Hz25 => 0x8,
        DataRate::Hz50 => 0x9,
        DataRate::Hz100 => 0xA,
        DataRate::Hz200 => 0xB,
        DataRate::Hz400 => 0xC,
        DataRate::Hz800 => 0xD,
        DataRate::Hz1600 => 0xE,
        DataRate::Hz3200 => 0xF,
    }
}

impl DataRate {
    /// The rate field this setting writes to the low four bits of the
    /// rate register.
    pub fn to_bits(self) -> (bits: u8)
        ensures
            bits == data_rate_bits(self),
    {
        match self {
            DataRate::Hz0_10 => 0x0,
            DataRate::Hz0_20 => 0x1,
            DataRate::Hz0_39 => 0x2,
            DataRate::Hz0_78 => 0x3,
            DataRate::Hz1_56 => 0x4,
            DataRate::Hz3_13 => 0x5,
            DataRate::Hz6_25 => 0x6,
            DataRate::Hz12_5 => 0x7,
            DataRate::Hz25 => 0x8,
            DataRate::Hz50 => 0x9,
            DataRate::Hz100 => 0xA,
            DataRate::Hz200 => 0xB,
            DataRate::Hz400 => 0xC,
            DataRate::Hz800 => 0xD,
            DataRate::Hz1600 => 0xE,
            DataRate::Hz3200 => 0xF,
        }
    }

    /// The setting encoded by the low four bits of the rate register:
    /// the inverse of [`DataRate::to_bits`] on every register byte.
    pub fn from_byte(byte: u8) -> (r: DataRate)
        ensures
            data_rate_bits(r) == byte & 0x0F,
    {
        let bits: u8 = byte & 0x0F;
        proof {
            assert(byte & 0x0F < 16) by (bit_vector);
        }
        if bits == 0x0 {
            DataRate::Hz0_10
        } else if bits == 0x1 {
            DataRate::Hz0_20
        } else if bits == 0x2 {
            DataRate::Hz0_39
        } else if bits == 0x3 {
            DataRate::Hz0_78
        } else if bits == 0x4 {
            DataRate::Hz1_56
        } else if bits == 0x5 {
            DataRate::Hz3_13
        } else if bits == 0x6 {
            DataRate::Hz6_25
        } else if bits == 0x7 {
            DataRate::Hz12_5
        } else if bits == 0x8 {
            DataRate::Hz25
        } else if bits == 0x9 {
            DataRate::Hz50
        } else if bits == 0xA {
            DataRate::Hz100
        } else if bits == 0xB {
            DataRate::Hz200
        } else if bits == 0xC {
            DataRate::Hz400
        } else if bits == 0xD {
            DataRate::Hz800
        } else if bits == 0xE {
            DataRate::Hz1600
        } else {
            DataRate::Hz3200
        }
    }
}

/// FIFO operation modes.
#[derive(Debug, Default, Clone, Copy, PartialEq, Eq, Structural)]
pub enum FifoMode {
    /// Bypass FIFO.
    #[default]
    Bypass,
    /// Collect data in FIFO mode,
    /// only collecting new data when FIFO is not full.
    Fifo,
    /// Collect data in FIFO mode,
    /// overwriting the oldest data when FIFO is full.
    Stream,
    /// Collect data in FIFO mode when triggered,
    /// only collecting new data when FIFO is not full.
    Trigger,
}

/// The mode selected by the two high bits of the FIFO-control register.
pub open spec fn fifo_mode_from_bits(byte: u8) -> FifoMode {
    if byte & 0xC0 == 0x00 {
        FifoMode::Bypass
    } else if byte & 0xC0 == 0x40 {
        FifoMode::Fifo
    } else if byte & 0xC0 == 0x80 {
        FifoMode::Stream
    } else {
        FifoMode::Trigger
    }
}

impl FifoMode {
    /// Create a [`FifoMode`] from a byte value.
    pub fn from_byte(byte: u8) -> (r: FifoMode)
        ensures
            r == fifo_mode_from_bits(byte),
    {
        let bits: u8 = byte & 0xC0;
        if bits == 0x00 {
            FifoMode::Bypass
        } else if bits == 0x40 {
            FifoMode::Fifo
        } else if bits == 0x80 {
            FifoMode::Stream
        } else {
            FifoMode::Trigger
        }
    }
}

} // verus!
