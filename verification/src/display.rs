//! Display configuration bytes: addressing mode and pixel format.

use crate::color::Rgb565;
use crate::color::Rgb666;
use crate::color::Rgb888;
use vstd::prelude::*;

verus! {

/// The color order of the display.
#[derive(Debug, Default, Clone, Copy, PartialEq, Eq, Structural)]
pub enum ColorOrder {
    /// Red-Green-Blue color order.
    #[default]
    RGB,
    /// Blue-Green-Red color order.
    BGR,
}

/// The addressing mode of the display.
#[derive(Debug, Default, Clone, Copy, PartialEq, Eq, Structural)]
pub struct AddressMode {
    /// The color order of the display.
    pub color_order: ColorOrder,
    /// Whether the display refreshes forward (false) or backward (true).
    pub refresh_direction: bool,
}

/// The address-mode register byte each configuration selects: bit 3 set
/// for a forward refresh, bit 2 set for BGR color order.
pub open spec fn address_mode_byte(mode: AddressMode) -> u8 {
    match (mode.color_order, mode.refresh_direction) {
        (ColorOrder::RGB, false) => 0x08,
        (ColorOrder::RGB, true) => 0x00,
        (ColorOrder::BGR, false) => 0x0C,
        (ColorOrder::BGR, true) => 0x04,
    }
}

impl AddressMode {
    /// Get the byte-representation of the [`AddressMode`].
    pub fn to_byte(self) -> (byte: u8)
        ensures
            byte == address_mode_byte(self),
    {
        let mut byte: u8 = 0;
        match self.color_order {
            ColorOrder::RGB => {
                byte = byte & 0xFB;
            },
            ColorOrder::BGR => {
                byte = byte | 0x04;
            },
        }
        if self.refresh_direction {
            byte = byte & 0xF7;
        } else {
            byte = byte | 0x08;
        }
        proof {
            assert(0u8 & 0xFB == 0x00 && 0u8 | 0x04 == 0x04 && 0u8 & 0xF7 == 0x00 && 0x04u8 & 0xF7
                == 0x04 && 0u8 | 0x08 == 0x08 && 0x04u8 | 0x08 == 0x0C) by (bit_vector);
        }
        byte
    }
}

/// A trait for color formats the display driver supports; each selects a
/// pixel-format register byte.
pub trait ColorFormat {
    /// The format byte this color mode selects.
    spec fn spec_format_byte() -> u8;

    /// The format byte for the color format.
    fn format_byte() -> (byte: u8)
        ensures
            byte == Self::spec_format_byte(),
    ;
}

impl ColorFormat for Rgb565 {
    /// 16 bits per pixel.
    open spec fn spec_format_byte() -> u8 {
        0x50
    }

    fn format_byte() -> (byte: u8) {
        0x50
    }
}

impl ColorFormat for Rgb666 {
    /// 18 bits per pixel.
    open spec fn spec_format_byte() -> u8 {
        0x60
    }

    fn format_byte() -> (byte: u8) {
        0x60
    }
}

impl ColorFormat for Rgb888 {
    /// 24 bits per pixel.
    open spec fn spec_format_byte() -> u8 {
        0x70
    }

    fn format_byte() -> (byte: u8) {
        0x70
    }
}

} // verus!
