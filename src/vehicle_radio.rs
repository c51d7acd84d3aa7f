//! Register values of the vehicle's transceiver configuration: the modem
//! and packet configuration bytes built from their fields.
use vstd::prelude::*;

verus! {

/// Signal bandwidth code.
#[derive(Debug, Clone, Copy, PartialEq, Eq, Structural)]
pub enum Bandwidth {
    K7,
    K10,
    K15,
    K20,
    K31,
    K41,
    K62,
    K125,
    K250,
    K500,
}

impl Bandwidth {
    pub open spec fn spec_value(self) -> u8 {
        match self {
            Bandwidth::K7 => 0,
            Bandwidth::K10 => 1,
            Bandwidth::K15 => 2,
            Bandwidth::K20 => 3,
            Bandwidth::K31 => 4,
            Bandwidth::K41 => 5,
            Bandwidth::K62 => 6,
            Bandwidth::K125 => 7,
            Bandwidth::K250 => 8,
            Bandwidth::K500 => 9,
        }
    }

    pub fn value(self) -> (r: u8)
        ensures
            r == self.spec_value(),
    {
        match self {
            Bandwidth::K7 => 0,
            Bandwidth::K10 => 1,
            Bandwidth::K15 => 2,
            Bandwidth::K20 => 3,
            Bandwidth::K31 => 4,
            Bandwidth::K41 => 5,
            Bandwidth::K62 => 6,
            Bandwidth::K125 => 7,
            Bandwidth::K250 => 8,
            Bandwidth::K500 => 9,
        }
    }
}

/// Error coding rate code.
#[derive(Debug, Clone, Copy, PartialEq, Eq, Structural)]
pub enum CodingRate {
    K4,
    K8,
    K12,
    K16,
    K20,
    K24,
    K28,
}

impl CodingRate {
    pub open spec fn spec_value(self) -> u8 {
        match self {
            CodingRate::K4 => 9,
            CodingRate::K8 => 8,
            CodingRate::K12 => 7,
            CodingRate::K16 => 6,
            CodingRate::K20 => 5,
            CodingRate::K24 => 4,
            CodingRate::K28 => 3,
        }
    }

    pub fn value(self) -> (r: u8)
        ensures
            r == self.spec_value(),
    {
        match self {
            CodingRate::K4 => 9,
            CodingRate::K8 => 8,
            CodingRate::K12 => 7,
            CodingRate::K16 => 6,
            CodingRate::K20 => 5,
            CodingRate::K24 => 4,
            CodingRate::K28 => 3,
        }
    }
}

/// Spreading factor code.
#[derive(Debug, Clone, Copy, PartialEq, Eq, Structural)]
pub enum SpreadingFactor {
    SF6,
    SF7,
    SF8,
    SF9,
    SF10,
    SF11,
    SF12,
}

impl SpreadingFactor {
    pub open spec fn spec_value(self) -> u8 {
        match self {
            SpreadingFactor::SF6 => 6,
            SpreadingFactor::SF7 => 7,
            SpreadingFactor::SF8 => 8,
            SpreadingFactor::SF9 => 9,
            SpreadingFactor::SF10 => 10,
            SpreadingFactor::SF11 => 11,
            SpreadingFactor::SF12 => 12,
        }
    }

    pub fn value(self) -> (r: u8)
        ensures
            r == self.spec_value(),
    {
        match self {
            SpreadingFactor::SF6 => 6,
            SpreadingFactor::SF7 => 7,
            SpreadingFactor::SF8 => 8,
            SpreadingFactor::SF9 => 9,
            SpreadingFactor::SF10 => 10,
            SpreadingFactor::SF11 => 11,
            SpreadingFactor::SF12 => 12,
        }
    }
}

/// Modem settings of the vehicle's transceiver.
#[derive(Debug, Clone, Copy, PartialEq, Eq, Structural)]
pub struct ModemConfig {
    pub bandwidth: Bandwidth,
    pub coding_rate: CodingRate,
    pub spreading_factor: SpreadingFactor,
    pub implicit_header: bool,
    pub rx_continuous: bool,
    pub crc_on: bool,
}

/// A flag's bit, or zero.
pub open spec fn flag_bit(on: bool, bit: u8) -> u8 {
    if on {
        bit
    } else {
        0
    }
}

impl ModemConfig {
    /// The modem configuration byte: bandwidth code in the high nibble,
    /// coding rate shifted left by one, spreading factor shifted right by
    /// two, and the header, continuous-receive and CRC flags in bits 7, 6
    /// and 5, all combined with bitwise or.
    pub open spec fn spec_reg_val(self) -> u8 {
        ((self.bandwidth.spec_value() * 16) as u8) | ((self.coding_rate.spec_value() * 2) as u8) | (
        self.spreading_factor.spec_value() / 4) | flag_bit(self.implicit_header, 0x80) | flag_bit(
            self.rx_continuous,
            0x40,
        ) | flag_bit(self.crc_on, 0x20)
    }

    pub fn to_reg_val(&self) -> (r: u8)
        ensures
            r == self.spec_reg_val(),
    {
        let implicit: u8 = if self.implicit_header {
            0x80
        } else {
            0
        };
        let continuous: u8 = if self.rx_continuous {
            0x40
        } else {
            0
        };
        let crc: u8 = if self.crc_on {
            0x20
        } else {
            0
        };
        (self.bandwidth.value() * 16) | (self.coding_rate.value() * 2) | (
        self.spreading_factor.value() / 4) | implicit | continuous | crc
    }
}

/// Packet settings of the vehicle's transceiver.
#[derive(Debug, Clone, Copy, PartialEq, Eq, Structural)]
pub struct PktConfig {
    pub fixed_len: bool,
    pub crc_on: bool,
    pub addr_filtering: u8,
    pub pkt_format: u8,
}

impl PktConfig {
    /// The packet configuration byte: fixed-length flag in bit 7, CRC flag
    /// in bit 6, the two address-filtering bits in bits 6 and 5, and the low
    /// five bits of the packet format.
    pub open spec fn spec_reg_val(self) -> u8 {
        flag_bit(self.fixed_len, 0x80) | flag_bit(self.crc_on, 0x40) | (((self.addr_filtering & 3)
            * 32) as u8) | (self.pkt_format & 0x1f)
    }

    pub fn to_reg_val(&self) -> (r: u8)
        ensures
            r == self.spec_reg_val(),
    {
        let fixed: u8 = if self.fixed_len {
            0x80
        } else {
            0
        };
        let crc: u8 = if self.crc_on {
            0x40
        } else {
            0
        };
        let af = self.addr_filtering;
        let filtering: u8 = af & 3;
        assert(af & 3 <= 3) by (bit_vector);
        fixed | crc | (filtering * 32) | (self.pkt_format & 0x1f)
    }
}

} // verus!
