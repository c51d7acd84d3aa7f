//! Register values of the SX127x radio transceiver in LoRa mode, and the
//! decisions taken on what it reports. The register transfers themselves
//! are made by the caller.
use vstd::prelude::*;

verus! {

pub const REG_FIFO: u8 = 0x00;
pub const REG_OP_MODE: u8 = 0x01;
pub const REG_FRF_MSB: u8 = 0x06;
pub const REG_LNA: u8 = 0x0c;
pub const REG_FIFO_ADDR_PTR: u8 = 0x0d;
pub const REG_FIFO_TX_BASE_ADDR: u8 = 0x0e;
pub const REG_FIFO_RX_CURRENT_ADDR: u8 = 0x10;
pub const REG_IRQ_FLAGS: u8 = 0x12;
pub const REG_RX_NB_BYTES: u8 = 0x13;
pub const REG_PKT_SNR_VALUE: u8 = 0x19;
pub const REG_PKT_RSSI_VALUE: u8 = 0x1a;
pub const REG_MODEM_CONFIG_1: u8 = 0x1d;
pub const REG_MODEM_CONFIG_2: u8 = 0x1e;
pub const REG_PREAMBLE_MSB: u8 = 0x20;
pub const REG_PAYLOAD_LENGTH: u8 = 0x22;
pub const REG_MODEM_CONFIG_3: u8 = 0x26;
pub const REG_FREQ_ERROR_MSB: u8 = 0x28;
pub const REG_FREQ_ERROR_LSB: u8 = 0x2a;
pub const REG_DETECTION_OPTIMIZE: u8 = 0x31;
pub const REG_DETECTION_THRESHOLD: u8 = 0x37;
pub const REG_SYNC_WORD: u8 = 0x39;
pub const REG_DIO_MAPPING_1: u8 = 0x40;
pub const REG_VERSION: u8 = 0x42;

/// Silicon version that the driver supports.
pub const SX127X_VERSION: u8 = 0x12;

/// DIO0 mappings, in the top two bits of `REG_DIO_MAPPING_1`.
pub const DIO0_RX_DONE: u8 = 0b00000000;
pub const DIO0_TX_DONE: u8 = 0b01000000;
pub const DIO0_CAD_DONE: u8 = 0b10000000;

/// Mask that keeps the bits of `REG_DIO_MAPPING_1` other than DIO0's.
pub const DIO0_KEEP_MASK: u8 = 0b00111111;

/// Interrupt flags of `REG_IRQ_FLAGS`.
pub const IRQ_FLAG_RX_TIMEOUT: u8 = 0b10000000;
pub const IRQ_FLAG_RX_DONE: u8 = 0b01000000;
pub const IRQ_FLAG_PAYLOAD_CRC_ERROR: u8 = 0b00100000;
pub const IRQ_FLAG_VALID_HEADER: u8 = 0b00010000;
pub const IRQ_FLAG_TX_DONE: u8 = 0b00001000;
pub const IRQ_FLAG_CAD_DONE: u8 = 0b00000100;

/// Base addresses of the transmit and receive areas of the FIFO.
pub const FIFO_TX_BASE_ADDR: u8 = 0;
pub const FIFO_RX_BASE_ADDR: u8 = 0;

/// Crystal frequency, in Hz.
pub const OSCILLATOR_FREQUENCY: u64 = 32000000;

/// Largest carrier frequency whose register value is computed without overflow.
pub const MAX_FREQUENCY: u64 = 35184372088831;

/// Operating mode of the radio, in the low three bits of `REG_OP_MODE`.
#[derive(Debug, Clone, Copy, PartialEq, Eq, Structural)]
pub enum OperationMode {
    Sleep,
    Standby,
    FrequencySynthesisTx,
    Tx,
    FrequencySynthesisRx,
    RxContinuous,
    RxSingle,
    ChannelActivityDetection,
}

impl OperationMode {
    pub open spec fn spec_value(self) -> u8 {
        match self {
            OperationMode::Sleep => 0,
            OperationMode::Standby => 1,
            OperationMode::FrequencySynthesisTx => 2,
            OperationMode::Tx => 3,
            OperationMode::FrequencySynthesisRx => 4,
            OperationMode::RxContinuous => 5,
            OperationMode::RxSingle => 6,
            OperationMode::ChannelActivityDetection => 7,
        }
    }

    /// The mode's bits in `REG_OP_MODE`.
    pub fn register_value(self) -> (r: u8)
        ensures
            r == self.spec_value(),
    {
        match self {
            OperationMode::Sleep => 0,
            OperationMode::Standby => 1,
            OperationMode::FrequencySynthesisTx => 2,
            OperationMode::Tx => 3,
            OperationMode::FrequencySynthesisRx => 4,
            OperationMode::RxContinuous => 5,
            OperationMode::RxSingle => 6,
            OperationMode::ChannelActivityDetection => 7,
        }
    }
}

/// Spreading factor, in the high nibble of `REG_MODEM_CONFIG_2`.
#[derive(Debug, Clone, Copy, PartialEq, Eq, Structural)]
pub enum SpreadFactor {
    Sf6,
    Sf7,
    Sf8,
    Sf9,
    Sf10,
    Sf11,
    Sf12,
}

impl SpreadFactor {
    pub open spec fn spec_value(self) -> u8 {
        match self {
            SpreadFactor::Sf6 => 0x60,
            SpreadFactor::Sf7 => 0x70,
            SpreadFactor::Sf8 => 0x80,
            SpreadFactor::Sf9 => 0x90,
            SpreadFactor::Sf10 => 0xa0,
            SpreadFactor::Sf11 => 0xb0,
            SpreadFactor::Sf12 => 0xc0,
        }
    }

    /// The factor's bits in `REG_MODEM_CONFIG_2`.
    pub fn register_value(self) -> (r: u8)
        ensures
            r == self.spec_value(),
    {
        match self {
            SpreadFactor::Sf6 => 0x60,
            SpreadFactor::Sf7 => 0x70,
            SpreadFactor::Sf8 => 0x80,
            SpreadFactor::Sf9 => 0x90,
            SpreadFactor::Sf10 => 0xa0,
            SpreadFactor::Sf11 => 0xb0,
            SpreadFactor::Sf12 => 0xc0,
        }
    }

    /// Detection optimisation and threshold register values for this
    /// factor: spreading factor 6 needs its own.
    pub fn detection_settings(self) -> (r: (u8, u8))
        ensures
            self == SpreadFactor::Sf6 ==> r == (0xc5u8, 0x0cu8),
            self != SpreadFactor::Sf6 ==> r == (0xc3u8, 0x0au8),
    {
        match self {
            SpreadFactor::Sf6 => (0xc5, 0x0c),
            _ => (0xc3, 0x0a),
        }
    }
}

/// Modulation scheme, in the top bits of `REG_OP_MODE`.
#[derive(Debug, Clone, Copy, PartialEq, Eq, Structural)]
pub enum Modulation {
    LoRa,
    Fsk,
    Ook,
}

impl Modulation {
    pub open spec fn spec_value(self) -> u8 {
        match self {
            Modulation::LoRa => 0x80,
            Modulation::Fsk => 0x00,
            Modulation::Ook => 0x20,
        }
    }

    pub fn register_value(self) -> (r: u8)
        ensures
            r == self.spec_value(),
    {
        match self {
            Modulation::LoRa => 0x80,
            Modulation::Fsk => 0x00,
            Modulation::Ook => 0x20,
        }
    }
}

/// Whether packets carry an explicit header, bit 0 of `REG_MODEM_CONFIG_1`.
#[derive(Debug, Clone, Copy, PartialEq, Eq, Structural)]
pub enum HeaderMode {
    Implicit,
    Explicit,
}

impl HeaderMode {
    pub open spec fn spec_value(self) -> u8 {
        match self {
            HeaderMode::Implicit => 0,
            HeaderMode::Explicit => 1,
        }
    }

    pub fn register_value(self) -> (r: u8)
        ensures
            r == self.spec_value(),
    {
        match self {
            HeaderMode::Implicit => 0,
            HeaderMode::Explicit => 1,
        }
    }
}

/// Signal bandwidth, in the high nibble of `REG_MODEM_CONFIG_1`.
#[derive(Debug, Clone, Copy, PartialEq, Eq, Structural)]
pub enum Bandwidth {
    Bw7800,
    Bw10400,
    Bw15600,
    Bw20800,
    Bw31250,
    Bw41700,
    Bw62500,
    Bw125000,
    Bw250000,
    Bw500000,
}

/// Bandwidth in Hz of a high-nibble code of `REG_MODEM_CONFIG_1`.
pub open spec fn bandwidth_of_code(code: u8) -> Option<u32> {
    if code == 0 {
        Some(7800u32)
    } else if code == 1 {
        Some(10400u32)
    } else if code == 2 {
        Some(15600u32)
    } else if code == 3 {
        Some(20800u32)
    } else if code == 4 {
        Some(31250u32)
    } else if code == 5 {
        Some(41700u32)
    } else if code == 6 {
        Some(62500u32)
    } else if code == 7 {
        Some(125000u32)
    } else if code == 8 {
        Some(250000u32)
    } else if code == 9 {
        Some(500000u32)
    } else {
        None
    }
}

impl Bandwidth {
    pub open spec fn spec_code(self) -> u8 {
        match self {
            Bandwidth::Bw7800 => 0,
            Bandwidth::Bw10400 => 1,
            Bandwidth::Bw15600 => 2,
            Bandwidth::Bw20800 => 3,
            Bandwidth::Bw31250 => 4,
            Bandwidth::Bw41700 => 5,
            Bandwidth::Bw62500 => 6,
            Bandwidth::Bw125000 => 7,
            Bandwidth::Bw250000 => 8,
            Bandwidth::Bw500000 => 9,
        }
    }

    /// The bandwidth's bits in `REG_MODEM_CONFIG_1` (code in the high nibble).
    pub fn register_value(self) -> (r: u8)
        ensures
            r == self.spec_code() * 16,
    {
        match self {
            Bandwidth::Bw7800 => 0x00,
            Bandwidth::Bw10400 => 0x10,
            Bandwidth::Bw15600 => 0x20,
            Bandwidth::Bw20800 => 0x30,
            Bandwidth::Bw31250 => 0x40,
            Bandwidth::Bw41700 => 0x50,
            Bandwidth::Bw62500 => 0x60,
            Bandwidth::Bw125000 => 0x70,
            Bandwidth::Bw250000 => 0x80,
            Bandwidth::Bw500000 => 0x90,
        }
    }

    /// The bandwidth in Hz.
    pub fn hertz(self) -> (r: u32)
        ensures
            bandwidth_of_code(self.spec_code()) == Some(r),
    {
        match self {
            Bandwidth::Bw7800 => 7800,
            Bandwidth::Bw10400 => 10400,
            Bandwidth::Bw15600 => 15600,
            Bandwidth::Bw20800 => 20800,
            Bandwidth::Bw31250 => 31250,
            Bandwidth::Bw41700 => 41700,
            Bandwidth::Bw62500 => 62500,
            Bandwidth::Bw125000 => 125000,
            Bandwidth::Bw250000 => 250000,
            Bandwidth::Bw500000 => 500000,
        }
    }
}

/// Bandwidth in Hz that a `REG_MODEM_CONFIG_1` value selects, or `None`
/// for a reserved code.
pub fn bandwidth_from_register(reg: u8) -> (r: Option<u32>)
    ensures
        r == bandwidth_of_code(reg / 16),
{
    let code = reg / 16;
    if code == 0 {
        Some(7800)
    } else if code == 1 {
        Some(10400)
    } else if code == 2 {
        Some(15600)
    } else if code == 3 {
        Some(20800)
    } else if code == 4 {
        Some(31250)
    } else if code == 5 {
        Some(41700)
    } else if code == 6 {
        Some(62500)
    } else if code == 7 {
        Some(125000)
    } else if code == 8 {
        Some(250000)
    } else if code == 9 {
        Some(500000)
    } else {
        None
    }
}

/// A register value with the bits outside `mask` replaced by `value`:
/// `(prev & mask) | value`.
pub fn merge_register(prev: u8, value: u8, mask: u8) -> (r: u8)
    ensures
        r == (prev & mask) | value,
{
    (prev & mask) | value
}

/// Value written to `REG_OP_MODE` to enter `mode` with LoRa modulation.
pub fn opmode_register(mode: OperationMode) -> (r: u8)
    ensures
        r == Modulation::LoRa.spec_value() + mode.spec_value(),
{
    Modulation::LoRa.register_value() + mode.register_value()
}

/// The DIO0 mapping that signals completion in `mode`: receive done in the
/// receive modes, transmit done in transmit mode, channel activity detection
/// done in that mode; no change in the other modes.
pub fn dio0_mapping(mode: OperationMode) -> (r: Option<u8>)
    ensures
        (mode == OperationMode::RxContinuous || mode == OperationMode::RxSingle) ==> r == Some(
            DIO0_RX_DONE,
        ),
        mode == OperationMode::Tx ==> r == Some(DIO0_TX_DONE),
        mode == OperationMode::ChannelActivityDetection ==> r == Some(DIO0_CAD_DONE),
        !(mode == OperationMode::RxContinuous || mode == OperationMode::RxSingle || mode
            == OperationMode::Tx || mode == OperationMode::ChannelActivityDetection) ==> r is None,
{
    match mode {
        OperationMode::RxContinuous | OperationMode::RxSingle => Some(DIO0_RX_DONE),
        OperationMode::Tx => Some(DIO0_TX_DONE),
        OperationMode::ChannelActivityDetection => Some(DIO0_CAD_DONE),
        _ => None,
    }
}

/// The 24-bit carrier frequency register value `freq * 2^19 / 32 MHz`.
pub open spec fn frequency_steps(freq: u64) -> int {
    (freq as int * 524288) / (OSCILLATOR_FREQUENCY as int)
}

/// The three bytes written from `REG_FRF_MSB` on to tune to `freq` Hz,
/// most significant first.
pub fn frequency_register(freq: u64) -> (r: [u8; 3])
    requires
        freq <= MAX_FREQUENCY,
    ensures
        r@ == seq![
            ((frequency_steps(freq) / 65536) % 256) as u8,
            ((frequency_steps(freq) / 256) % 256) as u8,
            (frequency_steps(freq) % 256) as u8,
        ],
{
    let adjusted: u64 = (freq * 524288) / OSCILLATOR_FREQUENCY;
    let r = [((adjusted / 65536) % 256) as u8, ((adjusted / 256) % 256) as u8, (adjusted % 256) as u8];
    assert(r@ =~= seq![
        ((frequency_steps(freq) / 65536) % 256) as u8,
        ((frequency_steps(freq) / 256) % 256) as u8,
        (frequency_steps(freq) % 256) as u8,
    ]);
    r
}

/// The two bytes written from `REG_PREAMBLE_MSB` on, most significant first.
pub fn preamble_register(length: u16) -> (r: [u8; 2])
    ensures
        r@ == seq![(length / 256) as u8, (length % 256) as u8],
{
    let r = [(length / 256) as u8, (length % 256) as u8];
    assert(r@ =~= seq![(length / 256) as u8, (length % 256) as u8]);
    r
}

/// What the radio's interrupt flags report.
#[derive(Debug, Clone, Copy, PartialEq, Eq, Structural)]
pub struct InterruptEvents {
    pub rx_done: bool,
    pub tx_done: bool,
    pub payload_crc_error: bool,
    pub cad_done: bool,
}

/// Decodes the value of `REG_IRQ_FLAGS`.
pub fn decode_interrupt_flags(flags: u8) -> (r: InterruptEvents)
    ensures
        r.rx_done == (flags & IRQ_FLAG_RX_DONE != 0),
        r.tx_done == (flags & IRQ_FLAG_TX_DONE != 0),
        r.payload_crc_error == (flags & IRQ_FLAG_PAYLOAD_CRC_ERROR != 0),
        r.cad_done == (flags & IRQ_FLAG_CAD_DONE != 0),
{
    InterruptEvents {
        rx_done: flags & IRQ_FLAG_RX_DONE != 0,
        tx_done: flags & IRQ_FLAG_TX_DONE != 0,
        payload_crc_error: flags & IRQ_FLAG_PAYLOAD_CRC_ERROR != 0,
        cad_done: flags & IRQ_FLAG_CAD_DONE != 0,
    }
}

/// Whether a frame can be staged for transmission: the radio's FIFO takes
/// one to `MAX_PACKET_SIZE` bytes.
pub fn is_transmittable(len: usize) -> (r: bool)
    ensures
        r == (1 <= len <= crate::packet::MAX_PACKET_SIZE),
{
    1 <= len && len <= crate::packet::MAX_PACKET_SIZE
}

} // verus!

verus! {

/// Whether a symbol lasts longer than 16 ms at `bandwidth_hz` with
/// `2^spreading_factor` chips per symbol, when the radio's low data rate
/// optimisation must be on. A bandwidth below one symbol per second counts
/// as too slow.
pub open spec fn low_datarate_required(bandwidth_hz: u32, spreading_factor: u8) -> bool {
    let symbols_per_second = bandwidth_hz as int / vstd::arithmetic::power2::pow2(
        spreading_factor as nat,
    ) as int;
    symbols_per_second == 0 || 1000int / symbols_per_second > 16
}

/// Decides whether to force the low data rate optimisation.
pub fn needs_low_datarate_optimization(bandwidth_hz: u32, spreading_factor: u8) -> (r: bool)
    requires
        spreading_factor <= 15,
    ensures
        r == low_datarate_required(bandwidth_hz, spreading_factor),
{
    let mut chips: u32 = 1;
    let mut k: u8 = 0;
    proof {
        vstd::arithmetic::power2::lemma2_to64();
    }
    while k < spreading_factor
        invariant
            0 <= k <= spreading_factor <= 15,
            chips as nat == vstd::arithmetic::power2::pow2(k as nat),
            chips <= 32768,
        decreases spreading_factor - k,
    {
        proof {
            vstd::arithmetic::power2::lemma_pow2_adds(k as nat, 1);
            vstd::arithmetic::power2::lemma2_to64();
            vstd::arithmetic::power2::lemma_pow2_strictly_increases(k as nat, 15);
        }
        chips = chips * 2;
        k = k + 1;
    }
    let symbols_per_second = bandwidth_hz / chips;
    symbols_per_second == 0 || 1000u32 / symbols_per_second > 16
}

} // verus!

verus! {

/// What the interrupt handler does with the flags it read.
#[derive(Debug, Clone, Copy, PartialEq, Eq, Structural)]
pub struct InterruptResponse {
    /// Read the received bytes: reception completed without a payload CRC error.
    pub read_payload: bool,
    /// Whether the radio is still busy transmitting afterwards.
    pub waiting_for_tx: bool,
}

/// The interrupt handler's decision: read the payload when reception is
/// done without a CRC error, and clear the transmit-busy flag when
/// transmission is done.
pub fn interrupt_response(flags: u8, waiting_for_tx: bool) -> (r: InterruptResponse)
    ensures
        r.read_payload == (flags & IRQ_FLAG_RX_DONE != 0 && flags & IRQ_FLAG_PAYLOAD_CRC_ERROR
            == 0),
        r.waiting_for_tx == (waiting_for_tx && flags & IRQ_FLAG_TX_DONE == 0),
{
    let events = decode_interrupt_flags(flags);
    InterruptResponse {
        read_payload: events.rx_done && !events.payload_crc_error,
        waiting_for_tx: waiting_for_tx && !events.tx_done,
    }
}

} // verus!
