use lora_mesh::vehicle_radio::{
    Bandwidth as VehicleBandwidth, CodingRate, ModemConfig, PktConfig, SpreadingFactor,
};
use lora_mesh::radio::{
    interrupt_response, needs_low_datarate_optimization,
    bandwidth_from_register, decode_interrupt_flags, dio0_mapping, frequency_register,
    is_transmittable, merge_register, opmode_register, preamble_register, Bandwidth, HeaderMode,
    Modulation, OperationMode, SpreadFactor, DIO0_RX_DONE, DIO0_TX_DONE,
};

#[test]
fn register_values() {
    assert_eq!(opmode_register(OperationMode::RxContinuous), 0x85);
    assert_eq!(opmode_register(OperationMode::Sleep), 0x80);
    assert_eq!(SpreadFactor::Sf9.register_value(), 0x90);
    assert_eq!(SpreadFactor::Sf6.detection_settings(), (0xc5, 0x0c));
    assert_eq!(SpreadFactor::Sf7.detection_settings(), (0xc3, 0x0a));
    assert_eq!(Modulation::Ook.register_value(), 0x20);
    assert_eq!(HeaderMode::Explicit.register_value(), 1);
    assert_eq!(Bandwidth::Bw250000.register_value(), 0x80);
    assert_eq!(Bandwidth::Bw41700.hertz(), 41700);
}

#[test]
fn register_arithmetic() {
    assert_eq!(merge_register(0b1010_1010, 0b0100_0000, 0b0011_1111), 0b0110_1010);
    assert_eq!(bandwidth_from_register(0x72), Some(125000));
    assert_eq!(bandwidth_from_register(0xA0), None);
    assert_eq!(frequency_register(437200012), [0x6d, 0x4c, 0xcc]);
    assert_eq!(preamble_register(0x0108), [0x01, 0x08]);
    assert_eq!(dio0_mapping(OperationMode::RxSingle), Some(DIO0_RX_DONE));
    assert_eq!(dio0_mapping(OperationMode::Tx), Some(DIO0_TX_DONE));
    assert_eq!(dio0_mapping(OperationMode::Standby), None);
}

#[test]
fn interrupt_flags() {
    let events = decode_interrupt_flags(0b0100_1000);
    assert!(events.rx_done);
    assert!(events.tx_done);
    assert!(!events.payload_crc_error);
    assert!(!events.cad_done);
    assert!(is_transmittable(255));
    assert!(!is_transmittable(0));
    assert!(!is_transmittable(256));
}

#[test]
fn vehicle_radio_configuration_bytes() {
    let config = ModemConfig {
        bandwidth: VehicleBandwidth::K125,
        coding_rate: CodingRate::K20,
        spreading_factor: SpreadingFactor::SF12,
        implicit_header: false,
        rx_continuous: false,
        crc_on: false,
    };
    assert_eq!(config.to_reg_val(), 0x70 | 0x0A | 0x03);
    let flagged = ModemConfig { implicit_header: true, crc_on: true, ..config };
    assert_eq!(flagged.to_reg_val(), 0x70 | 0x0A | 0x03 | 0x80 | 0x20);
    let packet = PktConfig { fixed_len: true, crc_on: false, addr_filtering: 0b110, pkt_format: 0xFF };
    assert_eq!(packet.to_reg_val(), 0x80 | 0x40 | 0x1F);
    assert_eq!(VehicleBandwidth::K500.value(), 9);
    assert_eq!(CodingRate::K4.value(), 9);
    assert_eq!(SpreadingFactor::SF7.value(), 7);
}

#[test]
fn low_datarate_decision() {
    assert!(!needs_low_datarate_optimization(125000, 7));
    assert!(needs_low_datarate_optimization(125000, 12));
    assert!(needs_low_datarate_optimization(7800, 15));
}

#[test]
fn interrupt_response_rules() {
    let r = interrupt_response(0b0100_0000, true);
    assert!(r.read_payload);
    assert!(r.waiting_for_tx);
    let r = interrupt_response(0b0110_0000, true);
    assert!(!r.read_payload);
    let r = interrupt_response(0b0000_1000, true);
    assert!(!r.read_payload);
    assert!(!r.waiting_for_tx);
}
