use aes_gcm::aead::{Aead, KeyInit};
use aes_gcm::{Aes128Gcm, Key, Nonce};
use lora_mesh::packet::{
    LoRaPacket, LoRaPacketHeader, LoRaPacketPayload, PacketError, PacketPayloadSizeError,
    PacketSizeError, MAX_PAYLOAD_SIZE,
};

#[test]
fn test_lora_packet_header_crc_calculation() {
    let mut header =
        LoRaPacketHeader::new_from_slice([0x01, 0x02, 0x03, 0x04, 0x05, 0xFF, 0xFF]).unwrap();

    header.calculate_header_crc();

    assert_eq!(header.header_crc, 0xED9Bu16);
}

#[test]
fn test_lora_packet_header_crc_checker() {
    let mut header =
        LoRaPacketHeader::new_from_slice([0x01, 0x02, 0x03, 0x04, 0x05, 0xFF, 0xFF]).unwrap();

    header.calculate_header_crc();

    assert_eq!(header.check_header_crc(), true);
}

#[test]
fn test_lora_packet_header_into_vec_u8() {
    let header =
        LoRaPacketHeader::new_from_slice([0x01, 0x02, 0x03, 0x04, 0x05, 0xFF, 0xFF]).unwrap();

    let header_vec: Vec<u8> = header.into();

    let assert_header: Vec<u8> = vec![0x01, 0x02, 0x03, 0x04, 0x05, 0xFF, 0xFF];

    assert_eq!(header_vec, assert_header);
}

#[test]
#[should_panic]
fn test_lora_packet_header_tryfrom_fail() {
    LoRaPacketHeader::try_from(vec![0x01, 0x02, 0x03, 0x04, 0x05, 0xFF, 0xFF, 0x44, 0x33, 0x44])
        .unwrap();
}

#[test]
fn test_lora_packet_header_tryfrom() {
    let header =
        LoRaPacketHeader::try_from(vec![0x01, 0x02, 0x03, 0x04, 0x05, 0xBF, 0xFF]).unwrap();

    let assert_header =
        LoRaPacketHeader::new_from_slice([0x01, 0x02, 0x03, 0x04, 0x05, 0xBF, 0xFF]).unwrap();

    assert_eq!(header, assert_header);
}

#[test]
fn test_lora_packet_header_into_array_u8() {
    let header =
        LoRaPacketHeader::new_from_slice([0x01, 0x02, 0x03, 0x04, 0x05, 0xBF, 0xFF]).unwrap();

    let header_array: [u8; 7] = header.into();

    let assert_header: [u8; 7] = [0x01, 0x02, 0x03, 0x04, 0x05, 0xBF, 0xFF];

    assert_eq!(header_array, assert_header);
}

#[test]
#[should_panic]
fn packet_new_should_fail() {
    LoRaPacketPayload::new((0..255).collect::<Vec<u8>>()).unwrap();
}

#[test]
fn packet_new() {
    let payload = LoRaPacketPayload::new((0..6).collect::<Vec<u8>>()).unwrap();

    assert_eq!(payload.payload, vec![0, 1, 2, 3, 4, 5]);
}

#[test]
#[should_panic]
fn payload_tryfrom_vec_u8_should_fail() {
    LoRaPacketPayload::new((0..255).collect::<Vec<u8>>()).unwrap();
}

#[test]
fn payload_tryfrom_vec_u8() {
    let payload = LoRaPacketPayload::try_from((0..6).collect::<Vec<u8>>()).unwrap();

    assert_eq!(payload.payload, vec![2, 3, 4, 5]);
}

#[test]
fn payload_into_vec_u8() {
    let payload = LoRaPacketPayload::try_from((0..6).collect::<Vec<u8>>()).unwrap();

    let payload_vec: Vec<u8> = payload.into();

    assert_eq!(payload_vec, vec![0, 1, 2, 3, 4, 5]);
}

#[test]
fn header_crc_example_re_encodes() {
    let mut header =
        LoRaPacketHeader::new_from_slice([0x01, 0x02, 0x03, 0x04, 0x05, 0xFF, 0xFF]).unwrap();
    header.calculate_header_crc();
    assert_eq!(header.to_vec(), vec![0x01, 0x02, 0x03, 0x04, 0x05, 0xED, 0x9B]);
}

#[test]
fn header_crc_check_fails_after_mutation() {
    let mut header = LoRaPacketHeader::new(1, 2, 3, 4, 5, 0).unwrap();
    header.calculate_header_crc();
    assert!(header.check_header_crc());
    for position in 0..5 {
        let mut changed = header;
        match position {
            0 => changed.source_addr ^= 0x40,
            1 => changed.destination_addr ^= 0x01,
            2 => changed.message_packet_num ^= 0x80,
            3 => changed.total_number_of_packets ^= 0x10,
            _ => changed.payload_size ^= 0x02,
        }
        assert!(!changed.check_header_crc());
    }
}

#[test]
fn header_new_rejects_large_payload_size() {
    assert_eq!(
        LoRaPacketHeader::new(1, 2, 0, 1, 247, 0),
        Err(PacketPayloadSizeError::new(247))
    );
    assert!(LoRaPacketHeader::new(1, 2, 0, 1, 246, 0).is_ok());
}

#[test]
fn header_round_trip() {
    let header = LoRaPacketHeader::new(9, 8, 7, 6, 5, 0xABCD).unwrap();
    let decoded = LoRaPacketHeader::try_from(header.to_vec()).unwrap();
    assert_eq!(decoded, header);
    assert_eq!(LoRaPacketHeader::try_from(vec![1, 2, 3]), Err(PacketSizeError::new(3)));
}

#[test]
fn payload_crc_round_trip() {
    let mut payload = LoRaPacketPayload::new(vec![0x31, 0x32, 0x33, 0x34, 0x35, 0x36, 0x37, 0x38, 0x39]).unwrap();
    payload.calculate_payload_crc();
    assert_eq!(payload.payload_crc, 0x2189);
    assert!(payload.check_payload_crc());
    payload.payload[0] = 0x30;
    assert!(!payload.check_payload_crc());
}

#[test]
fn payload_new_from_slice_limits() {
    let ok = LoRaPacketPayload::new_from_slice(&[7u8; 246]).unwrap();
    assert_eq!(ok.payload.len(), 246);
    assert_eq!(ok.payload_crc, 0);
    assert_eq!(
        LoRaPacketPayload::new_from_slice(&[7u8; 247]),
        Err(PacketSizeError::new(247))
    );
    assert_eq!(LoRaPacketPayload::new(vec![0u8; 255]), Err(PacketPayloadSizeError::new(255)));
    assert_eq!(LoRaPacketPayload::new(vec![0u8; 300]), Err(PacketPayloadSizeError::new(300)));
}

#[test]
fn payload_tryfrom_rejects_bad_sizes() {
    assert_eq!(LoRaPacketPayload::try_from(vec![1]), Err(PacketSizeError::new(1)));
    assert_eq!(LoRaPacketPayload::try_from(vec![0u8; 249]), Err(PacketSizeError::new(249)));
    let full = LoRaPacketPayload::try_from(vec![0u8; 248]).unwrap();
    assert_eq!(full.payload.len(), MAX_PAYLOAD_SIZE);
}

#[test]
fn packet_round_trip_with_largest_payload() {
    let header = LoRaPacketHeader::new(1, 2, 0, 1, 246, 0x1234).unwrap();
    let payload = LoRaPacketPayload { payload_crc: 0xBEEF, payload: (0..246).map(|i| i as u8).collect() };
    let packet = LoRaPacket::new(header, payload);
    let bytes: Vec<u8> = packet.clone().into();
    assert_eq!(bytes.len(), 255);
    assert_eq!(&bytes[0..9], &[1, 2, 0, 1, 246, 0x12, 0x34, 0xBE, 0xEF]);
    let decoded = LoRaPacket::try_from(bytes).unwrap();
    assert_eq!(decoded, packet);
}

#[test]
fn packet_round_trip_with_empty_payload() {
    let header = LoRaPacketHeader::new(3, 4, 1, 2, 0, 7).unwrap();
    let packet = LoRaPacket::new(header, LoRaPacketPayload::new(vec![]).unwrap());
    let decoded = LoRaPacket::new_from_slice(&packet.to_vec()).unwrap();
    assert_eq!(decoded, packet);
}

#[test]
fn packet_decode_rejects_bad_sizes() {
    assert_eq!(LoRaPacket::try_from(vec![0u8; 256]), Err(PacketSizeError::new(256)));
    assert_eq!(LoRaPacket::try_from(vec![0u8; 8]), Err(PacketSizeError::new(8)));
    assert!(LoRaPacket::try_from(vec![0u8; 9]).is_ok());
}

#[test]
fn packet_getters() {
    let packet = LoRaPacket::try_from(vec![
        0, 1, 0, 1, 50, 0, 0, 0, 0, 0x34, 0x56, 0x78, 0x90, 0x12, 0x34,
    ])
    .unwrap();
    assert_eq!(packet.get_source_address(), 0);
    assert_eq!(packet.get_destination_address(), 1);
    assert_eq!(packet.get_message_packet_num(), 0);
    assert_eq!(packet.get_total_number_of_packets(), 1);
    assert_eq!(packet.get_payload_size(), 50);
    assert_eq!(packet.get_header_crc(), 0);
    assert_eq!(packet.get_payload_crc(), 0);
    assert_eq!(packet.get_payload(), vec![0x34, 0x56, 0x78, 0x90, 0x12, 0x34]);
    assert_eq!(packet.get_payload_ref(), &vec![0x34, 0x56, 0x78, 0x90, 0x12, 0x34]);
    assert_eq!(packet.duplicate(), packet);
}

fn sample_packet() -> LoRaPacket {
    LoRaPacket::try_from(vec![0, 1, 0, 1, 50, 0, 0, 0, 0, 0x34, 0x56, 0x78, 0x90, 0x12, 0x34])
        .unwrap()
}

#[test]
fn packet_encryption_matches_aes_gcm() {
    let mut packet = sample_packet();
    let key = [2u8; 16];
    let nonce = [3u8; 12];
    packet.encrypt(&key, &nonce).unwrap();

    let cipher = Aes128Gcm::new(Key::<Aes128Gcm>::from_slice(&key));
    let mut expected = cipher
        .encrypt(Nonce::from_slice(&nonce), &[0x34u8, 0x56, 0x78, 0x90, 0x12, 0x34][..])
        .unwrap();
    expected.extend_from_slice(&nonce);
    assert_eq!(packet.payload.payload.len(), 6 + 16 + 12);
    assert_eq!(packet.payload.payload, expected);
    assert_ne!(&packet.payload.payload[0..6], &[0x34, 0x56, 0x78, 0x90, 0x12, 0x34]);
}

#[test]
fn encrypt_then_decrypt_restores_plaintext() {
    let mut packet = sample_packet();
    let plain_packet = packet.clone();
    let key = [9u8; 16];
    packet.encrypt(&key, &[1u8; 12]).unwrap();
    packet.decrypt(&key).unwrap();
    assert_eq!(packet, plain_packet);
}

#[test]
fn encrypt_then_decrypt_largest_plaintext() {
    let header = LoRaPacketHeader::new(1, 2, 0, 1, 246, 0).unwrap();
    let payload = LoRaPacketPayload::new(vec![0x5A; 218]).unwrap();
    let mut packet = LoRaPacket::new(header, payload);
    let key = [4u8; 16];
    packet.encrypt(&key, &[6u8; 12]).unwrap();
    assert_eq!(packet.payload.payload.len(), 246);
    packet.decrypt(&key).unwrap();
    assert_eq!(packet.payload.payload, vec![0x5A; 218]);
}

#[test]
fn encrypt_rejects_oversized_plaintext_and_restores_it() {
    let header = LoRaPacketHeader::new(1, 2, 0, 1, 246, 0).unwrap();
    let payload = LoRaPacketPayload::new(vec![0x5A; 219]).unwrap();
    let mut packet = LoRaPacket::new(header, payload);
    let before = packet.clone();
    let r = packet.encrypt(&[4u8; 16], &[6u8; 12]);
    assert_eq!(r, Err(PacketError::Size(PacketSizeError::new(219))));
    assert_eq!(packet, before);
}

#[test]
fn decrypt_with_wrong_key_fails() {
    let mut packet = sample_packet();
    packet.encrypt(&[9u8; 16], &[1u8; 12]).unwrap();
    let sealed = packet.clone();
    let r = packet.decrypt(&[8u8; 16]);
    assert!(matches!(r, Err(PacketError::Decryption(_))));
    assert_eq!(packet, sealed);
}

#[test]
fn decrypt_tampered_ciphertext_fails() {
    let mut packet = sample_packet();
    packet.encrypt(&[9u8; 16], &[1u8; 12]).unwrap();
    packet.payload.payload[2] ^= 0x01;
    let tampered = packet.clone();
    assert!(matches!(packet.decrypt(&[9u8; 16]), Err(PacketError::Decryption(_))));
    assert_eq!(packet, tampered);

    let mut short = sample_packet();
    assert!(matches!(short.decrypt(&[9u8; 16]), Err(PacketError::Decryption(_))));
}

#[test]
fn packet_encryption_test() {
    let mut packet = LoRaPacket::try_from(vec![
        0, 1, 0, 1, 50, 0, 0, 0, 0, 0x34, 0x56, 0x78, 0x90, 0x12, 0x34,
    ])
    .unwrap();

    let key = [2u8; 16];
    let nonce = [3u8; 12];

    packet.encrypt(&key, &nonce).unwrap();

    let cipher = Aes128Gcm::new(Key::<Aes128Gcm>::from_slice(&key));
    let mut assert_payload = cipher
        .encrypt(Nonce::from_slice(&nonce), &[0x34u8, 0x56, 0x78, 0x90, 0x12, 0x34][..])
        .unwrap();
    assert_payload.extend_from_slice(&[0x03; 12]);

    assert_eq!(packet.payload.payload.len(), 34);
    assert_eq!(&packet.payload.payload[22..], &[0x03u8; 12]);
    assert_eq!(packet.payload.payload, assert_payload);
}
