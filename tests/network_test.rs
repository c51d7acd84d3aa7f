use lora_mesh::arp_table::ArpTable;
use lora_mesh::blacklist::BlackList;
use lora_mesh::device::{DeviceSelf, DeviceStatus, VehicleType};
use lora_mesh::nonce_cache::{InitializationVector, InitializationVectorContainer};
use lora_mesh::packet::{LoRaPacket, LoRaPacketHeader, LoRaPacketPayload, PacketError};
use lora_mesh::queue::{DispatchOutcome, Queue, ReceiveQueue, TransmitQueue, TxAction, MAX_QUEUE_DEPTH};
use lora_mesh::radio::OperationMode;
use lora_mesh::registry::{split_into_chunks, ArpRegistry, AssemblyPolicy};

fn packet_from(source: u8, index: u8, count: u8, bytes: Vec<u8>) -> LoRaPacket {
    let header = LoRaPacketHeader::new(source, 1, index, count, bytes.len() as u8, 0).unwrap();
    LoRaPacket::new(header, LoRaPacketPayload::new(bytes).unwrap())
}

#[test]
fn nonce_cache_rejects_reuse_until_expiry() {
    let mut cache = InitializationVectorContainer::new();
    let nonce = vec![5u8; 12];
    cache.insert(InitializationVector::new(nonce.clone(), 1000, 10_000));
    cache.purge_expired(10_500);
    assert!(cache.contains(&nonce));
    cache.purge_expired(10_999);
    assert!(cache.contains(&nonce));
    cache.purge_expired(11_000);
    assert!(!cache.contains(&nonce));
}

#[test]
fn pick_unused_nonce_records_it() {
    let mut cache = InitializationVectorContainer::new();
    let first = cache.pick_unused_nonce(0, 30_000).unwrap();
    assert_eq!(first.len(), 12);
    assert!(cache.contains(&first));
    let second = cache.pick_unused_nonce(1, 30_000).unwrap();
    assert_ne!(first, second);
    assert_eq!(cache.initialization_vectors.len(), 2);
    cache.purge_expired(40_000);
    assert_eq!(cache.initialization_vectors.len(), 0);
}

#[test]
fn iv_expiry_times() {
    let iv = InitializationVector::new(vec![1u8; 12], 100, 50);
    assert_eq!(iv.duration_since_creation(120), 70);
    assert_eq!(iv.duration_since_creation(10), 0);
    assert!(!iv.is_expired(149));
    assert!(iv.is_expired(150));
}

#[test]
fn split_example_600_by_240() {
    let message: Vec<u8> = (0..600).map(|i| (i % 251) as u8).collect();
    let chunks = split_into_chunks(&message, 240);
    assert_eq!(chunks.len(), 3);
    assert_eq!(chunks[0].len(), 240);
    assert_eq!(chunks[1].len(), 240);
    assert_eq!(chunks[2].len(), 120);
    assert_eq!(chunks.concat(), message);
    assert_eq!(split_into_chunks(&[], 240).len(), 0);
    assert_eq!(split_into_chunks(&[1u8; 480], 240).len(), 2);
}

fn registry_with_message(message: Vec<u8>, key: Option<[u8; 16]>) -> ArpRegistry {
    let mut registry = ArpRegistry::new(Some(7), DeviceStatus::Online);
    registry.secret_key = key;
    registry.tx_message = message;
    registry
}

#[test]
fn disassemble_plain_message() {
    let mut registry = registry_with_message((0..600).map(|i| i as u8).collect(), None);
    let me = DeviceSelf { device_type: VehicleType::BaseStation, address: Some(3) };
    registry.disassemble_message_into_packets(&me).unwrap();
    let tx = &registry.packet_tx_vec;
    assert_eq!(tx.len(), 3);
    for (i, p) in tx.iter().enumerate() {
        assert_eq!(p.header.source_addr, 3);
        assert_eq!(p.header.destination_addr, 7);
        assert_eq!(p.header.message_packet_num, i as u8);
        assert_eq!(p.header.total_number_of_packets, 3);
    }
    assert_eq!(tx[0].payload.payload.len(), 246);
    assert_eq!(tx[2].payload.payload.len(), 108);
    assert_eq!(tx[2].header.payload_size, 108);
}

#[test]
fn disassemble_encrypted_message_leaves_room_for_tag_and_nonce() {
    let mut registry = registry_with_message(vec![1u8; 600], Some([1u8; 16]));
    let me = DeviceSelf { device_type: VehicleType::Quadcopter, address: None };
    registry.disassemble_message_into_packets(&me).unwrap();
    let tx = &registry.packet_tx_vec;
    assert_eq!(tx.len(), 3);
    assert_eq!(tx[0].payload.payload.len(), 218);
    assert_eq!(tx[0].header.payload_size, 246);
    assert_eq!(tx[2].payload.payload.len(), 164);
    assert_eq!(tx[2].header.payload_size, 192);
    assert_eq!(tx[0].header.source_addr, 0);
}

#[test]
fn disassemble_skips_without_peer_address_and_fails_for_huge_message() {
    let me = DeviceSelf { device_type: VehicleType::Rover, address: Some(1) };
    let mut registry = ArpRegistry::new(None, DeviceStatus::Unknown);
    registry.tx_message = vec![1, 2, 3];
    assert_eq!(registry.disassemble_message_into_packets(&me), Ok(()));
    assert!(registry.packet_tx_vec.is_empty());

    let mut big = registry_with_message(vec![0u8; 246 * 255 + 1], None);
    assert_eq!(big.disassemble_message_into_packets(&me), Err(()));
    let mut fits = registry_with_message(vec![0u8; 246 * 255], None);
    assert_eq!(fits.disassemble_message_into_packets(&me), Ok(()));
    assert_eq!(fits.packet_tx_vec.len(), 255);
}

#[test]
fn send_and_receive_encrypted_message() {
    let key = [0x11u8; 16];
    let message: Vec<u8> = (0..500).map(|i| (i * 7) as u8).collect();
    let mut sender = registry_with_message(message.clone(), Some(key));
    let me = DeviceSelf { device_type: VehicleType::BaseStation, address: Some(3) };
    sender.disassemble_message_into_packets(&me).unwrap();
    sender.finalise_tx_packets(1_000).unwrap();
    assert_eq!(sender.used_ivs.initialization_vectors.len(), 3);
    for p in sender.packet_tx_vec.iter() {
        assert!(p.check_header_crc());
        assert!(p.check_payload_crc());
    }

    let mut receiver = ArpRegistry::new(Some(3), DeviceStatus::Online);
    receiver.secret_key = Some(key);
    // deliver in reverse order, through the wire format
    for p in sender.packet_tx_vec.iter().rev() {
        let wire: Vec<u8> = p.clone().into();
        assert!(wire.len() <= 255);
        receiver.packet_rx_vec.push(LoRaPacket::try_from(wire).unwrap());
    }
    receiver.finalise_rx_packets();
    assert!(receiver.faulty_packets.is_empty());
    assert!(receiver.is_message_complete());
    receiver.assemble_message_from_packets();
    assert_eq!(receiver.rx_message, message);
}

#[test]
fn finalise_tx_without_key_only_adds_crcs() {
    let mut registry = registry_with_message(vec![9u8; 10], None);
    let me = DeviceSelf { device_type: VehicleType::FixedWing, address: Some(2) };
    registry.disassemble_message_into_packets(&me).unwrap();
    registry.finalise_tx_packets(0).unwrap();
    let p = &registry.packet_tx_vec[0];
    assert_eq!(p.payload.payload, vec![9u8; 10]);
    assert!(p.check_header_crc());
    assert!(p.check_payload_crc());
    assert!(registry.used_ivs.initialization_vectors.is_empty());
}

#[test]
fn finalise_tx_rejects_oversized_packet_with_key() {
    let mut registry = ArpRegistry::new(Some(4), DeviceStatus::Online);
    registry.secret_key = Some([3u8; 16]);
    registry.packet_tx_vec.push(packet_from(1, 0, 1, vec![0u8; 230]));
    let before = registry.packet_tx_vec.clone();
    assert!(matches!(registry.finalise_tx_packets(0), Err(PacketError::Size(_))));
    assert_eq!(registry.packet_tx_vec, before);
}

#[test]
fn finalise_rx_faults_corrupted_and_unauthentic_packets() {
    let key = [0x22u8; 16];
    let mut sender = registry_with_message(vec![5u8; 300], Some(key));
    let me = DeviceSelf { device_type: VehicleType::BaseStation, address: Some(3) };
    sender.disassemble_message_into_packets(&me).unwrap();
    sender.finalise_tx_packets(0).unwrap();

    let mut receiver = ArpRegistry::new(Some(3), DeviceStatus::Online);
    receiver.secret_key = Some(key);
    let mut corrupted = sender.packet_tx_vec[0].clone();
    corrupted.payload.payload[0] ^= 0xFF;
    receiver.packet_rx_vec.push(corrupted);
    let mut forged = sender.packet_tx_vec[1].clone();
    forged.payload.payload[0] ^= 0xFF;
    forged.payload.calculate_payload_crc();
    receiver.packet_rx_vec.push(forged);
    receiver.finalise_rx_packets();
    assert_eq!(receiver.faulty_packets, vec![0, 1]);
    assert!(!receiver.is_message_complete());
    receiver.assemble_message_from_packets();
    assert!(receiver.rx_message.is_empty());
}

#[test]
fn assemble_orders_by_fragment_index_and_skips_faults() {
    let mut registry = ArpRegistry::new(Some(1), DeviceStatus::Online);
    registry.packet_rx_vec.push(packet_from(1, 2, 3, vec![30, 31]));
    registry.packet_rx_vec.push(packet_from(1, 0, 3, vec![10]));
    registry.packet_rx_vec.push(packet_from(1, 1, 3, vec![20, 21, 22]));
    registry.assemble_message_from_packets();
    assert_eq!(registry.rx_message, vec![10, 20, 21, 22, 30, 31]);
    assert!(registry.is_message_complete());

    registry.faulty_packets = vec![1];
    registry.assemble_message_from_packets();
    assert_eq!(registry.rx_message, vec![10, 30, 31]);
    assert!(!registry.is_message_complete());
}

#[test]
fn decrypt_packets_records_faults() {
    let key = [1u8; 16];
    let mut registry = ArpRegistry::new(Some(1), DeviceStatus::Online);
    registry.secret_key = Some(key);
    let mut good = packet_from(1, 0, 2, vec![1, 2, 3]);
    good.encrypt(&key, &[4u8; 12]).unwrap();
    let bad = packet_from(1, 1, 2, vec![0u8; 40]);
    let mut packets = vec![good, bad];
    registry.decrypt_packets(&mut packets);
    assert_eq!(packets[0].payload.payload, vec![1, 2, 3]);
    assert_eq!(registry.faulty_packets, vec![1]);

    let mut single = packet_from(1, 0, 1, vec![0u8; 40]);
    assert!(registry.decrypt_packet(&mut single).is_err());
}

#[test]
fn encrypt_packets_with_and_without_key() {
    let mut plain = ArpRegistry::new(Some(1), DeviceStatus::Online);
    let mut packets = vec![packet_from(1, 0, 1, vec![1, 2])];
    plain.encrypt_packets(&mut packets, 0).unwrap();
    assert_eq!(packets[0].payload.payload, vec![1, 2]);

    let key = [8u8; 16];
    let mut secure = ArpRegistry::new(Some(1), DeviceStatus::Online);
    secure.secret_key = Some(key);
    secure.encrypt_packets(&mut packets, 0).unwrap();
    assert_eq!(packets[0].payload.payload.len(), 2 + 16 + 12);
    let mut single = packet_from(1, 0, 1, vec![6, 6]);
    secure.encrypt_packet(&mut single, 5).unwrap();
    assert_eq!(secure.used_ivs.initialization_vectors.len(), 2);
    single.decrypt(&key).unwrap();
    assert_eq!(single.payload.payload, vec![6, 6]);
}

#[test]
fn registry_new_defaults() {
    let registry = ArpRegistry::new(Some(9), DeviceStatus::RequestingAddress);
    assert_eq!(registry.get_address(), Some(9));
    assert_eq!(registry.get_secret_key(), None);
    assert_eq!(registry.device_status, DeviceStatus::RequestingAddress);
    assert_eq!(registry.iv_expiration_duration, Some(30_000));
}

#[test]
fn arp_table_operations() {
    let mut table = ArpTable::new();
    assert!(!table.is_known(5));
    assert!(table.get_registry(5).is_none());
    table.insert_registry(5, ArpRegistry::new(Some(5), DeviceStatus::Online));
    assert!(table.is_known(5));
    table.get_registry_mut(5).unwrap().device_status = DeviceStatus::Unauthorized;
    assert_eq!(table.get_registry(5).unwrap().device_status, DeviceStatus::Unauthorized);
    table.get_or_insert(6);
    assert_eq!(table.get_registry(6).unwrap().device_status, DeviceStatus::Unknown);
    table.get_or_insert(5);
    assert_eq!(table.get_registry(5).unwrap().device_status, DeviceStatus::Unauthorized);
    table.remove_registry(5);
    assert!(!table.is_known(5));
    assert!(table.get_registry_mut(5).is_none());
}

#[test]
fn arp_table_from_registries() {
    let table = ArpTable::new_from_registries(vec![
        ArpRegistry::new(Some(1), DeviceStatus::Online),
        ArpRegistry::new(None, DeviceStatus::Online),
        ArpRegistry::new(Some(1), DeviceStatus::Unauthorized),
        ArpRegistry::new(Some(200), DeviceStatus::Unknown),
    ]);
    assert_eq!(table.get_registry(1).unwrap().device_status, DeviceStatus::Unauthorized);
    assert!(table.is_known(200));
    assert!(!table.is_known(0));
}

#[test]
fn blacklist_operations() {
    let mut blacklist = BlackList::new();
    assert!(!blacklist.is_blacklisted(4));
    blacklist.add_to_blacklist(4);
    blacklist.add_to_blacklist(255);
    assert!(blacklist.is_blacklisted(4));
    assert!(blacklist.is_blacklisted(255));
    blacklist.remove_from_blacklist(4);
    assert!(!blacklist.is_blacklisted(4));
    blacklist.remove_from_blacklist(4);
    assert!(!blacklist.is_blacklisted(4));
}

#[test]
fn blacklisted_packet_never_reaches_table() {
    let mut table = ArpTable::new();
    let mut blacklist = BlackList::new();
    blacklist.add_to_blacklist(66);
    let mut queue = ReceiveQueue::new();
    queue.push(packet_from(66, 0, 1, vec![1]));
    queue.push(packet_from(12, 0, 2, vec![2]));
    queue.push(packet_from(12, 1, 2, vec![3]));
    assert_eq!(queue.dispatch_next(&mut table, &blacklist), DispatchOutcome::Blacklisted);
    assert!(!table.is_known(66));
    assert_eq!(
        queue.dispatch_next(&mut table, &blacklist),
        DispatchOutcome::Stored { source: 12, last_fragment: false }
    );
    let registry = table.get_registry(12).unwrap();
    assert_eq!(registry.device_status, DeviceStatus::Unknown);
    assert_eq!(registry.packet_rx_vec.len(), 1);
    assert_eq!(
        queue.dispatch_next(&mut table, &blacklist),
        DispatchOutcome::Stored { source: 12, last_fragment: true }
    );
    assert_eq!(table.get_registry(12).unwrap().packet_rx_vec.len(), 2);
    assert_eq!(queue.dispatch_next(&mut table, &blacklist), DispatchOutcome::Empty);
    assert!(!table.is_known(66));
}

#[test]
fn queues_are_fifo() {
    let mut queue = TransmitQueue::new();
    assert!(queue.is_empty());
    assert_eq!(queue.get_top_item(), None);
    queue.push(packet_from(1, 0, 1, vec![1]));
    queue.push(packet_from(2, 0, 1, vec![2]));
    assert_eq!(queue.len(), 2);
    assert_eq!(queue.get_top_item().unwrap().header.source_addr, 1);
    assert_eq!(queue.len(), 2);
    assert_eq!(queue.pop().unwrap().header.source_addr, 1);
    let frame = queue.take_next_frame().unwrap();
    assert_eq!(frame, vec![2, 1, 0, 1, 1, 0, 0, 0, 0, 2]);
    assert!(queue.pop().is_none());
    assert!(queue.take_next_frame().is_none());

    let mut rx = ReceiveQueue::new();
    rx.push(packet_from(3, 0, 1, vec![]));
    assert_eq!(rx.len(), 1);
    assert_eq!(rx.get_top_item().unwrap().header.source_addr, 3);
    assert_eq!(rx.pop().unwrap().header.source_addr, 3);
    assert!(rx.is_empty());
}

#[test]
fn transmit_loop_decisions() {
    let mut queue = TransmitQueue::new();
    assert_eq!(queue.next_action(false, None), TxAction::Fatal);
    assert_eq!(queue.next_action(false, Some(OperationMode::Standby)), TxAction::EnterReceive);
    assert_eq!(queue.next_action(false, Some(OperationMode::RxContinuous)), TxAction::Idle);
    assert_eq!(queue.next_action(true, Some(OperationMode::Tx)), TxAction::Idle);
    queue.push(packet_from(1, 0, 1, vec![1]));
    assert_eq!(queue.next_action(true, Some(OperationMode::Tx)), TxAction::WaitForRadio);
    assert_eq!(queue.next_action(false, Some(OperationMode::RxContinuous)), TxAction::Transmit);
}

#[test]
fn assembly_policy_controls_partial_messages() {
    let mut registry = ArpRegistry::new(Some(1), DeviceStatus::Online);
    registry.packet_rx_vec.push(packet_from(1, 0, 3, vec![1, 2]));
    registry.packet_rx_vec.push(packet_from(1, 2, 3, vec![5]));
    assert!(!registry.assemble_with_policy(AssemblyPolicy::RequireComplete));
    assert!(registry.rx_message.is_empty());
    assert!(registry.assemble_with_policy(AssemblyPolicy::BestEffort));
    assert_eq!(registry.rx_message, vec![1, 2, 5]);
    registry.packet_rx_vec.push(packet_from(1, 1, 3, vec![3, 4]));
    assert!(registry.assemble_with_policy(AssemblyPolicy::RequireComplete));
    assert_eq!(registry.rx_message, vec![1, 2, 3, 4, 5]);
}

#[test]
fn finalised_fragments_use_distinct_nonces() {
    let mut registry = registry_with_message(vec![3u8; 1000], Some([5u8; 16]));
    let me = DeviceSelf { device_type: VehicleType::BaseStation, address: Some(3) };
    registry.disassemble_message_into_packets(&me).unwrap();
    registry.finalise_tx_packets(0).unwrap();
    let nonces: Vec<Vec<u8>> = registry
        .packet_tx_vec
        .iter()
        .map(|p| p.payload.payload[p.payload.payload.len() - 12..].to_vec())
        .collect();
    assert_eq!(nonces.len(), 5);
    for i in 0..nonces.len() {
        assert!(registry.used_ivs.contains(&nonces[i]));
        for j in 0..i {
            assert_ne!(nonces[i], nonces[j]);
        }
    }
}

#[test]
fn try_reserve_rejects_live_nonce_and_accepts_expired_one() {
    let mut cache = InitializationVectorContainer::new();
    let nonce = vec![9u8; 12];
    assert!(cache.try_reserve(&nonce, 100, 50));
    assert!(!cache.try_reserve(&nonce, 149, 50));
    assert_eq!(cache.initialization_vectors.len(), 1);
    assert!(cache.try_reserve(&nonce, 150, 50));
    assert_eq!(cache.initialization_vectors.len(), 1);
    assert_eq!(cache.initialization_vectors[0].creation_time, 150);
}

#[test]
fn zero_nonce_window_uses_default() {
    let mut registry = registry_with_message(vec![1u8; 300], Some([2u8; 16]));
    registry.iv_expiration_duration = Some(0);
    let me = DeviceSelf { device_type: VehicleType::BaseStation, address: Some(3) };
    registry.disassemble_message_into_packets(&me).unwrap();
    registry.finalise_tx_packets(10).unwrap();
    assert_eq!(registry.used_ivs.initialization_vectors.len(), 2);
    for iv in registry.used_ivs.initialization_vectors.iter() {
        assert_eq!(iv.expiration_duration, 30_000);
        assert_eq!(iv.creation_time, 10);
    }
}

#[test]
fn encrypt_packet_rejects_oversized_before_drawing() {
    let mut registry = ArpRegistry::new(Some(1), DeviceStatus::Online);
    registry.secret_key = Some([1u8; 16]);
    let mut packet = packet_from(1, 0, 1, vec![0u8; 219]);
    assert!(matches!(registry.encrypt_packet(&mut packet, 0), Err(PacketError::Size(_))));
    assert!(registry.used_ivs.initialization_vectors.is_empty());
    let mut packets = vec![packet_from(1, 0, 2, vec![1]), packet_from(1, 1, 2, vec![0u8; 219])];
    assert!(registry.encrypt_packets(&mut packets, 0).is_err());
}

#[test]
fn bounded_queues_refuse_new_packets_when_full() {
    let mut tx = TransmitQueue::new();
    let mut rx = ReceiveQueue::new();
    for i in 0..MAX_QUEUE_DEPTH {
        assert!(tx.try_push(packet_from(i as u8, 0, 1, vec![1])).is_ok());
        assert!(rx.try_push(packet_from(i as u8, 0, 1, vec![1])).is_ok());
    }
    let refused = tx.try_push(packet_from(200, 0, 1, vec![2])).unwrap_err();
    assert_eq!(refused.header.source_addr, 200);
    assert!(rx.try_push(packet_from(200, 0, 1, vec![2])).is_err());
    assert_eq!(tx.len(), MAX_QUEUE_DEPTH);
    assert_eq!(tx.pop().unwrap().header.source_addr, 0);
    assert!(tx.try_push(packet_from(201, 0, 1, vec![3])).is_ok());
}

#[test]
fn encrypt_packets_rejects_oversized_before_touching_anything() {
    let mut registry = ArpRegistry::new(Some(1), DeviceStatus::Online);
    registry.secret_key = Some([1u8; 16]);
    let mut packets = vec![packet_from(1, 0, 2, vec![1]), packet_from(1, 1, 2, vec![0u8; 219])];
    let before = packets.clone();
    assert!(matches!(registry.encrypt_packets(&mut packets, 0), Err(PacketError::Size(_))));
    assert_eq!(packets, before);
    assert!(registry.used_ivs.initialization_vectors.is_empty());
}
