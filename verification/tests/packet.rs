use wol::packet::{MAC_LEN, PACKET_LEN, REPETITIONS, SYNC_BYTE, SYNC_LEN};
use wol::{mac_bytes, mac_from_str, magic_packet};

#[test]
fn layout_constants() {
    assert_eq!(SYNC_LEN, 6);
    assert_eq!(MAC_LEN, 6);
    assert_eq!(REPETITIONS, 16);
    assert_eq!(PACKET_LEN, 102);
    assert_eq!(SYNC_BYTE, 0xFF);
    assert_eq!(SYNC_LEN + REPETITIONS * MAC_LEN, PACKET_LEN);
}

#[test]
fn address_bytes_are_big_endian() {
    assert_eq!(mac_bytes(0x0123_4567_89AB), [0x01, 0x23, 0x45, 0x67, 0x89, 0xAB]);
    assert_eq!(mac_bytes(0), [0; 6]);
    assert_eq!(mac_bytes(1), [0, 0, 0, 0, 0, 1]);
    assert_eq!(mac_bytes(0xFFFF_FFFF_FFFF), [0xFF; 6]);
}

#[test]
fn address_bytes_ignore_the_upper_sixteen_bits() {
    assert_eq!(mac_bytes(0xFFFF_0123_4567_89AB), [0x01, 0x23, 0x45, 0x67, 0x89, 0xAB]);
    assert_eq!(mac_bytes(u64::MAX), [0xFF; 6]);
    assert_eq!(mac_bytes(0xABCD_0000_0000_0000), [0; 6]);
}

#[test]
fn packet_for_parsed_address() {
    let mac = mac_from_str("01:23:45:67:89:AB").unwrap();
    assert_eq!(mac, 0x0123_4567_89AB);
    let packet = magic_packet(mac);
    let mut expected = vec![0xFFu8; 6];
    for _ in 0..16 {
        expected.extend_from_slice(&[0x01, 0x23, 0x45, 0x67, 0x89, 0xAB]);
    }
    assert_eq!(packet.to_vec(), expected);
}

#[test]
fn packet_is_always_102_bytes() {
    for mac in [0u64, 1, 0x0123_4567_89AB, 0xFFFF_FFFF_FFFF, u64::MAX] {
        assert_eq!(magic_packet(mac).len(), 102);
    }
}

#[test]
fn packet_starts_with_six_sync_bytes() {
    for mac in [0u64, 1, 0x0123_4567_89AB, 0x0000_0000_00FF, u64::MAX] {
        let packet = magic_packet(mac);
        assert_eq!(&packet[..6], &[0xFF; 6]);
    }
}

#[test]
fn every_block_gives_the_address_back() {
    for mac in [0u64, 0x0123_4567_89AB, 0xDEAD_BEEF_0AF9, 0xFFFF_FFFF_FFFF, 0x8000_0000_0001] {
        let packet = magic_packet(mac);
        for i in 0..16 {
            let block = &packet[6 + 6 * i..6 + 6 * i + 6];
            assert_eq!(block, &mac_bytes(mac));
            let mut value: u64 = 0;
            for byte in block {
                value = value * 256 + u64::from(*byte);
            }
            assert_eq!(value, mac);
        }
    }
}

#[test]
fn packet_for_the_zero_address() {
    let packet = magic_packet(0);
    assert_eq!(&packet[..6], &[0xFF; 6]);
    assert!(packet[6..].iter().all(|byte| *byte == 0));
}

#[test]
fn packet_for_the_broadcast_address() {
    assert_eq!(magic_packet(0xFFFF_FFFF_FFFF), [0xFF; 102]);
}

#[test]
fn packet_ignores_the_upper_sixteen_bits() {
    assert_eq!(magic_packet(0xBEEF_0123_4567_89AB), magic_packet(0x0123_4567_89AB));
}

#[test]
fn packets_of_different_addresses_differ() {
    assert_ne!(magic_packet(0x0123_4567_89AB), magic_packet(0x0123_4567_89AC));
    assert_ne!(magic_packet(0x0123_4567_89AB), magic_packet(0x1123_4567_89AB));
}
