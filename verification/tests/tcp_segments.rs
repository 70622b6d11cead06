use finance_app::tcp::checksum::{calculate_ip_checksum, calculate_tcp_checksum};
use finance_app::tcp::socket::{build_segment, MAX_PAYLOAD_SIZE};
use finance_app::tcp::{IpHeader, RawSocket, TcpError, TcpHeader};
use finance_app::wire::{
    u16_from_be, u16_to_be, u32_from_be, u32_to_be, u64_from_be, u64_to_be,
};

const SRC: [u8; 4] = [192, 168, 1, 1];
const DST: [u8; 4] = [192, 168, 1, 2];

#[test]
fn big_endian_values() {
    assert_eq!(u16_from_be(0x12, 0x34), 0x1234);
    assert_eq!(u16_to_be(0x1234), (0x12, 0x34));
    assert_eq!(u32_from_be(0x12, 0x34, 0x56, 0x78), 0x12345678);
    assert_eq!(u32_to_be(0x12345678), (0x12, 0x34, 0x56, 0x78));
    assert_eq!(u64_from_be([1, 2, 3, 4, 5, 6, 7, 8]), 0x0102030405060708);
    assert_eq!(u64_to_be(0x0102030405060708), [1, 2, 3, 4, 5, 6, 7, 8]);
    assert_eq!(u64_to_be(u64::MAX), [0xFF; 8]);
    assert_eq!(u64_from_be(u64_to_be(65536)), 65536);
}

#[test]
fn ip_checksum_of_a_known_header() {
    let blank = [
        0x45, 0x00, 0x00, 0x73, 0x00, 0x00, 0x40, 0x00, 0x40, 0x11, 0x00, 0x00, 0xC0, 0xA8, 0x00,
        0x01, 0xC0, 0xA8, 0x00, 0xC7,
    ];
    assert_eq!(calculate_ip_checksum(&blank), 0xB861);
}

#[test]
fn ip_checksum_edge_cases() {
    assert_eq!(calculate_ip_checksum(&[]), 0xFFFF);
    // An odd trailing byte is the high byte of a word.
    assert_eq!(calculate_ip_checksum(&[0x01]), 0xFEFF);
    assert_eq!(calculate_ip_checksum(&[0xFF, 0xFF]), 0x0000);
    // Carries are folded back: 0x0001 + 0xF203 + 0xF4F5 + 0xF6F7 = 0x2DDF0.
    assert_eq!(calculate_ip_checksum(&[0x00, 0x01, 0xF2, 0x03, 0xF4, 0xF5, 0xF6, 0xF7]), 0x220D);
}

#[test]
fn ip_checksum_verifies_itself() {
    let mut header = IpHeader::with_identification(SRC, DST, 1234, 0xCAFE);
    header.header_checksum = calculate_ip_checksum(&header.to_bytes());
    assert_eq!(calculate_ip_checksum(&header.to_bytes()), 0);
    let known = [
        0x45, 0x00, 0x00, 0x73, 0x00, 0x00, 0x40, 0x00, 0x40, 0x11, 0xB8, 0x61, 0xC0, 0xA8, 0x00,
        0x01, 0xC0, 0xA8, 0x00, 0xC7,
    ];
    assert_eq!(calculate_ip_checksum(&known), 0);
}

#[test]
fn tcp_checksum_of_a_known_segment() {
    let header = TcpHeader::new(1234, 80, 100, 0, true, false, false);
    assert_eq!(calculate_tcp_checksum(&header.to_bytes(), b"hello", SRC, DST), 0xE331);
}

#[test]
fn tcp_checksum_of_the_bare_pseudo_header() {
    // Only the protocol word 0x0006 and the length 0x0014 are not zero.
    assert_eq!(calculate_tcp_checksum(&[0u8; 20], &[], [0, 0, 0, 0], [0, 0, 0, 0]), 0xFFE5);
    // The length counts header and payload: 0x0006 + 0x0015 + 0x0100.
    assert_eq!(calculate_tcp_checksum(&[0u8; 20], &[1], [0, 0, 0, 0], [0, 0, 0, 0]), 0xFEE4);
}

#[test]
fn tcp_checksum_verifies_itself() {
    let mut header = TcpHeader::new(1234, 80, 100, 0, true, false, false);
    header.checksum = calculate_tcp_checksum(&header.to_bytes(), b"hello", SRC, DST);
    assert_eq!(calculate_tcp_checksum(&header.to_bytes(), b"hello", SRC, DST), 0);
    // The addresses are part of the sum.
    assert_ne!(calculate_tcp_checksum(&header.to_bytes(), b"hello", SRC, [192, 168, 1, 3]), 0);
}

#[test]
fn segment_layout() {
    let packet = build_segment(SRC, 1234, 100, DST, 80, true, false, false, b"hello", 0xBEEF);
    assert_eq!(packet.len(), 45);
    let ip = IpHeader::with_identification(SRC, DST, 45, 0xBEEF);
    assert_eq!(&packet[..20], &ip.to_bytes()[..]);
    let mut tcp = TcpHeader::new(1234, 80, 100, 0, true, false, false);
    tcp.checksum = 0xE331;
    assert_eq!(&packet[20..40], &tcp.to_bytes()[..]);
    assert_eq!(&packet[40..], b"hello");
}

#[test]
fn sent_segment_is_received() {
    let socket = RawSocket::with_sequence_num(SRC, 1234, 100);
    let packet = socket.send_packet(DST, 80, false, true, false, b"some payload").unwrap();
    assert_eq!(packet.len(), 40 + 12);
    assert_eq!(socket.receive_packet(&packet), Ok((b"some payload".to_vec(), SRC, 1234)));
    let empty = socket.send_packet(DST, 80, true, false, false, b"").unwrap();
    assert_eq!(socket.receive_packet(&empty), Ok((vec![], SRC, 1234)));
    let odd = socket.send_packet(DST, 80, true, false, true, b"odd").unwrap();
    assert_eq!(socket.receive_packet(&odd), Ok((b"odd".to_vec(), SRC, 1234)));
}

#[test]
fn largest_segment_is_received() {
    let socket = RawSocket::with_sequence_num(SRC, 1234, 100);
    let payload = vec![0xFF; MAX_PAYLOAD_SIZE];
    let packet = socket.send_packet(DST, 80, false, true, false, &payload).unwrap();
    assert_eq!(packet.len(), 65535);
    assert_eq!(socket.receive_packet(&packet), Ok((payload, SRC, 1234)));
}

#[test]
fn oversized_payload_is_too_large() {
    let socket = RawSocket::with_sequence_num(SRC, 1234, 100);
    let payload = vec![0u8; MAX_PAYLOAD_SIZE + 1];
    assert_eq!(
        socket.send_packet(DST, 80, false, true, false, &payload),
        Err(TcpError::PayloadTooLarge)
    );
    assert_eq!(MAX_PAYLOAD_SIZE, 65495);
}

#[test]
fn send_packet_carries_the_current_sequence_number() {
    let mut socket = RawSocket::with_sequence_num(SRC, 1234, 0x01020304);
    let packet = socket.send_packet(DST, 80, true, false, false, b"").unwrap();
    assert_eq!(&packet[24..28], &[1, 2, 3, 4]);
    assert_eq!(socket.get_sequence_num(), 0x01020304);
    socket.increment_sequence_num(1);
    let packet = socket.send_packet(DST, 80, true, false, false, b"").unwrap();
    assert_eq!(&packet[24..28], &[1, 2, 3, 5]);
    // The acknowledgment number is always zero.
    assert_eq!(&packet[28..32], &[0, 0, 0, 0]);
}

#[test]
fn short_datagram_is_too_small() {
    let socket = RawSocket::with_sequence_num(SRC, 1234, 100);
    let packet = socket.send_packet(DST, 80, true, false, false, b"").unwrap();
    assert_eq!(packet.len(), 40);
    for len in 0..40 {
        assert_eq!(socket.receive_packet(&packet[..len]), Err(TcpError::TooSmall));
    }
}

#[test]
fn datagram_with_bad_header_is_malformed() {
    let socket = RawSocket::with_sequence_num(SRC, 1234, 100);
    let mut packet = socket.send_packet(DST, 80, true, false, false, b"data").unwrap();
    packet[0] = 0x65;
    assert_eq!(socket.receive_packet(&packet), Err(TcpError::MalformedHeader));
    let mut packet = socket.send_packet(DST, 80, true, false, false, b"data").unwrap();
    packet[32] = 0x40;
    assert_eq!(socket.receive_packet(&packet), Err(TcpError::MalformedHeader));
}

#[test]
fn every_flipped_payload_bit_is_a_checksum_mismatch() {
    let socket = RawSocket::with_sequence_num(SRC, 1234, 100);
    let packet = socket.send_packet(DST, 80, false, true, false, b"payload!").unwrap();
    for i in 40..packet.len() {
        for bit in 0..8 {
            let mut corrupted = packet.clone();
            corrupted[i] ^= 1 << bit;
            assert_eq!(socket.receive_packet(&corrupted), Err(TcpError::ChecksumMismatch));
        }
    }
}

#[test]
fn wrong_checksum_is_a_mismatch() {
    let socket = RawSocket::with_sequence_num(SRC, 1234, 100);
    let mut packet = socket.send_packet(DST, 80, false, true, false, b"payload").unwrap();
    packet[37] ^= 0x01;
    assert_eq!(socket.receive_packet(&packet), Err(TcpError::ChecksumMismatch));
}

#[test]
fn sequence_number_wraps() {
    let mut socket = RawSocket::with_sequence_num(SRC, 1234, 0xFFFF_FFFF);
    socket.increment_sequence_num(1);
    assert_eq!(socket.get_sequence_num(), 0);
    socket.increment_sequence_num(0xFFFF_FFFF);
    assert_eq!(socket.get_sequence_num(), 0xFFFF_FFFF);
    socket.increment_sequence_num(0x10);
    assert_eq!(socket.get_sequence_num(), 0x0F);
}

#[test]
fn new_socket_is_unbound() {
    let mut socket = RawSocket::new();
    assert_eq!(socket.local_addr, [0, 0, 0, 0]);
    assert_eq!(socket.local_port, 0);
    let seq = socket.get_sequence_num();
    socket.bind([127, 0, 0, 1], 8080);
    assert_eq!(socket.local_addr, [127, 0, 0, 1]);
    assert_eq!(socket.local_port, 8080);
    assert_eq!(socket.get_sequence_num(), seq);
    let other = RawSocket::new_with_params([10, 0, 0, 1], 9);
    assert_eq!(other.local_addr, [10, 0, 0, 1]);
    assert_eq!(other.local_port, 9);
}
