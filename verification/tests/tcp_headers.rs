use finance_app::tcp::{IpHeader, TcpError, TcpFlags, TcpHeader};

#[test]
fn test_ip_header_creation() {
    let src_addr = [192, 168, 1, 1];
    let dst_addr = [192, 168, 1, 2];
    let header = IpHeader::new(src_addr, dst_addr, 20); // 20 bytes for header

    assert_eq!(header.version_ihl, 0x45); // IPv4 + 5 words
    assert_eq!(header.time_to_live, 64);
    assert_eq!(header.protocol, 6); // TCP
    assert_eq!(header.src_addr, src_addr);
    assert_eq!(header.dst_addr, dst_addr);
    assert_eq!(header.ip_flags, 0x4000); // Don't fragment
}

#[test]
fn test_tcp_header_flags() {
    // Test SYN flag
    let syn_header = TcpHeader::new(
        1234,  // src_port
        80,    // dst_port
        100,   // seq_num
        0,     // ack_num
        true,  // syn
        false, // ack
        false, // fin
    );

    let flags = syn_header.get_flags();
    assert!(flags.syn);
    assert!(!flags.ack);
    assert!(!flags.fin);

    // Test SYN-ACK flags
    let syn_ack_header = TcpHeader::new(
        80,    // src_port
        1234,  // dst_port
        200,   // seq_num
        101,   // ack_num
        true,  // syn
        true,  // ack
        false, // fin
    );

    let flags = syn_ack_header.get_flags();
    assert!(flags.syn);
    assert!(flags.ack);
    assert!(!flags.fin);

    // Test FIN-ACK flags
    let fin_ack_header = TcpHeader::new(
        1234,  // src_port
        80,    // dst_port
        300,   // seq_num
        201,   // ack_num
        false, // syn
        true,  // ack
        true,  // fin
    );

    let flags = fin_ack_header.get_flags();
    assert!(!flags.syn);
    assert!(flags.ack);
    assert!(flags.fin);
}

#[test]
fn test_header_size() {
    // Ensure headers are the correct size
    assert_eq!(std::mem::size_of::<IpHeader>(), 20);
    assert_eq!(std::mem::size_of::<TcpHeader>(), 20);
}

#[test]
fn test_ip_fragmentation() {
    let mut header = IpHeader::new([127, 0, 0, 1], [127, 0, 0, 1], 20);

    // Test don't fragment flag
    assert_eq!(header.ip_flags & 0x4000, 0x4000);

    // Test fragment offset
    header.ip_flags = 0x2000; // More fragments
    assert_eq!(header.ip_flags & 0x2000, 0x2000);
}

#[test]
fn test_tcp_sequence_numbers() {
    let header = TcpHeader::new(
        1234,       // src_port
        80,         // dst_port
        0xFFFFFFFF, // seq_num (max value)
        0,          // ack_num
        false,      // syn
        false,      // ack
        false,      // fin
    );

    assert_eq!(header.seq_num, 0xFFFFFFFF);

    // Test sequence number wraparound
    let next_seq = header.seq_num.wrapping_add(1);
    assert_eq!(next_seq, 0);
}

#[test]
fn test_header_to_bytes() {
    let ip_header = IpHeader::new([192, 168, 1, 1], [192, 168, 1, 2], 20);
    let bytes = ip_header.to_bytes();

    println!("{:?}", bytes);

    assert_eq!(bytes.len(), 20);
    assert_eq!(bytes[0], 0x45); // version_ihl
    assert_eq!(bytes[8], 64); // ttl
}

#[test]
fn ip_header_with_identification_fixes_every_field() {
    let header = IpHeader::with_identification([10, 0, 0, 1], [10, 0, 0, 2], 45, 0xBEEF);
    assert_eq!(
        header,
        IpHeader {
            version_ihl: 0x45,
            tos: 0,
            total_length: 45,
            identification: 0xBEEF,
            ip_flags: 0x4000,
            time_to_live: 64,
            protocol: 6,
            header_checksum: 0,
            src_addr: [10, 0, 0, 1],
            dst_addr: [10, 0, 0, 2],
        }
    );
}

#[test]
fn ip_header_encodes_in_network_byte_order() {
    let header = IpHeader {
        version_ihl: 0x45,
        tos: 0x10,
        total_length: 0x0073,
        identification: 0x1234,
        ip_flags: 0x4000,
        time_to_live: 64,
        protocol: 0x11,
        header_checksum: 0xB861,
        src_addr: [192, 168, 0, 1],
        dst_addr: [192, 168, 0, 199],
    };
    assert_eq!(
        header.to_bytes(),
        vec![
            0x45, 0x10, 0x00, 0x73, 0x12, 0x34, 0x40, 0x00, 0x40, 0x11, 0xB8, 0x61, 192, 168, 0,
            1, 192, 168, 0, 199
        ]
    );
}

#[test]
fn ip_header_round_trips() {
    let header = IpHeader::with_identification([1, 2, 3, 4], [5, 6, 7, 8], 1500, 7);
    assert_eq!(IpHeader::from_bytes(&header.to_bytes()), Ok(header));
}

#[test]
fn ip_header_decoding_ignores_what_follows() {
    let header = IpHeader::with_identification([1, 2, 3, 4], [5, 6, 7, 8], 1500, 7);
    let mut bytes = header.to_bytes();
    bytes.extend_from_slice(&[9, 9, 9]);
    assert_eq!(IpHeader::from_bytes(&bytes), Ok(header));
}

#[test]
fn ip_header_shorter_than_20_bytes_is_malformed() {
    let bytes = IpHeader::with_identification([1, 2, 3, 4], [5, 6, 7, 8], 40, 7).to_bytes();
    for len in 0..20 {
        assert_eq!(IpHeader::from_bytes(&bytes[..len]), Err(TcpError::MalformedHeader));
    }
}

#[test]
fn ip_header_with_other_version_is_malformed() {
    let mut bytes = IpHeader::with_identification([1, 2, 3, 4], [5, 6, 7, 8], 40, 7).to_bytes();
    bytes[0] = 0x65;
    assert_eq!(IpHeader::from_bytes(&bytes), Err(TcpError::MalformedHeader));
    bytes[0] = 0x05;
    assert_eq!(IpHeader::from_bytes(&bytes), Err(TcpError::MalformedHeader));
}

#[test]
fn ip_header_with_short_header_length_is_malformed() {
    let mut bytes = IpHeader::with_identification([1, 2, 3, 4], [5, 6, 7, 8], 40, 7).to_bytes();
    bytes[0] = 0x44;
    assert_eq!(IpHeader::from_bytes(&bytes), Err(TcpError::MalformedHeader));
}

#[test]
fn ip_header_with_total_length_below_header_length_is_malformed() {
    let short = IpHeader::with_identification([1, 2, 3, 4], [5, 6, 7, 8], 19, 7);
    assert_eq!(IpHeader::from_bytes(&short.to_bytes()), Err(TcpError::MalformedHeader));
    let exact = IpHeader::with_identification([1, 2, 3, 4], [5, 6, 7, 8], 20, 7);
    assert_eq!(IpHeader::from_bytes(&exact.to_bytes()), Ok(exact));
    // A header length of 6 words asks for a total length of 24 or more.
    let mut bytes = IpHeader::with_identification([1, 2, 3, 4], [5, 6, 7, 8], 23, 7).to_bytes();
    bytes[0] = 0x46;
    assert_eq!(IpHeader::from_bytes(&bytes), Err(TcpError::MalformedHeader));
}

#[test]
fn tcp_header_new_fills_the_fixed_fields() {
    let header = TcpHeader::new(1234, 80, 100, 7, true, true, false);
    assert_eq!(
        header,
        TcpHeader {
            src_port: 1234,
            dst_port: 80,
            seq_num: 100,
            ack_num: 7,
            data_offset_flags: 0x5012,
            window: 65535,
            checksum: 0,
            urgent_pointer: 0,
        }
    );
    assert_eq!(TcpHeader::new(1, 2, 3, 4, false, false, true).data_offset_flags, 0x5001);
    assert_eq!(TcpHeader::new(1, 2, 3, 4, false, false, false).data_offset_flags, 0x5000);
}

#[test]
fn tcp_header_encodes_in_network_byte_order() {
    let header = TcpHeader::new(1234, 80, 100, 0, true, false, false);
    assert_eq!(
        header.to_bytes(),
        vec![
            0x04, 0xD2, 0x00, 0x50, 0, 0, 0, 100, 0, 0, 0, 0, 0x50, 0x02, 0xFF, 0xFF, 0, 0, 0, 0
        ]
    );
    let other = TcpHeader {
        src_port: 0xABCD,
        dst_port: 0x0102,
        seq_num: 0x01020304,
        ack_num: 0xA1B2C3D4,
        data_offset_flags: 0x6018,
        window: 0x1000,
        checksum: 0xE331,
        urgent_pointer: 0x0009,
    };
    assert_eq!(
        other.to_bytes(),
        vec![
            0xAB, 0xCD, 0x01, 0x02, 0x01, 0x02, 0x03, 0x04, 0xA1, 0xB2, 0xC3, 0xD4, 0x60, 0x18,
            0x10, 0x00, 0xE3, 0x31, 0x00, 0x09
        ]
    );
}

#[test]
fn tcp_header_round_trips() {
    let header = TcpHeader::new(40000, 443, 0xFFFF_FFFF, 0x8000_0000, true, true, true);
    assert_eq!(TcpHeader::from_bytes(&header.to_bytes()), Ok(header));
}

#[test]
fn tcp_header_shorter_than_20_bytes_is_malformed() {
    let bytes = TcpHeader::new(1, 2, 3, 4, false, true, false).to_bytes();
    for len in 0..20 {
        assert_eq!(TcpHeader::from_bytes(&bytes[..len]), Err(TcpError::MalformedHeader));
    }
}

#[test]
fn tcp_header_with_data_offset_below_5_is_malformed() {
    let mut header = TcpHeader::new(1, 2, 3, 4, false, true, false);
    header.data_offset_flags = 0x4010;
    assert_eq!(TcpHeader::from_bytes(&header.to_bytes()), Err(TcpError::MalformedHeader));
    header.data_offset_flags = 0x0010;
    assert_eq!(TcpHeader::from_bytes(&header.to_bytes()), Err(TcpError::MalformedHeader));
    header.data_offset_flags = 0xF010;
    assert_eq!(TcpHeader::from_bytes(&header.to_bytes()), Ok(header));
}

#[test]
fn tcp_flags_follow_the_bit_pattern() {
    assert_eq!(
        TcpFlags::from_raw(0x01),
        TcpFlags { fin: true, syn: false, rst: false, psh: false, ack: false, urg: false }
    );
    assert_eq!(
        TcpFlags::from_raw(0x02),
        TcpFlags { fin: false, syn: true, rst: false, psh: false, ack: false, urg: false }
    );
    assert_eq!(
        TcpFlags::from_raw(0x04),
        TcpFlags { fin: false, syn: false, rst: true, psh: false, ack: false, urg: false }
    );
    assert_eq!(
        TcpFlags::from_raw(0x08),
        TcpFlags { fin: false, syn: false, rst: false, psh: true, ack: false, urg: false }
    );
    assert_eq!(
        TcpFlags::from_raw(0x10),
        TcpFlags { fin: false, syn: false, rst: false, psh: false, ack: true, urg: false }
    );
    assert_eq!(
        TcpFlags::from_raw(0x20),
        TcpFlags { fin: false, syn: false, rst: false, psh: false, ack: false, urg: true }
    );
    assert_eq!(
        TcpFlags::from_raw(0xFFC0),
        TcpFlags { fin: false, syn: false, rst: false, psh: false, ack: false, urg: false }
    );
}

#[test]
fn tcp_flags_round_trip_through_every_pattern() {
    for raw in 0u16..0x40 {
        assert_eq!(TcpFlags::from_raw(raw).to_raw(), raw);
    }
    for raw in [0x40u16, 0x7F, 0x5012, 0xFFFF] {
        assert_eq!(TcpFlags::from_raw(raw).to_raw(), raw & 0x3F);
    }
    let flags = TcpFlags { fin: true, syn: false, rst: true, psh: false, ack: true, urg: true };
    assert_eq!(flags.to_raw(), 0x35);
    assert_eq!(TcpFlags::from_raw(flags.to_raw()), flags);
}

#[test]
fn tcp_error_texts() {
    assert_eq!(TcpError::TooSmall.to_string(), "packet too small: insufficient header size");
    assert_eq!(TcpError::MalformedHeader.to_string(), "malformed header");
    assert_eq!(
        TcpError::ChecksumMismatch.to_string(),
        "TCP checksum mismatch: packet corrupted"
    );
    assert_eq!(TcpError::PayloadTooLarge.to_string(), "payload does not fit one datagram");
}
