//! The raw transport without its socket: the local endpoint, the running
//! sequence number, and whole segments as bytes.
//!
//! The caller owns the operating system's socket. It transmits what
//! [`RawSocket::send_packet`] builds and hands what it received to
//! [`RawSocket::receive_packet`].

use crate::random::{random_u16, random_u32};
use crate::tcp::checksum::{
    calculate_tcp_checksum, flip_bit, lemma_bit_flip_detected, lemma_tcp_checksum_verifies,
    spec_tcp_checksum, store_u16,
};
use crate::tcp::error::TcpError;
use crate::tcp::headers::{IpHeader, TcpHeader};
use crate::tcp::{IP_HEADER_SIZE, TCP_HEADER_SIZE};
use crate::wire::push_all;
use vstd::prelude::*;
use vstd::slice::slice_to_vec;

verus! {

/// The largest payload that fits a datagram beside the two headers: the IP
/// total length is a 16-bit field.
pub const MAX_PAYLOAD_SIZE: usize = 65495;

/// One end of a raw TCP conversation.
#[derive(Debug)]
pub struct RawSocket {
    /// The local address, all zero until bound.
    pub local_addr: [u8; 4],
    /// The local port, zero until bound.
    pub local_port: u16,
    /// The sequence number that the next segment will carry.
    pub seq_num: u32,
}

/// The TCP header of an outgoing segment, checksum filled in.
pub open spec fn spec_tcp_header(
    local_addr: [u8; 4],
    local_port: u16,
    seq_num: u32,
    dst_addr: [u8; 4],
    dst_port: u16,
    syn: bool,
    ack: bool,
    fin: bool,
    data: Seq<u8>,
) -> TcpHeader {
    let blank = TcpHeader::spec_new(local_port, dst_port, seq_num, 0, syn, ack, fin);
    TcpHeader {
        checksum: spec_tcp_checksum(blank.spec_to_bytes(), data, local_addr@, dst_addr@),
        ..blank
    }
}

/// The bytes of an outgoing segment: IP header, TCP header, payload.
pub open spec fn spec_segment(
    local_addr: [u8; 4],
    local_port: u16,
    seq_num: u32,
    dst_addr: [u8; 4],
    dst_port: u16,
    syn: bool,
    ack: bool,
    fin: bool,
    data: Seq<u8>,
    identification: u16,
) -> Seq<u8> {
    IpHeader::spec_new(
        local_addr,
        dst_addr,
        (40 + data.len()) as u16,
        identification,
    ).spec_to_bytes() + spec_tcp_header(
        local_addr,
        local_port,
        seq_num,
        dst_addr,
        dst_port,
        syn,
        ack,
        fin,
        data,
    ).spec_to_bytes() + data
}

/// What a received datagram holds: the payload, and the address and port
/// it came from; or why it was turned down.
pub open spec fn spec_receive(buffer: Seq<u8>) -> Result<(Seq<u8>, [u8; 4], u16), TcpError> {
    if buffer.len() < 40 {
        Err(TcpError::TooSmall)
    } else {
        let tcp_bytes = buffer.subrange(20, 40);
        let data = buffer.subrange(40, buffer.len() as int);
        match IpHeader::spec_from_bytes(buffer.subrange(0, 20)) {
            Err(e) => Err(e),
            Ok(ip) => match TcpHeader::spec_from_bytes(tcp_bytes) {
                Err(e) => Err(e),
                Ok(tcp) => if spec_tcp_checksum(tcp_bytes, data, ip.src_addr@, ip.dst_addr@)
                    != 0 {
                    Err(TcpError::ChecksumMismatch)
                } else {
                    Ok((data, ip.src_addr, tcp.src_port))
                },
            },
        }
    }
}

/// Builds the segment that [`RawSocket::send_packet`] transmits, around a
/// given IP identification.
pub fn build_segment(
    local_addr: [u8; 4],
    local_port: u16,
    seq_num: u32,
    dst_addr: [u8; 4],
    dst_port: u16,
    syn: bool,
    ack: bool,
    fin: bool,
    data: &[u8],
    identification: u16,
) -> (packet: Vec<u8>)
    requires
        data@.len() <= MAX_PAYLOAD_SIZE,
    ensures
        packet@ == spec_segment(
            local_addr,
            local_port,
            seq_num,
            dst_addr,
            dst_port,
            syn,
            ack,
            fin,
            data@,
            identification,
        ),
        packet@.len() == 40 + data@.len(),
{
    let total_length: u16 = (IP_HEADER_SIZE + TCP_HEADER_SIZE + data.len()) as u16;
    let ip_header = IpHeader::with_identification(
        local_addr,
        dst_addr,
        total_length,
        identification,
    );
    let mut tcp_header = TcpHeader::new(local_port, dst_port, seq_num, 0, syn, ack, fin);
    let blank = tcp_header.to_bytes();
    tcp_header.checksum = calculate_tcp_checksum(blank.as_slice(), data, local_addr, dst_addr);
    let mut packet = ip_header.to_bytes();
    let tcp_bytes = tcp_header.to_bytes();
    push_all(&mut packet, tcp_bytes.as_slice());
    push_all(&mut packet, data);
    packet
}

impl RawSocket {
    /// An endpoint at the given address and port that starts counting at
    /// `seq_num`.
    pub fn with_sequence_num(local_addr: [u8; 4], local_port: u16, seq_num: u32) -> (socket:
        RawSocket)
        ensures
            socket.local_addr == local_addr,
            socket.local_port == local_port,
            socket.seq_num == seq_num,
    {
        RawSocket { local_addr, local_port, seq_num }
    }

    /// An unbound endpoint: address and port are zero, and the initial
    /// sequence number is drawn at random.
    pub fn new() -> (socket: RawSocket)
        ensures
            socket.local_addr@ == seq![0u8, 0u8, 0u8, 0u8],
            socket.local_port == 0,
    {
        let zero: [u8; 4] = [0, 0, 0, 0];
        Self::with_sequence_num(zero, 0, random_u32())
    }

    /// An endpoint at the given address and port; the initial sequence
    /// number is drawn at random.
    pub fn new_with_params(local_addr: [u8; 4], local_port: u16) -> (socket: RawSocket)
        ensures
            socket.local_addr == local_addr,
            socket.local_port == local_port,
    {
        Self::with_sequence_num(local_addr, local_port, random_u32())
    }

    /// Records the address and port that the socket was bound to. The
    /// sequence number stays.
    pub fn bind(&mut self, addr: [u8; 4], port: u16)
        ensures
            final(self).local_addr == addr,
            final(self).local_port == port,
            final(self).seq_num == old(self).seq_num,
    {
        self.local_addr = addr;
        self.local_port = port;
    }

    /// Builds one segment for transmission: an IP header from the local
    /// address to `dst_addr`, a TCP header with the current sequence number,
    /// acknowledgment 0 and the control bits asked for, its checksum filled
    /// in, and the payload.
    ///
    /// Fails with [`TcpError::PayloadTooLarge`] when the payload is longer
    /// than [`MAX_PAYLOAD_SIZE`]. The IP identification is drawn at random;
    /// the rest of the segment is fixed by the arguments. The sequence
    /// number is not advanced: that is the caller's to do, with
    /// [`RawSocket::increment_sequence_num`].
    pub fn send_packet(
        &self,
        dst_addr: [u8; 4],
        dst_port: u16,
        syn: bool,
        ack: bool,
        fin: bool,
        data: &[u8],
    ) -> (result: Result<Vec<u8>, TcpError>)
        ensures
            data@.len() > MAX_PAYLOAD_SIZE ==> result is Err && result->Err_0
                == TcpError::PayloadTooLarge,
            data@.len() <= MAX_PAYLOAD_SIZE ==> result is Ok,
            result matches Ok(packet) ==> {
                &&& packet@.len() == 40 + data@.len()
                &&& exists|identification: u16|
                    packet@ == #[trigger] spec_segment(
                        self.local_addr,
                        self.local_port,
                        self.seq_num,
                        dst_addr,
                        dst_port,
                        syn,
                        ack,
                        fin,
                        data@,
                        identification,
                    )
                &&& spec_receive(packet@) == Ok::<(Seq<u8>, [u8; 4], u16), TcpError>(
                    (data@, self.local_addr, self.local_port),
                )
            },
    {
        if data.len() > MAX_PAYLOAD_SIZE {
            return Err(TcpError::PayloadTooLarge);
        }
        let identification = random_u16();
        proof {
            lemma_segment_round_trip(
                self.local_addr,
                self.local_port,
                self.seq_num,
                dst_addr,
                dst_port,
                syn,
                ack,
                fin,
                data@,
                identification,
            );
        }
        let packet = build_segment(
            self.local_addr,
            self.local_port,
            self.seq_num,
            dst_addr,
            dst_port,
            syn,
            ack,
            fin,
            data,
            identification,
        );
        assert(packet@ == spec_segment(
            self.local_addr,
            self.local_port,
            self.seq_num,
            dst_addr,
            dst_port,
            syn,
            ack,
            fin,
            data@,
            identification,
        ));
        Ok(packet)
    }

    /// Takes one received datagram apart.
    ///
    /// Fails with [`TcpError::TooSmall`] below 40 bytes, with
    /// [`TcpError::MalformedHeader`] when the IP or the TCP header does not
    /// decode, and with [`TcpError::ChecksumMismatch`] when the TCP checksum
    /// over the segment as received is not zero. Otherwise returns the
    /// payload with the sender's address and port.
    pub fn receive_packet(&self, buffer: &[u8]) -> (result: Result<
        (Vec<u8>, [u8; 4], u16),
        TcpError,
    >)
        ensures
            match result {
                Ok((payload, addr, port)) => spec_receive(buffer@) == Ok::<
                    (Seq<u8>, [u8; 4], u16),
                    TcpError,
                >((payload@, addr, port)),
                Err(e) => spec_receive(buffer@) == Err::<(Seq<u8>, [u8; 4], u16), TcpError>(e),
            },
    {
        let len = buffer.len();
        let headers = IP_HEADER_SIZE + TCP_HEADER_SIZE;
        if len < headers {
            return Err(TcpError::TooSmall);
        }
        let ip_header = match IpHeader::from_bytes(&buffer[0..IP_HEADER_SIZE]) {
            Ok(header) => header,
            Err(e) => {
                return Err(e);
            },
        };
        let tcp_header = match TcpHeader::from_bytes(&buffer[IP_HEADER_SIZE..headers]) {
            Ok(header) => header,
            Err(e) => {
                return Err(e);
            },
        };
        let data = &buffer[headers..len];
        let checksum = calculate_tcp_checksum(
            &buffer[IP_HEADER_SIZE..headers],
            data,
            ip_header.src_addr,
            ip_header.dst_addr,
        );
        if checksum != 0 {
            return Err(TcpError::ChecksumMismatch);
        }
        Ok((slice_to_vec(data), ip_header.src_addr, tcp_header.src_port))
    }

    /// The sequence number that the next segment will carry.
    pub fn get_sequence_num(&self) -> (seq_num: u32)
        ensures
            seq_num == self.seq_num,
    {
        self.seq_num
    }

    /// Advances the sequence number by `increment`, wrapping at 2^32.
    pub fn increment_sequence_num(&mut self, increment: u32)
        ensures
            final(self).seq_num as int == (old(self).seq_num as int + increment as int)
                % 0x1_0000_0000,
            final(self).local_addr == old(self).local_addr,
            final(self).local_port == old(self).local_port,
    {
        self.seq_num = self.seq_num.wrapping_add(increment);
    }
}

/// What is sent is received: a segment built for a payload of at most
/// [`MAX_PAYLOAD_SIZE`] bytes is accepted on reception, and gives back the
/// payload with the sender's address and port.
pub proof fn lemma_segment_round_trip(
    local_addr: [u8; 4],
    local_port: u16,
    seq_num: u32,
    dst_addr: [u8; 4],
    dst_port: u16,
    syn: bool,
    ack: bool,
    fin: bool,
    data: Seq<u8>,
    identification: u16,
)
    requires
        data.len() <= MAX_PAYLOAD_SIZE,
    ensures
        spec_receive(
            spec_segment(
                local_addr,
                local_port,
                seq_num,
                dst_addr,
                dst_port,
                syn,
                ack,
                fin,
                data,
                identification,
            ),
        ) == Ok::<(Seq<u8>, [u8; 4], u16), TcpError>((data, local_addr, local_port)),
{
    let segment = spec_segment(
        local_addr,
        local_port,
        seq_num,
        dst_addr,
        dst_port,
        syn,
        ack,
        fin,
        data,
        identification,
    );
    let ip = IpHeader::spec_new(local_addr, dst_addr, (40 + data.len()) as u16, identification);
    let blank = TcpHeader::spec_new(local_port, dst_port, seq_num, 0, syn, ack, fin);
    let checksum = spec_tcp_checksum(blank.spec_to_bytes(), data, local_addr@, dst_addr@);
    let tcp = TcpHeader { checksum, ..blank };
    ip.lemma_round_trip();
    tcp.lemma_round_trip();
    blank.lemma_round_trip();
    assert(segment.subrange(0, 20) =~= ip.spec_to_bytes());
    assert(segment.subrange(20, 40) =~= tcp.spec_to_bytes());
    assert(segment.subrange(40, segment.len() as int) =~= data);
    assert(tcp.spec_to_bytes() =~= store_u16(blank.spec_to_bytes(), 16, checksum));
    lemma_tcp_checksum_verifies(blank.spec_to_bytes(), data, local_addr@, dst_addr@);
}

/// Corruption is caught: invert any one bit in the payload of a datagram
/// that was accepted, and it is turned down with
/// [`TcpError::ChecksumMismatch`].
pub proof fn lemma_corrupted_payload_rejected(buffer: Seq<u8>, i: int, bit: u8)
    requires
        spec_receive(buffer) is Ok,
        40 <= i < buffer.len(),
        bit < 8,
    ensures
        spec_receive(buffer.update(i, flip_bit(buffer[i], bit))) == Err::<
            (Seq<u8>, [u8; 4], u16),
            TcpError,
        >(TcpError::ChecksumMismatch),
{
    let corrupted = buffer.update(i, flip_bit(buffer[i], bit));
    let data = buffer.subrange(40, buffer.len() as int);
    let ip = IpHeader::spec_from_bytes(buffer.subrange(0, 20))->Ok_0;
    assert(corrupted.subrange(0, 20) =~= buffer.subrange(0, 20));
    assert(corrupted.subrange(20, 40) =~= buffer.subrange(20, 40));
    assert(corrupted.subrange(40, corrupted.len() as int) =~= data.update(
        i - 40,
        flip_bit(data[i - 40], bit),
    ));
    lemma_bit_flip_detected(buffer.subrange(20, 40), data, ip.src_addr@, ip.dst_addr@, i - 40, bit);
}

} // verus!
