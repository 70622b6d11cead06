//! IPv4 and TCP headers: plain structs with one field per header field, and
//! their 20-byte encodings in network byte order. Options are not supported.

use crate::random::random_u16;
use crate::tcp::checksum::{lemma_ip_checksum_verifies, spec_ip_checksum, store_u16};
use crate::tcp::error::TcpError;
use crate::wire::{
    be16, be16_bytes, be32, be32_bytes, bit_value, lemma_be16_bytes_of_be16, lemma_be16_round_trip,
    lemma_be32_bytes_of_be32, lemma_be32_round_trip, push_all, push_u16, push_u32, u16_from_be,
    u32_from_be,
};
use vstd::prelude::*;

verus! {

/// An IPv4 header without options.
#[derive(Debug, Clone, Copy, PartialEq, Eq)]
pub struct IpHeader {
    /// Version in the high nibble, header length in 32-bit words in the low.
    pub version_ihl: u8,
    /// Type of service.
    pub tos: u8,
    /// Length of the whole datagram in bytes, header included.
    pub total_length: u16,
    /// Identification of the datagram.
    pub identification: u16,
    /// Three flag bits, then the fragment offset.
    pub ip_flags: u16,
    /// Hops the datagram may still take.
    pub time_to_live: u8,
    /// Number of the protocol carried; 6 is TCP.
    pub protocol: u8,
    /// Internet checksum over the header.
    pub header_checksum: u16,
    /// Address of the sender.
    pub src_addr: [u8; 4],
    /// Address of the receiver.
    pub dst_addr: [u8; 4],
}

/// A TCP header without options.
#[derive(Debug, Clone, Copy, PartialEq, Eq)]
pub struct TcpHeader {
    /// Port of the sender.
    pub src_port: u16,
    /// Port of the receiver.
    pub dst_port: u16,
    /// Sequence number of the first payload byte.
    pub seq_num: u32,
    /// Next sequence number that the sender expects.
    pub ack_num: u32,
    /// Data offset in 32-bit words in the top four bits, control bits in the
    /// low six.
    pub data_offset_flags: u16,
    /// Receive window.
    pub window: u16,
    /// Internet checksum over pseudo-header, header and payload.
    pub checksum: u16,
    /// Urgent pointer.
    pub urgent_pointer: u16,
}

/// The six control bits of a TCP header.
#[derive(Debug, Clone, Copy, PartialEq, Eq, Structural)]
pub struct TcpFlags {
    pub syn: bool,
    pub fin: bool,
    pub rst: bool,
    pub psh: bool,
    pub ack: bool,
    pub urg: bool,
}

impl IpHeader {
    /// The IP version, from the high nibble of the first byte.
    pub open spec fn version(self) -> int {
        self.version_ihl as int / 0x10
    }

    /// The header length in bytes, from the low nibble of the first byte.
    pub open spec fn header_len(self) -> int {
        (self.version_ihl as int % 0x10) * 4
    }

    /// A header is well formed when it says version 4, a header of at least
    /// 20 bytes, and a datagram no shorter than its header.
    pub open spec fn wf(self) -> bool {
        &&& self.version() == 4
        &&& self.header_len() >= 20
        &&& self.total_length >= self.header_len()
    }

    /// The header that [`IpHeader::new`] builds around an identification.
    pub open spec fn spec_new(
        src_addr: [u8; 4],
        dst_addr: [u8; 4],
        total_length: u16,
        identification: u16,
    ) -> IpHeader {
        IpHeader {
            version_ihl: 0x45,
            tos: 0,
            total_length,
            identification,
            ip_flags: 0x4000,
            time_to_live: 64,
            protocol: 6,
            header_checksum: 0,
            src_addr,
            dst_addr,
        }
    }

    /// The 20 bytes of the header on the wire.
    pub open spec fn spec_to_bytes(self) -> Seq<u8> {
        seq![self.version_ihl, self.tos] + be16_bytes(self.total_length) + be16_bytes(
            self.identification,
        ) + be16_bytes(self.ip_flags) + seq![self.time_to_live, self.protocol] + be16_bytes(
            self.header_checksum,
        ) + self.src_addr@ + self.dst_addr@
    }

    /// The fields that the first 20 bytes of `bytes` spell out, unchecked.
    pub open spec fn spec_fields(bytes: Seq<u8>) -> IpHeader {
        IpHeader {
            version_ihl: bytes[0],
            tos: bytes[1],
            total_length: be16(bytes[2], bytes[3]),
            identification: be16(bytes[4], bytes[5]),
            ip_flags: be16(bytes[6], bytes[7]),
            time_to_live: bytes[8],
            protocol: bytes[9],
            header_checksum: be16(bytes[10], bytes[11]),
            src_addr: [bytes[12], bytes[13], bytes[14], bytes[15]],
            dst_addr: [bytes[16], bytes[17], bytes[18], bytes[19]],
        }
    }

    /// What decoding `bytes` gives: the fields of the first 20 bytes if they
    /// are there and well formed.
    pub open spec fn spec_from_bytes(bytes: Seq<u8>) -> Result<IpHeader, TcpError> {
        if bytes.len() >= 20 && Self::spec_fields(bytes).wf() {
            Ok(Self::spec_fields(bytes))
        } else {
            Err(TcpError::MalformedHeader)
        }
    }

    /// A header for a TCP datagram of `total_length` bytes that must not be
    /// fragmented, with the given identification.
    pub fn with_identification(
        src_addr: [u8; 4],
        dst_addr: [u8; 4],
        total_length: u16,
        identification: u16,
    ) -> (header: IpHeader)
        ensures
            header == Self::spec_new(src_addr, dst_addr, total_length, identification),
            header.wf() <==> total_length >= 20,
    {
        IpHeader {
            version_ihl: 0x45,
            tos: 0,
            total_length,
            identification,
            ip_flags: 0x4000,
            time_to_live: 64,
            protocol: 6,
            header_checksum: 0,
            src_addr,
            dst_addr,
        }
    }

    /// A header for a TCP datagram of `total_length` bytes that must not be
    /// fragmented. The identification is drawn at random; every other field
    /// is fixed by the arguments.
    pub fn new(src_addr: [u8; 4], dst_addr: [u8; 4], total_length: u16) -> (header: IpHeader)
        ensures
            header == Self::spec_new(src_addr, dst_addr, total_length, header.identification),
            header.wf() <==> total_length >= 20,
    {
        Self::with_identification(src_addr, dst_addr, total_length, random_u16())
    }

    /// Decodes a header from the first 20 bytes of `bytes`.
    ///
    /// Fails with [`TcpError::MalformedHeader`] when there are fewer than 20
    /// bytes, the version is not 4, the header length field says less than
    /// 20 bytes, or the total length is less than the header length.
    pub fn from_bytes(bytes: &[u8]) -> (result: Result<IpHeader, TcpError>)
        ensures
            result == Self::spec_from_bytes(bytes@),
            bytes@.len() < 20 ==> result == Err::<IpHeader, TcpError>(TcpError::MalformedHeader),
            bytes@.len() > 0 && bytes@[0] / 0x10 != 4 ==> result == Err::<IpHeader, TcpError>(
                TcpError::MalformedHeader,
            ),
            result matches Ok(header) ==> header.wf() && header.spec_to_bytes() == bytes@.take(20),
    {
        if bytes.len() < 20 {
            return Err(TcpError::MalformedHeader);
        }
        let first = bytes[0];
        assert(first >> 4 == first / 0x10) by (bit_vector);
        assert(first & 0xF == first % 0x10) by (bit_vector);
        let version = first >> 4;
        if version != 4 {
            return Err(TcpError::MalformedHeader);
        }
        let header = IpHeader {
            version_ihl: first,
            tos: bytes[1],
            total_length: u16_from_be(bytes[2], bytes[3]),
            identification: u16_from_be(bytes[4], bytes[5]),
            ip_flags: u16_from_be(bytes[6], bytes[7]),
            time_to_live: bytes[8],
            protocol: bytes[9],
            header_checksum: u16_from_be(bytes[10], bytes[11]),
            src_addr: [bytes[12], bytes[13], bytes[14], bytes[15]],
            dst_addr: [bytes[16], bytes[17], bytes[18], bytes[19]],
        };
        assert(header.src_addr =~= Self::spec_fields(bytes@).src_addr);
        assert(header.dst_addr =~= Self::spec_fields(bytes@).dst_addr);
        let ihl: u8 = (first & 0xF) * 4;
        if ihl < 20 {
            return Err(TcpError::MalformedHeader);
        }
        if header.total_length < ihl as u16 {
            return Err(TcpError::MalformedHeader);
        }
        proof {
            Self::lemma_to_bytes_of_fields(bytes@);
        }
        Ok(header)
    }

    /// Encodes the header as its 20 bytes on the wire.
    pub fn to_bytes(&self) -> (bytes: Vec<u8>)
        ensures
            bytes@ == self.spec_to_bytes(),
            bytes@.len() == 20,
    {
        let mut bytes = Vec::with_capacity(20);
        bytes.push(self.version_ihl);
        bytes.push(self.tos);
        push_u16(&mut bytes, self.total_length);
        push_u16(&mut bytes, self.identification);
        push_u16(&mut bytes, self.ip_flags);
        bytes.push(self.time_to_live);
        bytes.push(self.protocol);
        push_u16(&mut bytes, self.header_checksum);
        push_all(&mut bytes, self.src_addr.as_slice());
        push_all(&mut bytes, self.dst_addr.as_slice());
        assert(bytes@ =~= self.spec_to_bytes());
        bytes
    }

    /// Encoding the fields read from 20 bytes gives those bytes again.
    pub proof fn lemma_to_bytes_of_fields(bytes: Seq<u8>)
        requires
            bytes.len() >= 20,
        ensures
            Self::spec_fields(bytes).spec_to_bytes() == bytes.take(20),
    {
        lemma_be16_bytes_of_be16(bytes[2], bytes[3]);
        lemma_be16_bytes_of_be16(bytes[4], bytes[5]);
        lemma_be16_bytes_of_be16(bytes[6], bytes[7]);
        lemma_be16_bytes_of_be16(bytes[10], bytes[11]);
        assert(Self::spec_fields(bytes).spec_to_bytes() =~= bytes.take(20));
    }

    /// Decoding undoes encoding: a well-formed header comes back from its
    /// own bytes unchanged.
    pub proof fn lemma_round_trip(self)
        requires
            self.wf(),
        ensures
            self.spec_to_bytes().len() == 20,
            Self::spec_from_bytes(self.spec_to_bytes()) == Ok::<IpHeader, TcpError>(self),
    {
        let bytes = self.spec_to_bytes();
        let back = Self::spec_fields(bytes);
        lemma_be16_round_trip(self.total_length);
        lemma_be16_round_trip(self.identification);
        lemma_be16_round_trip(self.ip_flags);
        lemma_be16_round_trip(self.header_checksum);
        assert(back.src_addr =~= self.src_addr);
        assert(back.dst_addr =~= self.dst_addr);
    }

    /// A header verifies itself: take the checksum over the encoding with a
    /// zero checksum field, store it in the header, and the checksum over
    /// the new encoding is zero.
    pub proof fn lemma_checksum_verifies(self)
        requires
            self.header_checksum == 0,
        ensures
            spec_ip_checksum(
                (IpHeader {
                    header_checksum: spec_ip_checksum(self.spec_to_bytes()),
                    ..self
                }).spec_to_bytes(),
            ) == 0,
    {
        let bytes = self.spec_to_bytes();
        let checksum = spec_ip_checksum(bytes);
        let stored = IpHeader { header_checksum: checksum, ..self };
        lemma_ip_checksum_verifies(bytes);
        assert(stored.spec_to_bytes() =~= store_u16(bytes, 10, checksum));
    }
}

impl TcpFlags {
    /// The flags that the low six bits of `flags` stand for.
    pub open spec fn spec_from_raw(flags: u16) -> TcpFlags {
        TcpFlags {
            fin: flags as int % 2 == 1,
            syn: (flags as int / 0x02) % 2 == 1,
            rst: (flags as int / 0x04) % 2 == 1,
            psh: (flags as int / 0x08) % 2 == 1,
            ack: (flags as int / 0x10) % 2 == 1,
            urg: (flags as int / 0x20) % 2 == 1,
        }
    }

    /// The bit pattern of the flags.
    pub open spec fn spec_to_raw(self) -> u16 {
        (bit_value(self.fin, 0x01) + bit_value(self.syn, 0x02) + bit_value(self.rst, 0x04)
            + bit_value(self.psh, 0x08) + bit_value(self.ack, 0x10) + bit_value(
            self.urg,
            0x20,
        )) as u16
    }

    /// Reads the flags from the low six bits of `flags`; higher bits are
    /// ignored.
    pub fn from_raw(flags: u16) -> (result: TcpFlags)
        ensures
            result == Self::spec_from_raw(flags),
    {
        assert((flags & 0x01 != 0) == (flags % 2 == 1)) by (bit_vector);
        assert((flags & 0x02 != 0) == ((flags / 0x02) % 2 == 1)) by (bit_vector);
        assert((flags & 0x04 != 0) == ((flags / 0x04) % 2 == 1)) by (bit_vector);
        assert((flags & 0x08 != 0) == ((flags / 0x08) % 2 == 1)) by (bit_vector);
        assert((flags & 0x10 != 0) == ((flags / 0x10) % 2 == 1)) by (bit_vector);
        assert((flags & 0x20 != 0) == ((flags / 0x20) % 2 == 1)) by (bit_vector);
        TcpFlags {
            fin: flags & 0x01 != 0,
            syn: flags & 0x02 != 0,
            rst: flags & 0x04 != 0,
            psh: flags & 0x08 != 0,
            ack: flags & 0x10 != 0,
            urg: flags & 0x20 != 0,
        }
    }

    /// The bit pattern of the flags: FIN is bit 0, SYN bit 1, RST bit 2, PSH
    /// bit 3, ACK bit 4 and URG bit 5.
    pub fn to_raw(&self) -> (flags: u16)
        ensures
            flags == self.spec_to_raw(),
            flags < 0x40,
    {
        let fin: u16 = if self.fin { 0x01 } else { 0 };
        let syn: u16 = if self.syn { 0x02 } else { 0 };
        let rst: u16 = if self.rst { 0x04 } else { 0 };
        let psh: u16 = if self.psh { 0x08 } else { 0 };
        let ack: u16 = if self.ack { 0x10 } else { 0 };
        let urg: u16 = if self.urg { 0x20 } else { 0 };
        assert(fin | syn | rst | psh | ack | urg == fin + syn + rst + psh + ack + urg)
            by (bit_vector)
            requires
                fin == 0 || fin == 0x01,
                syn == 0 || syn == 0x02,
                rst == 0 || rst == 0x04,
                psh == 0 || psh == 0x08,
                ack == 0 || ack == 0x10,
                urg == 0 || urg == 0x20,
        ;
        fin | syn | rst | psh | ack | urg
    }

    /// The flags survive the trip through their bit pattern.
    pub proof fn lemma_round_trip(self)
        ensures
            Self::spec_from_raw(self.spec_to_raw()) == self,
    {
        let fin = bit_value(self.fin, 0x01) as u16;
        let syn = bit_value(self.syn, 0x02) as u16;
        let rst = bit_value(self.rst, 0x04) as u16;
        let psh = bit_value(self.psh, 0x08) as u16;
        let ack = bit_value(self.ack, 0x10) as u16;
        let urg = bit_value(self.urg, 0x20) as u16;
        let raw = self.spec_to_raw();
        assert(raw == fin + syn + rst + psh + ack + urg);
        assert({
            &&& (raw % 2 == 1) == (fin != 0)
            &&& ((raw / 0x02) % 2 == 1) == (syn != 0)
            &&& ((raw / 0x04) % 2 == 1) == (rst != 0)
            &&& ((raw / 0x08) % 2 == 1) == (psh != 0)
            &&& ((raw / 0x10) % 2 == 1) == (ack != 0)
            &&& ((raw / 0x20) % 2 == 1) == (urg != 0)
        }) by (bit_vector)
            requires
                raw == fin + syn + rst + psh + ack + urg,
                fin == 0 || fin == 0x01,
                syn == 0 || syn == 0x02,
                rst == 0 || rst == 0x04,
                psh == 0 || psh == 0x08,
                ack == 0 || ack == 0x10,
                urg == 0 || urg == 0x20,
        ;
    }

    /// A bit pattern comes back from its flags with its low six bits.
    pub proof fn lemma_raw_round_trip(flags: u16)
        ensures
            Self::spec_from_raw(flags).spec_to_raw() == flags % 0x40,
    {
        assert(flags % 0x40 == flags % 2 + ((flags / 0x02) % 2) * 0x02 + ((flags / 0x04) % 2)
            * 0x04 + ((flags / 0x08) % 2) * 0x08 + ((flags / 0x10) % 2) * 0x10 + ((flags / 0x20)
            % 2) * 0x20) by (bit_vector);
    }
}

impl TcpHeader {
    /// The data offset in 32-bit words, from the top four bits.
    pub open spec fn data_offset(self) -> int {
        self.data_offset_flags as int / 0x1000
    }

    /// A header is well formed when its data offset is at least five words,
    /// the length of a header without options.
    pub open spec fn wf(self) -> bool {
        self.data_offset() >= 5
    }

    /// The control bits of the header.
    pub open spec fn spec_get_flags(self) -> TcpFlags {
        TcpFlags::spec_from_raw((self.data_offset_flags as int % 0x40) as u16)
    }

    /// The header that [`TcpHeader::new`] builds.
    pub open spec fn spec_new(
        src_port: u16,
        dst_port: u16,
        seq_num: u32,
        ack_num: u32,
        syn: bool,
        ack: bool,
        fin: bool,
    ) -> TcpHeader {
        TcpHeader {
            src_port,
            dst_port,
            seq_num,
            ack_num,
            data_offset_flags: (0x5000 + bit_value(syn, 0x02) + bit_value(ack, 0x10) + bit_value(
                fin,
                0x01,
            )) as u16,
            window: 65535,
            checksum: 0,
            urgent_pointer: 0,
        }
    }

    /// The 20 bytes of the header on the wire.
    pub open spec fn spec_to_bytes(self) -> Seq<u8> {
        be16_bytes(self.src_port) + be16_bytes(self.dst_port) + be32_bytes(self.seq_num)
            + be32_bytes(self.ack_num) + be16_bytes(self.data_offset_flags) + be16_bytes(
            self.window,
        ) + be16_bytes(self.checksum) + be16_bytes(self.urgent_pointer)
    }

    /// The fields that the first 20 bytes of `bytes` spell out, unchecked.
    pub open spec fn spec_fields(bytes: Seq<u8>) -> TcpHeader {
        TcpHeader {
            src_port: be16(bytes[0], bytes[1]),
            dst_port: be16(bytes[2], bytes[3]),
            seq_num: be32(bytes[4], bytes[5], bytes[6], bytes[7]),
            ack_num: be32(bytes[8], bytes[9], bytes[10], bytes[11]),
            data_offset_flags: be16(bytes[12], bytes[13]),
            window: be16(bytes[14], bytes[15]),
            checksum: be16(bytes[16], bytes[17]),
            urgent_pointer: be16(bytes[18], bytes[19]),
        }
    }

    /// What decoding `bytes` gives: the fields of the first 20 bytes if they
    /// are there and well formed.
    pub open spec fn spec_from_bytes(bytes: Seq<u8>) -> Result<TcpHeader, TcpError> {
        if bytes.len() >= 20 && Self::spec_fields(bytes).wf() {
            Ok(Self::spec_fields(bytes))
        } else {
            Err(TcpError::MalformedHeader)
        }
    }

    /// A header without options: data offset 5, the largest window, no
    /// checksum yet, and of the control bits only those asked for.
    pub fn new(
        src_port: u16,
        dst_port: u16,
        seq_num: u32,
        ack_num: u32,
        syn: bool,
        ack: bool,
        fin: bool,
    ) -> (header: TcpHeader)
        ensures
            header == Self::spec_new(src_port, dst_port, seq_num, ack_num, syn, ack, fin),
            header.wf(),
            header.spec_get_flags() == (TcpFlags {
                syn,
                fin,
                rst: false,
                psh: false,
                ack,
                urg: false,
            }),
    {
        let syn_bit: u16 = if syn { 0x0002 } else { 0 };
        let ack_bit: u16 = if ack { 0x0010 } else { 0 };
        let fin_bit: u16 = if fin { 0x0001 } else { 0 };
        assert(0x5000u16 | syn_bit | ack_bit | fin_bit == 0x5000u16 + syn_bit + ack_bit + fin_bit)
            by (bit_vector)
            requires
                syn_bit == 0 || syn_bit == 0x02,
                ack_bit == 0 || ack_bit == 0x10,
                fin_bit == 0 || fin_bit == 0x01,
        ;
        TcpHeader {
            src_port,
            dst_port,
            seq_num,
            ack_num,
            data_offset_flags: 0x5000 | syn_bit | ack_bit | fin_bit,
            window: 65535,
            checksum: 0,
            urgent_pointer: 0,
        }
    }

    /// The control bits of the header.
    pub fn get_flags(&self) -> (flags: TcpFlags)
        ensures
            flags == self.spec_get_flags(),
    {
        let raw = self.data_offset_flags;
        assert(raw & 0x3F == raw % 0x40) by (bit_vector);
        TcpFlags::from_raw(raw & 0x3F)
    }

    /// Encodes the header as its 20 bytes on the wire.
    pub fn to_bytes(&self) -> (bytes: Vec<u8>)
        ensures
            bytes@ == self.spec_to_bytes(),
            bytes@.len() == 20,
    {
        let mut bytes = Vec::with_capacity(20);
        push_u16(&mut bytes, self.src_port);
        push_u16(&mut bytes, self.dst_port);
        push_u32(&mut bytes, self.seq_num);
        push_u32(&mut bytes, self.ack_num);
        push_u16(&mut bytes, self.data_offset_flags);
        push_u16(&mut bytes, self.window);
        push_u16(&mut bytes, self.checksum);
        push_u16(&mut bytes, self.urgent_pointer);
        assert(bytes@ =~= self.spec_to_bytes());
        bytes
    }

    /// Decodes a header from the first 20 bytes of `bytes`.
    ///
    /// Fails with [`TcpError::MalformedHeader`] when there are fewer than 20
    /// bytes or the data offset is less than 5.
    pub fn from_bytes(bytes: &[u8]) -> (result: Result<TcpHeader, TcpError>)
        ensures
            result == Self::spec_from_bytes(bytes@),
            bytes@.len() < 20 ==> result == Err::<TcpHeader, TcpError>(TcpError::MalformedHeader),
            result matches Ok(header) ==> header.wf() && header.spec_to_bytes() == bytes@.take(20),
    {
        if bytes.len() < 20 {
            return Err(TcpError::MalformedHeader);
        }
        let header = TcpHeader {
            src_port: u16_from_be(bytes[0], bytes[1]),
            dst_port: u16_from_be(bytes[2], bytes[3]),
            seq_num: u32_from_be(bytes[4], bytes[5], bytes[6], bytes[7]),
            ack_num: u32_from_be(bytes[8], bytes[9], bytes[10], bytes[11]),
            data_offset_flags: u16_from_be(bytes[12], bytes[13]),
            window: u16_from_be(bytes[14], bytes[15]),
            checksum: u16_from_be(bytes[16], bytes[17]),
            urgent_pointer: u16_from_be(bytes[18], bytes[19]),
        };
        let raw = header.data_offset_flags;
        assert((raw >> 12) & 0xF == raw / 0x1000) by (bit_vector);
        let data_offset = (raw >> 12) & 0xF;
        if data_offset < 5 {
            return Err(TcpError::MalformedHeader);
        }
        proof {
            Self::lemma_to_bytes_of_fields(bytes@);
        }
        Ok(header)
    }

    /// Encoding the fields read from 20 bytes gives those bytes again.
    pub proof fn lemma_to_bytes_of_fields(bytes: Seq<u8>)
        requires
            bytes.len() >= 20,
        ensures
            Self::spec_fields(bytes).spec_to_bytes() == bytes.take(20),
    {
        lemma_be16_bytes_of_be16(bytes[0], bytes[1]);
        lemma_be16_bytes_of_be16(bytes[2], bytes[3]);
        lemma_be32_bytes_of_be32(bytes[4], bytes[5], bytes[6], bytes[7]);
        lemma_be32_bytes_of_be32(bytes[8], bytes[9], bytes[10], bytes[11]);
        lemma_be16_bytes_of_be16(bytes[12], bytes[13]);
        lemma_be16_bytes_of_be16(bytes[14], bytes[15]);
        lemma_be16_bytes_of_be16(bytes[16], bytes[17]);
        lemma_be16_bytes_of_be16(bytes[18], bytes[19]);
        assert(Self::spec_fields(bytes).spec_to_bytes() =~= bytes.take(20));
    }

    /// Decoding undoes encoding: a well-formed header comes back from its
    /// own bytes unchanged.
    pub proof fn lemma_round_trip(self)
        requires
            self.wf(),
        ensures
            self.spec_to_bytes().len() == 20,
            Self::spec_from_bytes(self.spec_to_bytes()) == Ok::<TcpHeader, TcpError>(self),
    {
        lemma_be16_round_trip(self.src_port);
        lemma_be16_round_trip(self.dst_port);
        lemma_be32_round_trip(self.seq_num);
        lemma_be32_round_trip(self.ack_num);
        lemma_be16_round_trip(self.data_offset_flags);
        lemma_be16_round_trip(self.window);
        lemma_be16_round_trip(self.checksum);
        lemma_be16_round_trip(self.urgent_pointer);
    }
}

} // verus!
