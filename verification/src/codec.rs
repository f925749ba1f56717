//! IPv4 and TCP header values, their layout on the wire, and the calls into
//! `etherparse` that read and write them.
//!
//! The engine works on the plain header values defined here. `etherparse`
//! does the decoding, the encoding and the checksums; the layout it follows
//! and the Internet checksums it computes are written down as specification
//! functions.

use vstd::prelude::*;
use vstd::slice::slice_subrange;

verus! {

/// Length in bytes of an IPv4 header without options.
pub const IPV4_HEADER_LEN: usize = 20;

/// Length in bytes of a TCP header without options.
pub const TCP_HEADER_LEN: usize = 20;

/// The IPv4 protocol number of TCP.
pub const PROTOCOL_TCP: u8 = 6;

/// The largest payload length an option-less IPv4 header can announce.
pub const IPV4_MAX_PAYLOAD: u16 = 65515;

/// The fields of an IPv4 header that the engine reads and writes.
///
/// Addresses are held as the 32-bit number whose big-endian bytes are the
/// four octets, so `192.168.0.1` is `0xC0A8_0001`.
#[derive(Clone, Copy, Debug, PartialEq, Eq)]
pub struct Ipv4Header {
    pub source: u32,
    pub destination: u32,
    pub time_to_live: u8,
    pub protocol: u8,
    /// Bytes that follow the header and its options.
    pub payload_len: u16,
}

/// The fields of a TCP header that the engine reads and writes.
#[derive(Clone, Copy, Debug, PartialEq, Eq)]
pub struct TcpHeader {
    pub source_port: u16,
    pub destination_port: u16,
    pub sequence_number: u32,
    pub acknowledgment_number: u32,
    pub syn: bool,
    pub ack: bool,
    pub fin: bool,
    pub window_size: u16,
    pub checksum: u16,
}

/// The 16-bit number stored big-endian at `b[i]`, `b[i + 1]`.
pub open spec fn be16_at(b: Seq<u8>, i: int) -> u16 {
    (b[i] * 0x100 + b[i + 1]) as u16
}

/// The 32-bit number stored big-endian at `b[i] .. b[i + 3]`.
pub open spec fn be32_at(b: Seq<u8>, i: int) -> u32 {
    (b[i] * 0x100_0000 + b[i + 1] * 0x1_0000 + b[i + 2] * 0x100 + b[i + 3]) as u32
}

/// The two bytes of `x`, most significant first.
pub open spec fn be16_bytes(x: u16) -> Seq<u8> {
    seq![(x / 0x100) as u8, (x % 0x100) as u8]
}

/// The four bytes of `x`, most significant first.
pub open spec fn be32_bytes(x: u32) -> Seq<u8> {
    seq![
        (x / 0x100_0000) as u8,
        (x / 0x1_0000 % 0x100) as u8,
        (x / 0x100 % 0x100) as u8,
        (x % 0x100) as u8,
    ]
}

/// Length of the IPv4 header that starts `b`, options included: four times
/// the low nibble of the first byte.
pub open spec fn ipv4_header_len(b: Seq<u8>) -> int {
    (b[0] % 16) * 4
}

/// `b` starts with an IPv4 header that can be read: version 4, at least five
/// header words, all of them present, and a total length that covers them.
pub open spec fn ipv4_readable(b: Seq<u8>) -> bool {
    &&& b.len() >= 20
    &&& b[0] / 16 == 4
    &&& b[0] % 16 >= 5
    &&& b.len() >= ipv4_header_len(b)
    &&& be16_at(b, 2) >= ipv4_header_len(b)
}

/// The header values at the start of `b`, and the header's length.
pub open spec fn parse_ipv4(b: Seq<u8>) -> Option<(Ipv4Header, usize)> {
    if ipv4_readable(b) {
        Some(
            (
                Ipv4Header {
                    source: be32_at(b, 12),
                    destination: be32_at(b, 16),
                    time_to_live: b[8],
                    protocol: b[9],
                    payload_len: (be16_at(b, 2) - ipv4_header_len(b)) as u16,
                },
                ipv4_header_len(b) as usize,
            ),
        )
    } else {
        None
    }
}

/// Length of the TCP header that starts `b`, options included: four times
/// the high nibble of byte 12.
pub open spec fn tcp_header_len(b: Seq<u8>) -> int {
    (b[12] / 16) * 4
}

/// `b` starts with a TCP header that can be read: at least five header
/// words, all of them present.
pub open spec fn tcp_readable(b: Seq<u8>) -> bool {
    &&& b.len() >= 20
    &&& b[12] / 16 >= 5
    &&& b.len() >= tcp_header_len(b)
}

/// The header values at the start of `b`, and the header's length. The flags
/// are bits of byte 13: FIN is bit 0, SYN bit 1, ACK bit 4.
pub open spec fn parse_tcp(b: Seq<u8>) -> Option<(TcpHeader, usize)> {
    if tcp_readable(b) {
        Some(
            (
                TcpHeader {
                    source_port: be16_at(b, 0),
                    destination_port: be16_at(b, 2),
                    sequence_number: be32_at(b, 4),
                    acknowledgment_number: be32_at(b, 8),
                    fin: b[13] % 2 == 1,
                    syn: b[13] / 2 % 2 == 1,
                    ack: b[13] / 16 % 2 == 1,
                    window_size: be16_at(b, 14),
                    checksum: be16_at(b, 16),
                },
                tcp_header_len(b) as usize,
            ),
        )
    } else {
        None
    }
}

/// Why a frame is not taken as a TCP segment.
#[derive(Clone, Copy, Debug, PartialEq, Eq)]
pub enum FrameError {
    /// The frame does not start with a readable IPv4 header.
    BadIpv4Header,
    /// The IPv4 header names another protocol than TCP.
    NotTcp,
    /// No readable TCP header follows the IPv4 header.
    BadTcpHeader,
}

/// A frame as a TCP segment: its IPv4 header, its TCP header, and the offset
/// at which its data starts, after both headers and their options.
pub open spec fn parse_segment(frame: Seq<u8>) -> Result<(Ipv4Header, TcpHeader, usize), FrameError> {
    match parse_ipv4(frame) {
        None => Err(FrameError::BadIpv4Header),
        Some((ip, ip_len)) => {
            if ip.protocol != PROTOCOL_TCP {
                Err(FrameError::NotTcp)
            } else {
                match parse_tcp(frame.subrange(ip_len as int, frame.len() as int)) {
                    None => Err(FrameError::BadTcpHeader),
                    Some((h, tcp_len)) => Ok((ip, h, (ip_len + tcp_len) as usize)),
                }
            }
        },
    }
}

/// The flag byte of a header that carries no flags but FIN, SYN and ACK.
pub open spec fn tcp_flags_byte(h: TcpHeader) -> u8 {
    ((if h.fin { 1int } else { 0 }) + (if h.syn { 2int } else { 0 }) + (if h.ack { 16int } else { 0 })) as u8
}

/// The twenty bytes of an option-less TCP header: ports, sequence and
/// acknowledgment numbers, a data offset of five words, the flags, the
/// window, the checksum as `h` holds it, and a zero urgent pointer.
pub open spec fn tcp_wire(h: TcpHeader) -> Seq<u8> {
    be16_bytes(h.source_port) + be16_bytes(h.destination_port) + be32_bytes(h.sequence_number)
        + be32_bytes(h.acknowledgment_number) + seq![0x50u8, tcp_flags_byte(h)] + be16_bytes(
        h.window_size,
    ) + be16_bytes(h.checksum) + seq![0u8, 0u8]
}

/// The twenty bytes of an option-less IPv4 header with header checksum
/// `checksum`: version 4 and five header words, no service bits, the total
/// length, identification zero, "don't fragment" set and offset zero, time
/// to live, protocol, the checksum, and the two addresses.
pub open spec fn ipv4_wire(h: Ipv4Header, checksum: u16) -> Seq<u8> {
    seq![0x45u8, 0u8] + be16_bytes((h.payload_len + 20) as u16) + seq![0u8, 0u8, 0x40u8, 0u8]
        + seq![h.time_to_live, h.protocol] + be16_bytes(checksum) + be32_bytes(h.source)
        + be32_bytes(h.destination)
}

/// The upper 16 bits of `x`.
pub open spec fn hi16(x: u32) -> int {
    x as int / 0x1_0000
}

/// The lower 16 bits of `x`.
pub open spec fn lo16(x: u32) -> int {
    x as int % 0x1_0000
}

/// What is above the lower 16 bits of `x`, added to them.
pub open spec fn fold16(x: int) -> int {
    x % 0x1_0000 + x / 0x1_0000
}

/// The Internet checksum (RFC 1071) of 16-bit words that add up to `sum`:
/// the carries are added back in, twice, and the result is complemented.
pub open spec fn internet_checksum(sum: int) -> u16 {
    (0xFFFF - fold16(fold16(sum))) as u16
}

/// The header checksum of an option-less IPv4 header with these fields, as
/// `ipv4_wire` lays it out: the Internet checksum of its nine 16-bit words
/// other than the checksum itself.
#[verifier::opaque]
pub open spec fn ipv4_header_checksum(
    source: u32,
    destination: u32,
    time_to_live: u8,
    protocol: u8,
    payload_len: u16,
) -> u16 {
    // version with header words and service bits, total length,
    // identification, flags with offset, time to live with protocol, and the
    // addresses
    internet_checksum(
        0x4500 + (payload_len + 20) + 0 + 0x4000 + (time_to_live * 0x100 + protocol) + hi16(source)
            + lo16(source) + hi16(destination) + lo16(destination),
    )
}

/// The checksum of an option-less TCP header with these fields and no
/// payload, sent between these two IPv4 addresses: the Internet checksum of
/// the pseudo-header (the addresses, the protocol number 6 and the TCP length
/// 20) and of the header's words other than the checksum itself.
#[verifier::opaque]
pub open spec fn tcp_ipv4_checksum(
    source: u32,
    destination: u32,
    source_port: u16,
    destination_port: u16,
    sequence_number: u32,
    acknowledgment_number: u32,
    syn: bool,
    ack: bool,
    fin: bool,
    window_size: u16,
) -> u16 {
    let flag_bits = (if fin { 1int } else { 0 }) + (if syn { 2int } else { 0 }) + (if ack {
        16int
    } else {
        0
    });
    // the pseudo-header, then ports, sequence and acknowledgment numbers,
    // data offset with flags, window, and urgent pointer
    internet_checksum(
        hi16(source) + lo16(source) + hi16(destination) + lo16(destination) + 6 + 20 + source_port
            + destination_port + hi16(sequence_number) + lo16(sequence_number) + hi16(
            acknowledgment_number,
        ) + lo16(acknowledgment_number) + (0x5000 + flag_bits) + window_size + 0,
    )
}

/// The TCP checksum of `h` between the addresses of `ip`.
pub open spec fn checksum_of(h: TcpHeader, ip: Ipv4Header) -> u16 {
    tcp_ipv4_checksum(
        ip.source,
        ip.destination,
        h.source_port,
        h.destination_port,
        h.sequence_number,
        h.acknowledgment_number,
        h.syn,
        h.ack,
        h.fin,
        h.window_size,
    )
}

/// The datagram that carries `h` under `ip` with no payload: the IPv4 header
/// with its checksum, then the TCP header as `h` holds it.
pub open spec fn datagram(ip: Ipv4Header, h: TcpHeader) -> Seq<u8> {
    ipv4_wire(
        ip,
        ipv4_header_checksum(ip.source, ip.destination, ip.time_to_live, ip.protocol, ip.payload_len),
    ) + tcp_wire(h)
}

/// Adding the carries back in twice leaves 16 bits, whatever 32-bit sum the
/// words had: the checksum is the complement of a 16-bit number.
pub proof fn lemma_checksum_fits(sum: int)
    requires
        0 <= sum < 0x1_0000_0000,
    ensures
        0 <= fold16(fold16(sum)) <= 0xFFFF,
        internet_checksum(sum) == 0xFFFF - fold16(fold16(sum)),
{
}

/// Reading back what was written gives the header that was written: the
/// bytes of `h`, whatever follows them, hold `h` in a header of twenty bytes.
pub proof fn lemma_tcp_round_trip(h: TcpHeader, rest: Seq<u8>)
    ensures
        tcp_wire(h).len() == TCP_HEADER_LEN,
        parse_tcp(tcp_wire(h) + rest) == Some((h, TCP_HEADER_LEN)),
{
    let b = tcp_wire(h) + rest;
    assert(b[12] == 0x50u8);
    assert(b[13] == tcp_flags_byte(h));
}

/// Reading back what was written gives the header that was written: the
/// bytes of `h` with any checksum, whatever follows them, hold `h` in a
/// header of twenty bytes.
pub proof fn lemma_ipv4_round_trip(h: Ipv4Header, checksum: u16, rest: Seq<u8>)
    requires
        h.payload_len <= IPV4_MAX_PAYLOAD,
    ensures
        ipv4_wire(h, checksum).len() == IPV4_HEADER_LEN,
        parse_ipv4(ipv4_wire(h, checksum) + rest) == Some((h, IPV4_HEADER_LEN)),
{
    let b = ipv4_wire(h, checksum) + rest;
    assert(b[0] == 0x45u8);
}

/// Reads the IPv4 header at the start of `buf` with
/// `etherparse::Ipv4HeaderSlice::from_slice`.
///
/// Trusted: the call fails exactly when `ipv4_readable` is false, and the
/// slice it returns holds the fields at the offsets `parse_ipv4` gives.
#[verifier::external_body]
pub(crate) fn read_ipv4_header(buf: &[u8]) -> (r: Option<(Ipv4Header, usize)>)
    ensures
        r == parse_ipv4(buf@),
{
    match etherparse::Ipv4HeaderSlice::from_slice(buf) {
        Ok(s) => {
            let h = s.to_header();
            let source = u32::from_be_bytes(h.source);
            let destination = u32::from_be_bytes(h.destination);
            let (time_to_live, protocol, payload_len) = (h.time_to_live, h.protocol, h.payload_len);
            Some((Ipv4Header { source, destination, time_to_live, protocol, payload_len }, s.slice().len()))
        },
        Err(_) => None,
    }
}

/// Reads the TCP header at the start of `buf` with
/// `etherparse::TcpHeaderSlice::from_slice`.
///
/// Trusted: the call fails exactly when `tcp_readable` is false, and the
/// slice it returns holds the fields at the offsets `parse_tcp` gives.
#[verifier::external_body]
pub(crate) fn read_tcp_header(buf: &[u8]) -> (r: Option<(TcpHeader, usize)>)
    ensures
        r == parse_tcp(buf@),
{
    match etherparse::TcpHeaderSlice::from_slice(buf) {
        Ok(s) => {
            let (source_port, destination_port) = (s.source_port(), s.destination_port());
            let (sequence_number, acknowledgment_number) = (s.sequence_number(), s.acknowledgment_number());
            let (syn, ack, fin) = (s.syn(), s.ack(), s.fin());
            let (window_size, checksum) = (s.window_size(), s.checksum());
            let h = TcpHeader { source_port, destination_port, sequence_number, acknowledgment_number, syn, ack, fin, window_size, checksum };
            Some((h, s.slice().len()))
        },
        Err(_) => None,
    }
}

/// Writes `h` as an option-less IPv4 header with `etherparse::Ipv4Header::write`,
/// which fills in the header checksum.
///
/// Trusted: for a payload length the total-length field can hold, the call
/// writes the twenty bytes of `ipv4_wire`, and the checksum among them is the
/// one `ipv4_header_checksum` spells out.
#[verifier::external_body]
pub(crate) fn ipv4_header_bytes(h: &Ipv4Header) -> (out: Vec<u8>)
    requires
        h.payload_len <= IPV4_MAX_PAYLOAD,
    ensures
        out@ == ipv4_wire(
            *h,
            ipv4_header_checksum(h.source, h.destination, h.time_to_live, h.protocol, h.payload_len),
        ),
{
    let mut e = etherparse::Ipv4Header::new(
        h.payload_len,
        h.time_to_live,
        etherparse::IpTrafficClass::Tcp,
        h.source.to_be_bytes(),
        h.destination.to_be_bytes(),
    );
    e.protocol = h.protocol;
    let mut out = Vec::new();
    let _ = e.write(&mut out);
    out
}

/// Computes the checksum of `h` over the IPv4 pseudo-header and no payload
/// with `etherparse::TcpHeader::calc_checksum_ipv4`.
///
/// Trusted: with an option-less header and an empty payload the call
/// succeeds, and its result is the sum that `tcp_ipv4_checksum` spells out,
/// folded and complemented.
#[verifier::external_body]
pub(crate) fn tcp_checksum(h: &TcpHeader, ip: &Ipv4Header) -> (r: Option<u16>)
    ensures
        r == Some(
            tcp_ipv4_checksum(
                ip.source,
                ip.destination,
                h.source_port,
                h.destination_port,
                h.sequence_number,
                h.acknowledgment_number,
                h.syn,
                h.ack,
                h.fin,
                h.window_size,
            ),
        ),
{
    let mut e = etherparse::TcpHeader::new(h.source_port, h.destination_port, h.sequence_number, h.window_size);
    e.acknowledgment_number = h.acknowledgment_number;
    e.syn = h.syn;
    e.ack = h.ack;
    e.fin = h.fin;
    let src = ip.source.to_be_bytes();
    let dst = ip.destination.to_be_bytes();
    let outer = etherparse::Ipv4Header::new(0, ip.time_to_live, etherparse::IpTrafficClass::Tcp, src, dst);
    e.calc_checksum_ipv4(&outer, &[]).ok()
}

/// Writes `h` as an option-less TCP header with `etherparse::TcpHeader::write`,
/// which stores the checksum field as it is.
///
/// Trusted: the call writes the twenty bytes of `tcp_wire`.
#[verifier::external_body]
pub(crate) fn tcp_header_bytes(h: &TcpHeader) -> (out: Vec<u8>)
    ensures
        out@ == tcp_wire(*h),
{
    let mut e = etherparse::TcpHeader::new(h.source_port, h.destination_port, h.sequence_number, h.window_size);
    e.acknowledgment_number = h.acknowledgment_number;
    e.syn = h.syn;
    e.ack = h.ack;
    e.fin = h.fin;
    e.checksum = h.checksum;
    let mut out = Vec::new();
    let _ = e.write(&mut out);
    out
}


/// Reads a frame as a TCP segment over IPv4: both headers, and the offset at
/// which the data starts. The offset is never beyond the frame's end.
pub fn read_segment(frame: &[u8]) -> (r: Result<(Ipv4Header, TcpHeader, usize), FrameError>)
    ensures
        r == parse_segment(frame@),
        r matches Ok((_, _, data_at)) ==> data_at <= frame@.len(),
{
    match read_ipv4_header(frame) {
        None => Err(FrameError::BadIpv4Header),
        Some((iph, ip_len)) => {
            if iph.protocol != PROTOCOL_TCP {
                return Err(FrameError::NotTcp);
            }
            match read_tcp_header(slice_subrange(frame, ip_len, frame.len())) {
                None => Err(FrameError::BadTcpHeader),
                Some((tcph, tcp_len)) => Ok((iph, tcph, ip_len + tcp_len)),
            }
        },
    }
}

} // verus!
