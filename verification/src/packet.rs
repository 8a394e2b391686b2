//! Decoding of captured frames: Ethernet II, IPv4, IPv6, ARP, TCP (with its
//! options) and UDP.
//!
//! Every decoder takes the bytes that start at its header and returns the
//! decoded header together with the bytes that follow it.  The predicates
//! `*_accepts` say exactly which inputs a decoder takes, the relations
//! `*_decodes` say how each field is read from the bytes, and `*_len` says
//! how many bytes the header occupies.
use vstd::prelude::*;
use vstd::slice::slice_subrange;
use vstd::slice::slice_to_vec;
use crate::bytes::{be16, be32, byte_to_2x4bits, lemma_be16_bits, lemma_be32_bits, read_be16, read_be32};

verus! {

/// Why a frame could not be decoded.
#[derive(Debug)]
pub enum ParseError {
    InvalidSomething,
    MalformedPacket,
    UnsupportedProtocol,
}

/// Ethernet II header.
#[derive(Debug)]
pub struct EthernetHeader {
    pub dst_mac: [u8; 6],
    pub src_mac: [u8; 6],
    pub ether_type: u16,
}

/// EtherType of IPv4.
pub const ETHER_TYPE_IPV4: u16 = 0x0800;
/// EtherType of IPv6.
pub const ETHER_TYPE_IPV6: u16 = 0x86DD;
/// EtherType of ARP.
pub const ETHER_TYPE_ARP: u16 = 0x0806;

/// The label shown for an EtherType.
pub open spec fn ether_type_label(ether_type: u16) -> Seq<char> {
    if ether_type == ETHER_TYPE_IPV4 {
        "IPv4"@
    } else if ether_type == ETHER_TYPE_IPV6 {
        "IPv6"@
    } else if ether_type == ETHER_TYPE_ARP {
        "ARP"@
    } else {
        "Unknown: 0x"@
    }
}

impl EthernetHeader {
    /// Name of the protocol carried by the frame.
    pub fn ether_type_str(&self) -> (s: String)
        ensures
            s@ == ether_type_label(self.ether_type),
    {
        broadcast use vstd::string::group_string_axioms;

        let label = if self.ether_type == ETHER_TYPE_IPV4 {
            "IPv4"
        } else if self.ether_type == ETHER_TYPE_IPV6 {
            "IPv6"
        } else if self.ether_type == ETHER_TYPE_ARP {
            "ARP"
        } else {
            "Unknown: 0x"
        };
        label.to_string()
    }
}

/// IPv4 header.  The addresses are kept as their four octets.
#[derive(Debug)]
pub struct IPv4Header {
    pub version: u8,
    pub ihl: u8,
    pub dscp: u8,
    pub ecn: u8,
    pub total_length: u16,
    pub identification: u16,
    pub reserved: u8,
    pub dont_fragment: u8,
    pub more_fragments: u8,
    pub fragment_offset: u16,
    pub ttl: u8,
    pub protocol: u8,
    pub checksum: u16,
    pub src: [u8; 4],
    pub dst: [u8; 4],
}

/// IPv6 fixed header.
#[derive(Debug)]
pub struct IPv6Header {
    pub version: u8,
    pub traffic_class: u8,
    pub flow_label: u32,
    pub payload_length: u16,
    pub next_header: u8,
    pub hop_limit: u8,
    pub src: [u8; 16],
    pub dst: [u8; 16],
}

/// ARP packet.
#[derive(Debug)]
pub struct ArpHeader {
    pub hardware_type: u16,
    pub protocol_type: u16,
    pub hardware_len: u8,
    pub protocol_len: u8,
    pub operation: u16,
    pub sender_hardware_addr: Vec<u8>,
    pub sender_protocol_addr: Vec<u8>,
    pub target_hardware_addr: Vec<u8>,
    pub target_protocol_addr: Vec<u8>,
}

/// UDP header.
#[derive(Debug)]
pub struct UdpHeader {
    pub src_port: u16,
    pub dst_port: u16,
    pub length: u16,
    pub checksum: u16,
}

// ---------------------------------------------------------------- Ethernet

pub open spec fn ethernet_accepts(raw: Seq<u8>) -> bool {
    raw.len() >= 14
}

pub open spec fn ethernet_decodes(h: EthernetHeader, raw: Seq<u8>) -> bool {
    &&& h.dst_mac@ == raw.subrange(0, 6)
    &&& h.src_mac@ == raw.subrange(6, 12)
    &&& h.ether_type == be16(raw[12], raw[13])
}

/// Decodes the Ethernet II header at the start of `raw`.
pub fn parse_ethernet(raw: &[u8]) -> (r: Result<(EthernetHeader, &[u8]), ParseError>)
    ensures
        r is Ok <==> ethernet_accepts(raw@),
        r matches Ok((h, rest)) ==> ethernet_decodes(h, raw@) && rest@ == raw@.skip(14),
        r matches Err(e) ==> e is MalformedPacket,
{
    if raw.len() < 14 {
        return Err(ParseError::MalformedPacket);
    }
    let dst_mac = [raw[0], raw[1], raw[2], raw[3], raw[4], raw[5]];
    let src_mac = [raw[6], raw[7], raw[8], raw[9], raw[10], raw[11]];
    let ether_type = read_be16(raw, 12);
    let rest = slice_subrange(raw, 14, raw.len());
    let h = EthernetHeader { src_mac, dst_mac, ether_type };
    assert(h.dst_mac@ =~= raw@.subrange(0, 6));
    assert(h.src_mac@ =~= raw@.subrange(6, 12));
    Ok((h, rest))
}

// -------------------------------------------------------------------- IPv4

/// Header length in bytes announced by the IHL field.
pub open spec fn ipv4_len(raw: Seq<u8>) -> int {
    (raw[0] % 16) as int * 4
}

pub open spec fn ipv4_accepts(raw: Seq<u8>) -> bool {
    &&& raw.len() >= 20
    &&& raw[0] / 16 == 4
    &&& raw[0] % 16 >= 5
    &&& raw.len() >= ipv4_len(raw)
}

pub open spec fn ipv4_decodes(h: IPv4Header, raw: Seq<u8>) -> bool {
    &&& h.version == raw[0] / 16
    &&& h.ihl == raw[0] % 16
    &&& h.dscp == raw[1] / 4
    &&& h.ecn == raw[1] % 4
    &&& h.total_length == be16(raw[2], raw[3])
    &&& h.identification == be16(raw[4], raw[5])
    &&& h.reserved == raw[6] / 128
    &&& h.dont_fragment == (raw[6] / 64) % 2
    &&& h.more_fragments == (raw[6] / 32) % 2
    &&& h.fragment_offset == be16(raw[6], raw[7]) % 8192
    &&& h.ttl == raw[8]
    &&& h.protocol == raw[9]
    &&& h.checksum == be16(raw[10], raw[11])
    &&& h.src@ == raw.subrange(12, 16)
    &&& h.dst@ == raw.subrange(16, 20)
}

/// Decodes the IPv4 header at the start of `raw`; the rest starts after the
/// header length announced by the IHL field (options are skipped).
pub fn parse_ipv4(raw: &[u8]) -> (r: Result<(IPv4Header, &[u8]), ParseError>)
    ensures
        r is Ok <==> ipv4_accepts(raw@),
        r matches Ok((h, rest)) ==> ipv4_decodes(h, raw@) && rest@ == raw@.skip(ipv4_len(raw@)),
        r matches Err(e) ==> e is MalformedPacket,
{
    if raw.len() < 20 {
        return Err(ParseError::MalformedPacket);
    }
    let halves = byte_to_2x4bits(raw[0]);
    let version = halves[0];
    let ihl = halves[1];
    if version != 4 {
        return Err(ParseError::MalformedPacket);
    }
    if ihl < 5 {
        return Err(ParseError::MalformedPacket);
    }
    let header_len = ihl as usize * 4;
    if raw.len() < header_len {
        return Err(ParseError::MalformedPacket);
    }
    let dscp = raw[1] / 4;
    let ecn = raw[1] % 4;
    let total_length = read_be16(raw, 2);
    let identification = read_be16(raw, 4);
    let reserved = raw[6] / 128;
    let dont_fragment = (raw[6] / 64) % 2;
    let more_fragments = (raw[6] / 32) % 2;
    let fragment_offset = read_be16(raw, 6) % 8192;
    let ttl = raw[8];
    let protocol = raw[9];
    let checksum = read_be16(raw, 10);
    let src = [raw[12], raw[13], raw[14], raw[15]];
    let dst = [raw[16], raw[17], raw[18], raw[19]];
    let header = IPv4Header {
        version,
        ihl,
        dscp,
        ecn,
        total_length,
        identification,
        reserved,
        dont_fragment,
        more_fragments,
        fragment_offset,
        ttl,
        protocol,
        checksum,
        src,
        dst,
    };
    assert(header.src@ =~= raw@.subrange(12, 16));
    assert(header.dst@ =~= raw@.subrange(16, 20));
    Ok((header, slice_subrange(raw, header_len, raw.len())))
}

// -------------------------------------------------------------------- IPv6

pub open spec fn ipv6_accepts(raw: Seq<u8>) -> bool {
    raw.len() >= 40 && raw[0] / 16 == 6
}

pub open spec fn ipv6_decodes(h: IPv6Header, raw: Seq<u8>) -> bool {
    &&& h.version == raw[0] / 16
    &&& h.traffic_class == (raw[0] % 16) * 16 + raw[1] / 16
    &&& h.flow_label == (raw[1] % 16) as int * 65536 + raw[2] as int * 256 + raw[3] as int
    &&& h.payload_length == be16(raw[4], raw[5])
    &&& h.next_header == raw[6]
    &&& h.hop_limit == raw[7]
    &&& h.src@ == raw.subrange(8, 24)
    &&& h.dst@ == raw.subrange(24, 40)
}

/// Decodes the IPv6 fixed header (forty bytes) at the start of `raw`.
pub fn parse_ipv6(raw: &[u8]) -> (r: Result<(IPv6Header, &[u8]), ParseError>)
    ensures
        r is Ok <==> ipv6_accepts(raw@),
        r matches Ok((h, rest)) ==> ipv6_decodes(h, raw@) && rest@ == raw@.skip(40),
        r matches Err(e) ==> e is MalformedPacket,
{
    if raw.len() < 40 {
        return Err(ParseError::MalformedPacket);
    }
    let version = raw[0] / 16;
    if version != 6 {
        return Err(ParseError::MalformedPacket);
    }
    let traffic_class = (raw[0] % 16) * 16 + raw[1] / 16;
    let flow_label = (raw[1] % 16) as u32 * 65536 + raw[2] as u32 * 256 + raw[3] as u32;
    let payload_length = read_be16(raw, 4);
    let next_header = raw[6];
    let hop_limit = raw[7];
    let src = [
        raw[8], raw[9], raw[10], raw[11], raw[12], raw[13], raw[14], raw[15],
        raw[16], raw[17], raw[18], raw[19], raw[20], raw[21], raw[22], raw[23],
    ];
    let dst = [
        raw[24], raw[25], raw[26], raw[27], raw[28], raw[29], raw[30], raw[31],
        raw[32], raw[33], raw[34], raw[35], raw[36], raw[37], raw[38], raw[39],
    ];
    let header = IPv6Header {
        version,
        traffic_class,
        flow_label,
        payload_length,
        next_header,
        hop_limit,
        src,
        dst,
    };
    assert(header.src@ =~= raw@.subrange(8, 24));
    assert(header.dst@ =~= raw@.subrange(24, 40));
    Ok((header, slice_subrange(raw, 40, raw.len())))
}

// --------------------------------------------------------------------- UDP

pub open spec fn udp_length(raw: Seq<u8>) -> int {
    be16(raw[4], raw[5])
}

pub open spec fn udp_accepts(raw: Seq<u8>) -> bool {
    &&& raw.len() >= 8
    &&& udp_length(raw) >= 8
    &&& raw.len() >= udp_length(raw)
}

pub open spec fn udp_decodes(h: UdpHeader, raw: Seq<u8>) -> bool {
    &&& h.src_port == be16(raw[0], raw[1])
    &&& h.dst_port == be16(raw[2], raw[3])
    &&& h.length == udp_length(raw)
    &&& h.checksum == be16(raw[6], raw[7])
}

/// Decodes the UDP header at the start of `raw`.  The payload is the part
/// of the datagram that its length field covers; bytes past it are dropped.
pub fn parse_udp(raw: &[u8]) -> (r: Result<(UdpHeader, &[u8]), ParseError>)
    ensures
        r is Ok <==> udp_accepts(raw@),
        r matches Ok((h, payload)) ==> udp_decodes(h, raw@) && payload@ == raw@.subrange(
            8,
            udp_length(raw@),
        ),
        r matches Err(e) ==> e is MalformedPacket,
{
    if raw.len() < 8 {
        return Err(ParseError::MalformedPacket);
    }
    let src_port = read_be16(raw, 0);
    let dst_port = read_be16(raw, 2);
    let length = read_be16(raw, 4);
    let checksum = read_be16(raw, 6);
    if length < 8 {
        return Err(ParseError::MalformedPacket);
    }
    let length = length as usize;
    if raw.len() < length {
        return Err(ParseError::MalformedPacket);
    }
    let header = UdpHeader { src_port, dst_port, length: length as u16, checksum };
    Ok((header, slice_subrange(raw, 8, length)))
}

// --------------------------------------------------------------------- ARP

/// Bytes taken by an ARP packet: the fixed part and both address pairs.
pub open spec fn arp_len(raw: Seq<u8>) -> int {
    8 + 2 * raw[4] as int + 2 * raw[5] as int
}

pub open spec fn arp_accepts(raw: Seq<u8>) -> bool {
    raw.len() >= 8 && raw.len() >= arp_len(raw)
}

pub open spec fn arp_decodes(h: ArpHeader, raw: Seq<u8>) -> bool {
    let hl = raw[4] as int;
    let pl = raw[5] as int;
    &&& h.hardware_type == be16(raw[0], raw[1])
    &&& h.protocol_type == be16(raw[2], raw[3])
    &&& h.hardware_len == raw[4]
    &&& h.protocol_len == raw[5]
    &&& h.operation == be16(raw[6], raw[7])
    &&& h.sender_hardware_addr@ == raw.subrange(8, 8 + hl)
    &&& h.sender_protocol_addr@ == raw.subrange(8 + hl, 8 + hl + pl)
    &&& h.target_hardware_addr@ == raw.subrange(8 + hl + pl, 8 + 2 * hl + pl)
    &&& h.target_protocol_addr@ == raw.subrange(8 + 2 * hl + pl, 8 + 2 * hl + 2 * pl)
}

/// Decodes an ARP packet at the start of `raw`, with addresses of the
/// lengths that the packet announces.
pub fn parse_arp(raw: &[u8]) -> (r: Result<(ArpHeader, &[u8]), ParseError>)
    ensures
        r is Ok <==> arp_accepts(raw@),
        r matches Ok((h, rest)) ==> arp_decodes(h, raw@) && rest@ == raw@.skip(arp_len(raw@)),
        r matches Err(e) ==> e is MalformedPacket,
{
    if raw.len() < 8 {
        return Err(ParseError::MalformedPacket);
    }
    let hardware_type = read_be16(raw, 0);
    let protocol_type = read_be16(raw, 2);
    let hardware_len = raw[4];
    let protocol_len = raw[5];
    let operation = read_be16(raw, 6);
    let hlen = hardware_len as usize;
    let plen = protocol_len as usize;
    let header_size = 8 + hlen + plen + hlen + plen;
    if raw.len() < header_size {
        return Err(ParseError::MalformedPacket);
    }
    let mut offset: usize = 8;
    let sender_hardware_addr = slice_to_vec(slice_subrange(raw, offset, offset + hlen));
    offset += hlen;
    let sender_protocol_addr = slice_to_vec(slice_subrange(raw, offset, offset + plen));
    offset += plen;
    let target_hardware_addr = slice_to_vec(slice_subrange(raw, offset, offset + hlen));
    offset += hlen;
    let target_protocol_addr = slice_to_vec(slice_subrange(raw, offset, offset + plen));
    offset += plen;
    let header = ArpHeader {
        hardware_type,
        protocol_type,
        hardware_len,
        protocol_len,
        operation,
        sender_hardware_addr,
        sender_protocol_addr,
        target_hardware_addr,
        target_protocol_addr,
    };
    Ok((header, slice_subrange(raw, offset, raw.len())))
}


// --------------------------------------------------------------------- TCP

/// TCP control flags, one per bit of the flags byte.
#[derive(Debug)]
pub struct TcpFlags {
    pub fin: bool,
    pub syn: bool,
    pub rst: bool,
    pub psh: bool,
    pub ack: bool,
    pub urg: bool,
    pub ece: bool,
    pub cwr: bool,
}

/// A TCP option as it appears in the options area of the header.
#[derive(Debug)]
pub enum TcpOption {
    End,
    NoOperation,
    MaximumSegmentSize { value: u16 },
    WindowScale { shift: u8 },
    SackPermitted,
    Timestamp { ts_value: u32, ts_echo: u32 },
    Unknown { kind: u8, data: Vec<u8> },
}

/// Mathematical model of a `TcpOption`: the same, with the unknown
/// option's data as a sequence.
pub enum TcpOptionModel {
    End,
    NoOperation,
    MaximumSegmentSize { value: u16 },
    WindowScale { shift: u8 },
    SackPermitted,
    Timestamp { ts_value: u32, ts_echo: u32 },
    Unknown { kind: u8, data: Seq<u8> },
}

impl View for TcpOption {
    type V = TcpOptionModel;

    open spec fn view(&self) -> TcpOptionModel {
        match self {
            TcpOption::End => TcpOptionModel::End,
            TcpOption::NoOperation => TcpOptionModel::NoOperation,
            TcpOption::MaximumSegmentSize { value } => TcpOptionModel::MaximumSegmentSize {
                value: *value,
            },
            TcpOption::WindowScale { shift } => TcpOptionModel::WindowScale { shift: *shift },
            TcpOption::SackPermitted => TcpOptionModel::SackPermitted,
            TcpOption::Timestamp { ts_value, ts_echo } => TcpOptionModel::Timestamp {
                ts_value: *ts_value,
                ts_echo: *ts_echo,
            },
            TcpOption::Unknown { kind, data } => TcpOptionModel::Unknown { kind: *kind, data: data@ },
        }
    }
}

/// The models of a list of options.
pub open spec fn options_model(v: Seq<TcpOption>) -> Seq<TcpOptionModel> {
    v.map_values(|o: TcpOption| o@)
}

/// The option of the given kind whose data (the bytes after kind and length)
/// is `data`, or `None` where the data has the wrong size for its kind.
pub open spec fn tcp_option_from(kind: u8, data: Seq<u8>) -> Option<TcpOptionModel> {
    if kind == 2 {
        if data.len() == 2 {
            Some(TcpOptionModel::MaximumSegmentSize { value: be16(data[0], data[1]) as u16 })
        } else {
            None
        }
    } else if kind == 3 {
        if data.len() == 1 {
            Some(TcpOptionModel::WindowScale { shift: data[0] })
        } else {
            None
        }
    } else if kind == 4 {
        Some(TcpOptionModel::SackPermitted)
    } else if kind == 8 {
        if data.len() == 8 {
            Some(
                TcpOptionModel::Timestamp {
                    ts_value: be32(data[0], data[1], data[2], data[3]) as u32,
                    ts_echo: be32(data[4], data[5], data[6], data[7]) as u32,
                },
            )
        } else {
            None
        }
    } else {
        Some(TcpOptionModel::Unknown { kind, data })
    }
}

/// `Some(p + r)` where `tail` is `Some(r)`; `None` where it is `None`.
pub open spec fn prepend_options(p: Seq<TcpOptionModel>, tail: Option<Seq<TcpOptionModel>>) -> Option<
    Seq<TcpOptionModel>,
> {
    match tail {
        Some(r) => Some(p + r),
        None => None,
    }
}

/// The options encoded in `s`, read up to the end-of-options marker or the
/// end of `s`; `None` where an option is cut short or malformed.
pub open spec fn tcp_options_model(s: Seq<u8>) -> Option<Seq<TcpOptionModel>>
    decreases s.len(),
{
    if s.len() == 0 {
        Some(Seq::empty())
    } else if s[0] == 0 {
        Some(seq![TcpOptionModel::End])
    } else if s[0] == 1 {
        prepend_options(seq![TcpOptionModel::NoOperation], tcp_options_model(s.skip(1)))
    } else if s.len() < 2 || s[1] < 2 || s[1] as int > s.len() {
        None
    } else {
        match tcp_option_from(s[0], s.subrange(2, s[1] as int)) {
            Some(o) => prepend_options(seq![o], tcp_options_model(s.skip(s[1] as int))),
            None => None,
        }
    }
}

/// Decodes the options area of a TCP header.
pub fn parse_tcp_options(raw: &[u8]) -> (r: Result<Vec<TcpOption>, ParseError>)
    ensures
        r is Ok <==> tcp_options_model(raw@) is Some,
        r matches Ok(v) ==> tcp_options_model(raw@) == Some(options_model(v@)),
        r matches Err(e) ==> e is MalformedPacket,
{
    let mut options: Vec<TcpOption> = Vec::new();
    let mut offset: usize = 0;
    assert(raw@.skip(0) =~= raw@);
    assert(options_model(options@) =~= Seq::<TcpOptionModel>::empty());
    while offset < raw.len()
        invariant
            offset <= raw@.len(),
            tcp_options_model(raw@) == prepend_options(
                options_model(options@),
                tcp_options_model(raw@.skip(offset as int)),
            ),
        decreases raw@.len() - offset,
    {
        let ghost s = raw@.skip(offset as int);
        let ghost before = options_model(options@);
        let kind = raw[offset];
        assert(s[0] == kind);
        if kind == 0 {
            options.push(TcpOption::End);
            assert(options_model(options@) =~= before + seq![TcpOptionModel::End]);
            return Ok(options);
        } else if kind == 1 {
            options.push(TcpOption::NoOperation);
            assert(s.skip(1) =~= raw@.skip(offset + 1));
            assert(options_model(options@) =~= before + seq![TcpOptionModel::NoOperation]);
            proof {
                let t = tcp_options_model(s.skip(1));
                if t is Some {
                    assert(before + (seq![TcpOptionModel::NoOperation] + t->0) =~= (before
                        + seq![TcpOptionModel::NoOperation]) + t->0);
                }
            }
            offset += 1;
        } else {
            if offset + 1 >= raw.len() {
                return Err(ParseError::MalformedPacket);
            }
            assert(s[1] == raw@[offset + 1]);
            let length = raw[offset + 1] as usize;
            if length < 2 || length > raw.len() - offset {
                return Err(ParseError::MalformedPacket);
            }
            let data = slice_subrange(raw, offset + 2, offset + length);
            assert(data@ =~= s.subrange(2, length as int));
            let opt: TcpOption;
            if kind == 2 {
                if data.len() != 2 {
                    return Err(ParseError::MalformedPacket);
                }
                let value = read_be16(data, 0);
                opt = TcpOption::MaximumSegmentSize { value };
            } else if kind == 3 {
                if data.len() != 1 {
                    return Err(ParseError::MalformedPacket);
                }
                opt = TcpOption::WindowScale { shift: data[0] };
            } else if kind == 4 {
                opt = TcpOption::SackPermitted;
            } else if kind == 8 {
                if data.len() != 8 {
                    return Err(ParseError::MalformedPacket);
                }
                let ts_value = read_be32(data, 0);
                let ts_echo = read_be32(data, 4);
                opt = TcpOption::Timestamp { ts_value, ts_echo };
            } else {
                opt = TcpOption::Unknown { kind, data: slice_to_vec(data) };
            }
            assert(tcp_option_from(kind, s.subrange(2, length as int)) == Some(opt@));
            options.push(opt);
            assert(s.skip(length as int) =~= raw@.skip((offset + length) as int));
            assert(options_model(options@) =~= before + seq![opt@]);
            proof {
                let t = tcp_options_model(s.skip(length as int));
                if t is Some {
                    assert(before + (seq![opt@] + t->0) =~= (before + seq![opt@]) + t->0);
                }
            }
            offset += length;
        }
    }
    assert(raw@.skip(offset as int) =~= Seq::<u8>::empty());
    assert(options_model(options@) + Seq::<TcpOptionModel>::empty() =~= options_model(options@));
    Ok(options)
}

/// TCP header.
#[derive(Debug)]
pub struct TcpHeader {
    pub src_port: u16,
    pub dst_port: u16,
    pub seq: u32,
    pub ack: u32,
    pub data_offset: u8,
    pub flags: TcpFlags,
    pub window_size: u16,
    pub checksum: u16,
    pub urgent_pointer: u16,
    pub options: Vec<TcpOption>,
}

/// Header length in bytes announced by the data-offset field.
pub open spec fn tcp_len(raw: Seq<u8>) -> int {
    (raw[12] / 16) as int * 4
}

/// A segment whose data-offset field is below five: the header would end
/// before its own fixed part, and decoding stops with a fault.
pub open spec fn tcp_fault(raw: Seq<u8>) -> bool {
    raw.len() >= 20 && raw[12] / 16 < 5
}

pub open spec fn tcp_accepts(raw: Seq<u8>) -> bool {
    &&& raw.len() >= 20
    &&& raw.len() >= tcp_len(raw)
    &&& tcp_options_model(raw.subrange(20, tcp_len(raw))) is Some
}

pub open spec fn tcp_flags_decode(f: TcpFlags, b: u8) -> bool {
    &&& f.fin == (b % 2 == 1)
    &&& f.syn == ((b / 2) % 2 == 1)
    &&& f.rst == ((b / 4) % 2 == 1)
    &&& f.psh == ((b / 8) % 2 == 1)
    &&& f.ack == ((b / 16) % 2 == 1)
    &&& f.urg == ((b / 32) % 2 == 1)
    &&& f.ece == ((b / 64) % 2 == 1)
    &&& f.cwr == ((b / 128) % 2 == 1)
}

pub open spec fn tcp_decodes(h: TcpHeader, raw: Seq<u8>) -> bool {
    &&& h.src_port == be16(raw[0], raw[1])
    &&& h.dst_port == be16(raw[2], raw[3])
    &&& h.seq == be32(raw[4], raw[5], raw[6], raw[7])
    &&& h.ack == be32(raw[8], raw[9], raw[10], raw[11])
    &&& h.data_offset == raw[12] / 16
    &&& tcp_flags_decode(h.flags, raw[13])
    &&& h.window_size == be16(raw[14], raw[15])
    &&& h.checksum == be16(raw[16], raw[17])
    &&& h.urgent_pointer == be16(raw[18], raw[19])
    &&& Some(options_model(h.options@)) == tcp_options_model(raw.subrange(20, tcp_len(raw)))
}

/// Decodes the TCP header (with its options) at the start of `raw`.
pub fn parse_tcp(raw: &[u8]) -> (r: Result<(TcpHeader, &[u8]), ParseError>)
    requires
        !tcp_fault(raw@),
    ensures
        r is Ok <==> tcp_accepts(raw@),
        r matches Ok((h, payload)) ==> tcp_decodes(h, raw@) && payload@ == raw@.skip(
            tcp_len(raw@),
        ),
        r matches Err(e) ==> e is MalformedPacket,
{
    if raw.len() < 20 {
        return Err(ParseError::MalformedPacket);
    }
    let src_port = read_be16(raw, 0);
    let dst_port = read_be16(raw, 2);
    let seq = read_be32(raw, 4);
    let ack = read_be32(raw, 8);
    let data_offset = raw[12] / 16;
    let flags_byte = raw[13];
    let flags = TcpFlags {
        fin: flags_byte % 2 == 1,
        syn: (flags_byte / 2) % 2 == 1,
        rst: (flags_byte / 4) % 2 == 1,
        psh: (flags_byte / 8) % 2 == 1,
        ack: (flags_byte / 16) % 2 == 1,
        urg: (flags_byte / 32) % 2 == 1,
        ece: (flags_byte / 64) % 2 == 1,
        cwr: (flags_byte / 128) % 2 == 1,
    };
    let window_size = read_be16(raw, 14);
    let checksum = read_be16(raw, 16);
    let urgent_pointer = read_be16(raw, 18);
    let header_length = (data_offset * 4) as usize;
    if raw.len() < header_length {
        return Err(ParseError::MalformedPacket);
    }
    let options_length = header_length - 20;
    let options = if options_length > 0 {
        parse_tcp_options(slice_subrange(raw, 20, header_length))?
    } else {
        let none: Vec<TcpOption> = Vec::new();
        assert(raw@.subrange(20, 20) =~= Seq::<u8>::empty());
        assert(options_model(none@) =~= Seq::<TcpOptionModel>::empty());
        none
    };
    let payload = slice_subrange(raw, header_length, raw.len());
    let header = TcpHeader {
        src_port,
        dst_port,
        seq,
        ack,
        data_offset,
        flags,
        window_size,
        checksum,
        urgent_pointer,
        options,
    };
    Ok((header, payload))
}


// ------------------------------------------------------------ whole frames

/// ICMP header.
#[derive(Debug)]
pub struct IcmpHeader {
    pub icmp_type: u8,
    pub code: u8,
    pub checksum: u16,
}

/// ICMPv6 header.
#[derive(Debug)]
pub struct Icmpv6Header {
    pub icmp_type: u8,
    pub code: u8,
    pub checksum: u16,
}

/// The network-layer header of a frame.
#[derive(Debug)]
pub enum NetworkLayer {
    IPv4(IPv4Header),
    IPv6(IPv6Header),
    Arp(ArpHeader),
}

/// The transport-layer header of a frame.
#[derive(Debug)]
pub enum TransportLayer {
    Tcp(TcpHeader),
    Udp(UdpHeader),
    Icmp(IcmpHeader),
    Icmpv6(Icmpv6Header),
}

/// A decoded frame.
#[derive(Debug)]
pub struct Packet {
    pub ethernet: EthernetHeader,
    pub network: Option<NetworkLayer>,
    pub transport: Option<TransportLayer>,
    pub payload: Vec<u8>,
}

/// IP protocol number of TCP.
pub const PROTO_TCP: u8 = 6;
/// IP protocol number of UDP.
pub const PROTO_UDP: u8 = 17;
/// IP protocol number of ICMP.
pub const PROTO_ICMP: u8 = 1;
/// IPv6 next-header number of ICMPv6.
pub const PROTO_ICMPV6: u8 = 58;

/// Whether the transport part `seg` of protocol `proto` decodes.  Protocols
/// other than TCP and UDP are carried as opaque payload.
pub open spec fn transport_accepts(proto: u8, seg: Seq<u8>) -> bool {
    if proto == PROTO_TCP {
        tcp_accepts(seg)
    } else if proto == PROTO_UDP {
        udp_accepts(seg)
    } else {
        true
    }
}

/// Whether decoding the transport part stops with a fault.
pub open spec fn transport_fault(proto: u8, seg: Seq<u8>) -> bool {
    proto == PROTO_TCP && tcp_fault(seg)
}

/// How the transport header and the payload of a frame come from the
/// transport part `seg` of protocol `proto`.  ICMP (`icmp` is its number in
/// the network layer at hand) is recognised but neither decoded nor kept.
pub open spec fn transport_decodes(
    proto: u8,
    icmp: u8,
    seg: Seq<u8>,
    t: Option<TransportLayer>,
    payload: Seq<u8>,
) -> bool {
    if proto == PROTO_TCP {
        &&& t matches Some(TransportLayer::Tcp(h)) && tcp_decodes(h, seg)
        &&& payload == seg.skip(tcp_len(seg))
    } else if proto == PROTO_UDP {
        &&& t matches Some(TransportLayer::Udp(h)) && udp_decodes(h, seg)
        &&& payload == seg.subrange(8, udp_length(seg))
    } else if proto == icmp {
        t is None && payload == Seq::<u8>::empty()
    } else {
        t is None && payload == seg
    }
}

/// The EtherType of a frame that has an Ethernet header.
pub open spec fn frame_ether_type(raw: Seq<u8>) -> int {
    be16(raw[12], raw[13])
}

/// Which frames `packet_parser` decodes.
pub open spec fn packet_accepts(raw: Seq<u8>) -> bool {
    let et = frame_ether_type(raw);
    let l3 = raw.skip(14);
    &&& ethernet_accepts(raw)
    &&& if et == ETHER_TYPE_IPV4 {
        ipv4_accepts(l3) && transport_accepts(l3[9], l3.skip(ipv4_len(l3)))
    } else if et == ETHER_TYPE_IPV6 {
        ipv6_accepts(l3) && transport_accepts(l3[6], l3.skip(40))
    } else if et == ETHER_TYPE_ARP {
        arp_accepts(l3)
    } else {
        true
    }
}

/// Frames on which decoding stops with a fault: a TCP segment, inside an
/// IP packet that decodes, whose data offset is below five.
pub open spec fn packet_fault(raw: Seq<u8>) -> bool {
    let et = frame_ether_type(raw);
    let l3 = raw.skip(14);
    &&& ethernet_accepts(raw)
    &&& {
        ||| et == ETHER_TYPE_IPV4 && ipv4_accepts(l3) && transport_fault(
            l3[9],
            l3.skip(ipv4_len(l3)),
        )
        ||| et == ETHER_TYPE_IPV6 && ipv6_accepts(l3) && transport_fault(l3[6], l3.skip(40))
    }
}

/// How a decoded frame comes from its bytes.
pub open spec fn packet_decodes(p: Packet, raw: Seq<u8>) -> bool {
    let et = frame_ether_type(raw);
    let l3 = raw.skip(14);
    &&& ethernet_decodes(p.ethernet, raw)
    &&& if et == ETHER_TYPE_IPV4 {
        &&& p.network matches Some(NetworkLayer::IPv4(h)) && ipv4_decodes(h, l3)
        &&& transport_decodes(
            l3[9],
            PROTO_ICMP,
            l3.skip(ipv4_len(l3)),
            p.transport,
            p.payload@,
        )
    } else if et == ETHER_TYPE_IPV6 {
        &&& p.network matches Some(NetworkLayer::IPv6(h)) && ipv6_decodes(h, l3)
        &&& transport_decodes(l3[6], PROTO_ICMPV6, l3.skip(40), p.transport, p.payload@)
    } else if et == ETHER_TYPE_ARP {
        &&& p.network matches Some(NetworkLayer::Arp(h)) && arp_decodes(h, l3)
        &&& p.transport is None
        &&& p.payload@ == l3.skip(arp_len(l3))
    } else {
        &&& p.network is None
        &&& p.transport is None
        &&& p.payload@ == l3
    }
}

/// Decodes the transport part of an IP packet.
fn parse_transport(proto: u8, icmp: u8, seg: &[u8]) -> (r: Result<
    (Option<TransportLayer>, Vec<u8>),
    ParseError,
>)
    requires
        !transport_fault(proto, seg@),
        icmp != PROTO_TCP && icmp != PROTO_UDP,
    ensures
        r is Ok <==> transport_accepts(proto, seg@),
        r matches Ok((t, payload)) ==> transport_decodes(proto, icmp, seg@, t, payload@),
        r matches Err(e) ==> e is MalformedPacket,
{
    if proto == PROTO_TCP {
        let (tcp, payload) = parse_tcp(seg)?;
        Ok((Some(TransportLayer::Tcp(tcp)), slice_to_vec(payload)))
    } else if proto == PROTO_UDP {
        let (udp, payload) = parse_udp(seg)?;
        Ok((Some(TransportLayer::Udp(udp)), slice_to_vec(payload)))
    } else if proto == icmp {
        Ok((None, Vec::new()))
    } else {
        Ok((None, slice_to_vec(seg)))
    }
}

/// Decodes a captured Ethernet frame down to its transport header and
/// payload.
pub fn packet_parser(raw: &[u8]) -> (r: Result<Packet, ParseError>)
    requires
        !packet_fault(raw@),
    ensures
        r is Ok <==> packet_accepts(raw@),
        r matches Ok(p) ==> packet_decodes(p, raw@),
        r matches Err(e) ==> e is MalformedPacket,
{
    let (ethernet, rest) = parse_ethernet(raw)?;
    let ether_type = ethernet.ether_type;
    if ether_type == ETHER_TYPE_IPV4 {
        let (ipv4, seg) = parse_ipv4(rest)?;
        let protocol = ipv4.protocol;
        let (transport, payload) = parse_transport(protocol, PROTO_ICMP, seg)?;
        Ok(
            Packet {
                ethernet,
                network: Some(NetworkLayer::IPv4(ipv4)),
                transport,
                payload,
            },
        )
    } else if ether_type == ETHER_TYPE_IPV6 {
        let (ipv6, seg) = parse_ipv6(rest)?;
        let next_header = ipv6.next_header;
        let (transport, payload) = parse_transport(next_header, PROTO_ICMPV6, seg)?;
        Ok(
            Packet {
                ethernet,
                network: Some(NetworkLayer::IPv6(ipv6)),
                transport,
                payload,
            },
        )
    } else if ether_type == ETHER_TYPE_ARP {
        let (arp, payload) = parse_arp(rest)?;
        Ok(
            Packet {
                ethernet,
                network: Some(NetworkLayer::Arp(arp)),
                transport: None,
                payload: slice_to_vec(payload),
            },
        )
    } else {
        Ok(Packet { ethernet, network: None, transport: None, payload: slice_to_vec(rest) })
    }
}

/// Whether `packet_parser` would stop with a fault on `raw` (see
/// `packet_fault`); callers test this before decoding.
pub fn packet_has_fault(raw: &[u8]) -> (b: bool)
    ensures
        b == packet_fault(raw@),
{
    if raw.len() < 14 {
        return false;
    }
    let ether_type = read_be16(raw, 12);
    let l3 = slice_subrange(raw, 14, raw.len());
    assert(l3@ =~= raw@.skip(14));
    let (proto, seg) = if ether_type == ETHER_TYPE_IPV4 {
        match parse_ipv4(l3) {
            Ok((h, seg)) => (h.protocol, seg),
            Err(_) => return false,
        }
    } else if ether_type == ETHER_TYPE_IPV6 {
        match parse_ipv6(l3) {
            Ok((h, seg)) => (h.next_header, seg),
            Err(_) => return false,
        }
    } else {
        return false;
    };
    proto == PROTO_TCP && seg.len() >= 20 && seg[12] / 16 < 5
}


// -------------------------------------------------------------------- laws

/// Law: each TCP control flag is its own bit of the flags byte (byte 13):
/// FIN 0x01, SYN 0x02, RST 0x04, PSH 0x08, ACK 0x10, URG 0x20, ECE 0x40,
/// CWR 0x80.
pub proof fn lemma_tcp_flag_bits(h: TcpHeader, raw: Seq<u8>)
    requires
        tcp_decodes(h, raw),
    ensures
        h.flags.fin == (raw[13] & 0x01u8 != 0),
        h.flags.syn == (raw[13] & 0x02u8 != 0),
        h.flags.rst == (raw[13] & 0x04u8 != 0),
        h.flags.psh == (raw[13] & 0x08u8 != 0),
        h.flags.ack == (raw[13] & 0x10u8 != 0),
        h.flags.urg == (raw[13] & 0x20u8 != 0),
        h.flags.ece == (raw[13] & 0x40u8 != 0),
        h.flags.cwr == (raw[13] & 0x80u8 != 0),
{
    let b: u8 = raw[13];
    assert({
        &&& (b % 2 == 1) == (b & 0x01u8 != 0)
        &&& ((b / 2) % 2 == 1) == (b & 0x02u8 != 0)
        &&& ((b / 4) % 2 == 1) == (b & 0x04u8 != 0)
        &&& ((b / 8) % 2 == 1) == (b & 0x08u8 != 0)
        &&& ((b / 16) % 2 == 1) == (b & 0x10u8 != 0)
        &&& ((b / 32) % 2 == 1) == (b & 0x20u8 != 0)
        &&& ((b / 64) % 2 == 1) == (b & 0x40u8 != 0)
        &&& ((b / 128) % 2 == 1) == (b & 0x80u8 != 0)
    }) by (bit_vector);
}

/// Law: the fixed TCP fields are the big-endian values of their bytes and
/// the data offset is the high half of byte 12; the options are read from
/// bytes 20 up to four times the data offset, and the payload is what
/// follows them.
pub proof fn lemma_tcp_fields(h: TcpHeader, raw: Seq<u8>)
    requires
        tcp_accepts(raw),
        tcp_decodes(h, raw),
    ensures
        h.src_port == ((raw[0] as u16) << 8u16) | (raw[1] as u16),
        h.dst_port == ((raw[2] as u16) << 8u16) | (raw[3] as u16),
        h.seq == ((raw[4] as u32) << 24u32) | ((raw[5] as u32) << 16u32) | ((raw[6] as u32)
            << 8u32) | (raw[7] as u32),
        h.ack == ((raw[8] as u32) << 24u32) | ((raw[9] as u32) << 16u32) | ((raw[10] as u32)
            << 8u32) | (raw[11] as u32),
        h.data_offset == raw[12] >> 4u8,
        h.window_size == ((raw[14] as u16) << 8u16) | (raw[15] as u16),
        h.checksum == ((raw[16] as u16) << 8u16) | (raw[17] as u16),
        h.urgent_pointer == ((raw[18] as u16) << 8u16) | (raw[19] as u16),
        tcp_len(raw) == h.data_offset as int * 4,
        Some(options_model(h.options@)) == tcp_options_model(
            raw.subrange(20, h.data_offset as int * 4),
        ),
{
    lemma_be16_bits(raw[0], raw[1]);
    lemma_be16_bits(raw[2], raw[3]);
    lemma_be16_bits(raw[14], raw[15]);
    lemma_be16_bits(raw[16], raw[17]);
    lemma_be16_bits(raw[18], raw[19]);
    lemma_be32_bits(raw[4], raw[5], raw[6], raw[7]);
    lemma_be32_bits(raw[8], raw[9], raw[10], raw[11]);
    let b: u8 = raw[12];
    assert(b / 16 == b >> 4u8) by (bit_vector);
}

/// Law: what the first option of an options area is, read straight from
/// its bytes: kind 0 ends the list, kind 1 is a no-op, kind 2 carries a
/// 16-bit segment size, kind 3 a shift, kind 4 nothing, kind 8 two 32-bit
/// timestamps, and any other kind its raw data, each with the length that
/// its kind requires.
pub proof fn lemma_first_tcp_option(s: Seq<u8>)
    requires
        s.len() > 0,
        tcp_options_model(s) is Some,
    ensures
        ({
            let opts = tcp_options_model(s)->0;
            &&& opts.len() > 0
            &&& s[0] == 0 ==> opts == seq![TcpOptionModel::End]
            &&& s[0] == 1 ==> opts[0] == TcpOptionModel::NoOperation
            &&& s[0] == 2 ==> s[1] == 4 && opts[0] == (TcpOptionModel::MaximumSegmentSize {
                value: ((s[2] as u16) << 8u16) | (s[3] as u16),
            })
            &&& s[0] == 3 ==> s[1] == 3 && opts[0] == (TcpOptionModel::WindowScale { shift: s[2] })
            &&& s[0] == 4 ==> opts[0] == TcpOptionModel::SackPermitted
            &&& s[0] == 8 ==> s[1] == 10 && opts[0] == (TcpOptionModel::Timestamp {
                ts_value: ((s[2] as u32) << 24u32) | ((s[3] as u32) << 16u32) | ((s[4] as u32)
                    << 8u32) | (s[5] as u32),
                ts_echo: ((s[6] as u32) << 24u32) | ((s[7] as u32) << 16u32) | ((s[8] as u32)
                    << 8u32) | (s[9] as u32),
            })
            &&& (s[0] != 0 && s[0] != 1 && s[0] != 2 && s[0] != 3 && s[0] != 4 && s[0] != 8)
                ==> opts[0] == (TcpOptionModel::Unknown {
                kind: s[0],
                data: s.subrange(2, s[1] as int),
            })
        }),
{
    if s[0] != 0 && s[0] != 1 {
        let data = s.subrange(2, s[1] as int);
        if s[0] == 2 {
            lemma_be16_bits(data[0], data[1]);
        }
        if s[0] == 8 {
            lemma_be32_bits(data[0], data[1], data[2], data[3]);
            lemma_be32_bits(data[4], data[5], data[6], data[7]);
        }
    }
}

/// Law: after its first option, an options area goes on with the options
/// that follow that option's bytes: one byte for a no-op, the announced
/// length for the others; the end marker stops the list.
pub proof fn lemma_tcp_options_continue(s: Seq<u8>)
    requires
        s.len() > 0,
        s[0] != 0,
        tcp_options_model(s) is Some,
    ensures
        ({
            let step = if s[0] == 1 {
                1
            } else {
                s[1] as int
            };
            let opts = tcp_options_model(s)->0;
            &&& 1 <= step <= s.len()
            &&& tcp_options_model(s.skip(step)) is Some
            &&& opts.len() == 1 + tcp_options_model(s.skip(step))->0.len()
            &&& opts.skip(1) == tcp_options_model(s.skip(step))->0
        }),
{
    let step = if s[0] == 1 {
        1
    } else {
        s[1] as int
    };
    let opts = tcp_options_model(s)->0;
    let rest = tcp_options_model(s.skip(step));
    if rest is Some {
        assert(opts.skip(1) =~= rest->0);
    }
}

/// Law: a complete Timestamp option (kind 8, length 10) decodes to the two
/// full 32-bit big-endian values of its data bytes 0..4 and 4..8.
pub proof fn lemma_timestamp_option(s: Seq<u8>)
    requires
        s.len() == 10,
        s[0] == 8,
        s[1] == 10,
    ensures
        tcp_options_model(s) == Some(
            seq![
                TcpOptionModel::Timestamp {
                    ts_value: (s[2] as int * 0x1000000 + s[3] as int * 0x10000 + s[4] as int
                        * 0x100 + s[5] as int) as u32,
                    ts_echo: (s[6] as int * 0x1000000 + s[7] as int * 0x10000 + s[8] as int
                        * 0x100 + s[9] as int) as u32,
                },
            ],
        ),
{
    let data = s.subrange(2, 10);
    assert(data[0] == s[2] && data[1] == s[3] && data[2] == s[4] && data[3] == s[5]);
    assert(data[4] == s[6] && data[5] == s[7] && data[6] == s[8] && data[7] == s[9]);
    assert(s.skip(10) =~= Seq::<u8>::empty());
    assert(tcp_options_model(s.skip(10)) == Some(Seq::<TcpOptionModel>::empty()));
    let o = TcpOptionModel::Timestamp {
        ts_value: be32(s[2], s[3], s[4], s[5]) as u32,
        ts_echo: be32(s[6], s[7], s[8], s[9]) as u32,
    };
    assert(tcp_option_from(8, data) == Some(o));
    assert(seq![o] + Seq::<TcpOptionModel>::empty() =~= seq![o]);
    assert(tcp_options_model(s) == Some(seq![o]));
}

/// Law: a decoded Ethernet frame is its destination address, its source
/// address, its EtherType in network order and the rest, in that order and
/// nothing else.
pub proof fn lemma_ethernet_layout(h: EthernetHeader, raw: Seq<u8>)
    requires
        ethernet_accepts(raw),
        ethernet_decodes(h, raw),
    ensures
        raw == h.dst_mac@ + h.src_mac@ + seq![(h.ether_type >> 8u16) as u8, (h.ether_type
            & 0xFFu16) as u8] + raw.skip(14),
        h.ether_type == ((raw[12] as u16) << 8u16) | (raw[13] as u16),
{
    lemma_be16_bits(raw[12], raw[13]);
    let t: u16 = h.ether_type;
    let hi: u8 = raw[12];
    let lo: u8 = raw[13];
    assert((t >> 8u16) as u8 == hi && (t & 0xFFu16) as u8 == lo) by (bit_vector)
        requires
            t == ((hi as u16) << 8u16) | (lo as u16),
    ;
    assert(raw =~= h.dst_mac@ + h.src_mac@ + seq![(h.ether_type >> 8u16) as u8, (h.ether_type
        & 0xFFu16) as u8] + raw.skip(14));
}

/// Law: a decoded ARP packet is its 8-byte fixed part followed by the
/// sender hardware, sender protocol, target hardware and target protocol
/// addresses, with the lengths that bytes 4 and 5 announce, and then the
/// rest.
pub proof fn lemma_arp_layout(h: ArpHeader, raw: Seq<u8>)
    requires
        arp_accepts(raw),
        arp_decodes(h, raw),
    ensures
        h.sender_hardware_addr@.len() == raw[4],
        h.target_hardware_addr@.len() == raw[4],
        h.sender_protocol_addr@.len() == raw[5],
        h.target_protocol_addr@.len() == raw[5],
        raw.subrange(8, 8 + 2 * raw[4] as int + 2 * raw[5] as int) == h.sender_hardware_addr@
            + h.sender_protocol_addr@ + h.target_hardware_addr@ + h.target_protocol_addr@,
        arp_len(raw) == 8 + 2 * raw[4] as int + 2 * raw[5] as int,
        h.operation == ((raw[6] as u16) << 8u16) | (raw[7] as u16),
        h.hardware_type == ((raw[0] as u16) << 8u16) | (raw[1] as u16),
        h.protocol_type == ((raw[2] as u16) << 8u16) | (raw[3] as u16),
{
    lemma_be16_bits(raw[0], raw[1]);
    lemma_be16_bits(raw[2], raw[3]);
    lemma_be16_bits(raw[6], raw[7]);
    assert(raw.subrange(8, 8 + 2 * raw[4] as int + 2 * raw[5] as int) =~= h.sender_hardware_addr@
        + h.sender_protocol_addr@ + h.target_hardware_addr@ + h.target_protocol_addr@);
}

/// Law: the IPv4 fields are the bit fields of their bytes, as the header
/// layout gives them, and the rest of the packet starts after IHL words.
pub proof fn lemma_ipv4_fields(h: IPv4Header, raw: Seq<u8>)
    requires
        ipv4_accepts(raw),
        ipv4_decodes(h, raw),
    ensures
        h.version == raw[0] >> 4u8,
        h.ihl == raw[0] & 0x0Fu8,
        ipv4_len(raw) == (raw[0] & 0x0Fu8) as int * 4,
        h.dscp == raw[1] >> 2u8,
        h.ecn == raw[1] & 0x03u8,
        h.total_length == ((raw[2] as u16) << 8u16) | (raw[3] as u16),
        h.identification == ((raw[4] as u16) << 8u16) | (raw[5] as u16),
        h.reserved == (raw[6] >> 7u8) & 1u8,
        h.dont_fragment == (raw[6] >> 6u8) & 1u8,
        h.more_fragments == (raw[6] >> 5u8) & 1u8,
        h.fragment_offset == (((raw[6] as u16) << 8u16) | (raw[7] as u16)) & 0x1FFFu16,
        h.checksum == ((raw[10] as u16) << 8u16) | (raw[11] as u16),
        h.ttl == raw[8],
        h.protocol == raw[9],
        h.src@ + h.dst@ == raw.subrange(12, 20),
        h.src@.len() == 4,
{
    assert(h.src@ + h.dst@ =~= raw.subrange(12, 20));
    lemma_be16_bits(raw[2], raw[3]);
    lemma_be16_bits(raw[4], raw[5]);
    lemma_be16_bits(raw[6], raw[7]);
    lemma_be16_bits(raw[10], raw[11]);
    let b0: u8 = raw[0];
    let b1: u8 = raw[1];
    let b6: u8 = raw[6];
    let b7: u8 = raw[7];
    assert({
        &&& b0 / 16 == b0 >> 4u8
        &&& b0 % 16 == b0 & 0x0Fu8
        &&& b1 / 4 == b1 >> 2u8
        &&& b1 % 4 == b1 & 0x03u8
        &&& b6 / 128 == (b6 >> 7u8) & 1u8
        &&& (b6 / 64) % 2 == (b6 >> 6u8) & 1u8
        &&& (b6 / 32) % 2 == (b6 >> 5u8) & 1u8
    }) by (bit_vector);
    let v: u16 = ((b6 as u16) << 8u16) | (b7 as u16);
    assert(v % 8192 == v & 0x1FFFu16) by (bit_vector);
}

/// Law: the IPv6 traffic class and flow label are the bits that straddle
/// the version nibble, as the header layout gives them.
pub proof fn lemma_ipv6_fields(h: IPv6Header, raw: Seq<u8>)
    requires
        ipv6_accepts(raw),
        ipv6_decodes(h, raw),
    ensures
        h.version == raw[0] >> 4u8,
        h.traffic_class == ((raw[0] & 0x0Fu8) << 4u8) | (raw[1] >> 4u8),
        h.flow_label == (((raw[1] as u32) & 0x0Fu32) << 16u32) | ((raw[2] as u32) << 8u32) | (
        raw[3] as u32),
        h.payload_length == ((raw[4] as u16) << 8u16) | (raw[5] as u16),
        h.next_header == raw[6],
        h.hop_limit == raw[7],
        h.src@ + h.dst@ == raw.subrange(8, 40),
        h.src@.len() == 16,
{
    assert(h.src@ + h.dst@ =~= raw.subrange(8, 40));
    lemma_be16_bits(raw[4], raw[5]);
    let b0: u8 = raw[0];
    let b1: u8 = raw[1];
    let b2: u8 = raw[2];
    let b3: u8 = raw[3];
    assert(b0 / 16 == b0 >> 4u8) by (bit_vector);
    assert((b0 % 16) * 16 + b1 / 16 == ((b0 & 0x0Fu8) << 4u8) | (b1 >> 4u8)) by (bit_vector);
    let f: u32 = (((b1 as u32) & 0x0Fu32) << 16u32) | ((b2 as u32) << 8u32) | (b3 as u32);
    assert(f as int == (b1 % 16) as int * 65536 + b2 as int * 256 + b3 as int) by (bit_vector)
        requires
            f == (((b1 as u32) & 0x0Fu32) << 16u32) | ((b2 as u32) << 8u32) | (b3 as u32),
    ;
}

/// Law: the UDP fields are the big-endian values of their bytes, and the
/// payload is exactly the part of the datagram that its length field
/// covers, so bytes past it (such as frame padding) are never payload.
pub proof fn lemma_udp_fields(h: UdpHeader, raw: Seq<u8>)
    requires
        udp_accepts(raw),
        udp_decodes(h, raw),
    ensures
        h.src_port == ((raw[0] as u16) << 8u16) | (raw[1] as u16),
        h.dst_port == ((raw[2] as u16) << 8u16) | (raw[3] as u16),
        h.length == ((raw[4] as u16) << 8u16) | (raw[5] as u16),
        h.checksum == ((raw[6] as u16) << 8u16) | (raw[7] as u16),
        8 <= h.length <= raw.len(),
        udp_length(raw) == h.length,
{
    lemma_be16_bits(raw[0], raw[1]);
    lemma_be16_bits(raw[2], raw[3]);
    lemma_be16_bits(raw[4], raw[5]);
    lemma_be16_bits(raw[6], raw[7]);
}

/// Law: in a decoded IPv4 frame carrying UDP, the payload is the part of
/// the datagram between its 8-byte header and its length field: exactly
/// `length - 8` bytes, however many bytes follow in the frame.
pub proof fn lemma_frame_udp_payload_v4(p: Packet, raw: Seq<u8>)
    requires
        packet_accepts(raw),
        packet_decodes(p, raw),
        raw[12] == 0x08,
        raw[13] == 0x00,
        raw[23] == PROTO_UDP,
    ensures
        ({
            let seg = raw.skip(14 + (raw[14] & 0x0Fu8) as int * 4);
            &&& p.transport matches Some(TransportLayer::Udp(h)) && p.payload@ == seg.subrange(
                8,
                h.length as int,
            ) && p.payload@.len() == h.length - 8 && h.length as int <= seg.len()
        }),
{
    let l3 = raw.skip(14);
    let b: u8 = l3[0];
    assert(b % 16 == b & 0x0Fu8) by (bit_vector);
    assert(l3.skip(ipv4_len(l3)) =~= raw.skip(14 + (raw[14] & 0x0Fu8) as int * 4));
    let seg = l3.skip(ipv4_len(l3));
    if let Some(TransportLayer::Udp(h)) = p.transport {
        lemma_udp_fields(h, seg);
    }
}

/// Law: in a decoded IPv6 frame carrying UDP, the payload is the part of
/// the datagram between its 8-byte header and its length field.
pub proof fn lemma_frame_udp_payload_v6(p: Packet, raw: Seq<u8>)
    requires
        packet_accepts(raw),
        packet_decodes(p, raw),
        raw[12] == 0x86,
        raw[13] == 0xDD,
        raw[20] == PROTO_UDP,
    ensures
        ({
            let seg = raw.skip(54);
            &&& p.transport matches Some(TransportLayer::Udp(h)) && p.payload@ == seg.subrange(
                8,
                h.length as int,
            ) && p.payload@.len() == h.length - 8 && h.length as int <= seg.len()
        }),
{
    let l3 = raw.skip(14);
    assert(l3.skip(40) =~= raw.skip(54));
    if let Some(TransportLayer::Udp(h)) = p.transport {
        lemma_udp_fields(h, raw.skip(54));
    }
}

/// Law: in a decoded IPv4 frame carrying TCP, the payload is everything
/// after the TCP header, whose length is four times its data offset.
pub proof fn lemma_frame_tcp_payload_v4(p: Packet, raw: Seq<u8>)
    requires
        packet_accepts(raw),
        packet_decodes(p, raw),
        raw[12] == 0x08,
        raw[13] == 0x00,
        raw[23] == PROTO_TCP,
    ensures
        ({
            let seg = raw.skip(14 + (raw[14] & 0x0Fu8) as int * 4);
            &&& p.transport matches Some(TransportLayer::Tcp(h)) && p.payload@ == seg.skip(
                h.data_offset as int * 4,
            ) && h.data_offset == seg[12] >> 4u8
        }),
{
    let l3 = raw.skip(14);
    let b: u8 = l3[0];
    assert(b % 16 == b & 0x0Fu8) by (bit_vector);
    assert(l3.skip(ipv4_len(l3)) =~= raw.skip(14 + (raw[14] & 0x0Fu8) as int * 4));
    let seg = l3.skip(ipv4_len(l3));
    if let Some(TransportLayer::Tcp(h)) = p.transport {
        lemma_tcp_fields(h, seg);
    }
}

} // verus!
