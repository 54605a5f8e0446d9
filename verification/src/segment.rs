//! What the reassembler reads of a captured frame: the addresses, ports,
//! flags and numbers of a TCP segment over IPv4, and its header options.

use etherparse::{InternetSlice, SlicedPacket, TcpOptionElement, TcpOptionsIterator, TransportSlice};
use vstd::prelude::*;
use vstd::slice::slice_subrange;
use crate::flow_buff::MAX_WINDOW_SHIFT;

verus! {

/// Length of an IPv4 or TCP header without options.
pub const MIN_HEADER_LEN: usize = 20;

/// One element of the options of a TCP header.
#[derive(Clone, Copy, Debug, PartialEq, Eq, Structural)]
pub enum TcpOption {
    /// Padding between options.
    Noop,
    /// The largest segment the sender accepts.
    MaximumSegmentSize(u16),
    /// The shift that the sender applies to its advertised window.
    WindowScale(u8),
    /// The sender accepts selective acknowledgements.
    SelectiveAcknowledgementPermitted,
    /// A selective acknowledgement.
    SelectiveAcknowledgement,
    /// The sender's timestamp, and the echo of the peer's.
    Timestamp(u32, u32),
    /// An element that could not be read; none follows it.
    Unreadable,
}

/// The mathematical content of a [`TcpSegment`].
pub struct SegmentModel {
    pub source_ip: u32,
    pub source_port: u16,
    pub destination_ip: u32,
    pub destination_port: u16,
    pub sequence_number: u32,
    pub acknowledgment_number: u32,
    pub window_size: u16,
    pub syn: bool,
    pub ack: bool,
    pub fin: bool,
    pub rst: bool,
    pub ip_payload_len: u16,
    pub data_offset: u8,
    pub options: Seq<TcpOption>,
}

impl SegmentModel {
    /// Number of payload bytes: what the IP header announces as its
    /// payload, less the TCP header. Negative where the IP payload is too
    /// short to hold the TCP header.
    pub open spec fn payload_len(self) -> int {
        self.ip_payload_len - 4 * self.data_offset
    }

    /// The same segment, sent the other way: source and destination have
    /// changed places.
    pub open spec fn reversed(self) -> SegmentModel {
        SegmentModel {
            source_ip: self.destination_ip,
            source_port: self.destination_port,
            destination_ip: self.source_ip,
            destination_port: self.source_port,
            ..self
        }
    }
}

/// The headers of one TCP segment over IPv4, as plain values.
#[derive(Clone, Debug, PartialEq, Eq)]
pub struct TcpSegment {
    /// Source address, its first octet in the highest byte.
    pub source_ip: u32,
    pub source_port: u16,
    /// Destination address, its first octet in the highest byte.
    pub destination_ip: u32,
    pub destination_port: u16,
    pub sequence_number: u32,
    pub acknowledgment_number: u32,
    /// The advertised window, unscaled.
    pub window_size: u16,
    pub syn: bool,
    pub ack: bool,
    pub fin: bool,
    pub rst: bool,
    /// Length of what follows the IP header, by that header.
    pub ip_payload_len: u16,
    /// Length of the TCP header in 32-bit words.
    pub data_offset: u8,
    /// The options of the TCP header, in order.
    pub options: Vec<TcpOption>,
}

impl View for TcpSegment {
    type V = SegmentModel;

    open spec fn view(&self) -> SegmentModel {
        SegmentModel {
            source_ip: self.source_ip,
            source_port: self.source_port,
            destination_ip: self.destination_ip,
            destination_port: self.destination_port,
            sequence_number: self.sequence_number,
            acknowledgment_number: self.acknowledgment_number,
            window_size: self.window_size,
            syn: self.syn,
            ack: self.ack,
            fin: self.fin,
            rst: self.rst,
            ip_payload_len: self.ip_payload_len,
            data_offset: self.data_offset,
            options: self.options@,
        }
    }
}

impl TcpSegment {
    /// Number of payload bytes, or `None` where the IP payload is too short
    /// to hold the TCP header.
    pub fn payload_len(&self) -> (len: Option<u16>)
        ensures
            len is Some <==> self@.payload_len() >= 0,
            len matches Some(n) ==> n == self@.payload_len(),
    {
        let header_len: u16 = 4 * (self.data_offset as u16);
        if self.ip_payload_len >= header_len {
            Some(self.ip_payload_len - header_len)
        } else {
            None
        }
    }
}

/// The window shift that a list of options announces: that of its last
/// window-scale option with a shift from `1` to `14`, or `None` where it
/// holds no such option.
pub open spec fn announced_window_shift(options: Seq<TcpOption>) -> Option<u8>
    decreases options.len(),
{
    if options.len() == 0 {
        None
    } else {
        match options.last() {
            TcpOption::WindowScale(shift) if 1 <= shift <= MAX_WINDOW_SHIFT => Some(shift),
            _ => announced_window_shift(options.drop_last()),
        }
    }
}

/// Scans a list of options for the window shift it announces.
pub fn window_shift_of(options: &[TcpOption]) -> (announced: Option<u8>)
    ensures
        announced == announced_window_shift(options@),
        announced matches Some(shift) ==> 1 <= shift <= MAX_WINDOW_SHIFT,
{
    let mut announced: Option<u8> = None;
    let mut i: usize = 0;
    while i < options.len()
        invariant
            i <= options.len(),
            announced == announced_window_shift(options@.take(i as int)),
            announced matches Some(shift) ==> 1 <= shift <= MAX_WINDOW_SHIFT,
        decreases options.len() - i,
    {
        proof {
            assert(options@.take(i + 1).drop_last() =~= options@.take(i as int));
        }
        match options[i] {
            TcpOption::WindowScale(shift) => {
                if shift >= 1 && shift <= MAX_WINDOW_SHIFT {
                    announced = Some(shift);
                }
            },
            _ => {},
        }
        i += 1;
    }
    proof {
        assert(options@.take(i as int) =~= options@);
    }
    announced
}

/// The network layer of a sliced frame.
pub enum IpLayerModel {
    /// The frame holds no IP header.
    Absent,
    /// The bytes of the IPv4 header, options included.
    Ipv4(Seq<u8>),
    /// The frame holds an IPv6 header.
    Ipv6,
}

/// The transport layer of a sliced frame.
pub enum TransportLayerModel {
    /// The frame holds no transport header.
    Absent,
    Icmpv4,
    Icmpv6,
    Udp,
    /// The bytes of the TCP header, options included.
    Tcp(Seq<u8>),
    /// A transport protocol, by its IP protocol number, that is not sliced.
    Unknown(u8),
}

/// The layers of a sliced frame that the reassembler looks at.
pub struct LayersModel {
    pub ip: IpLayerModel,
    pub transport: TransportLayerModel,
}

/// The network layer of a sliced frame, borrowed from the frame.
pub enum IpLayer<'a> {
    Absent,
    Ipv4(&'a [u8]),
    Ipv6,
}

/// The transport layer of a sliced frame, borrowed from the frame.
pub enum TransportLayer<'a> {
    Absent,
    Icmpv4,
    Icmpv6,
    Udp,
    Tcp(&'a [u8]),
    Unknown(u8),
}

/// The layers of a sliced frame, borrowed from the frame.
pub struct Layers<'a> {
    pub ip: IpLayer<'a>,
    pub transport: TransportLayer<'a>,
}

impl<'a> View for IpLayer<'a> {
    type V = IpLayerModel;

    open spec fn view(&self) -> IpLayerModel {
        match *self {
            IpLayer::Absent => IpLayerModel::Absent,
            IpLayer::Ipv4(header) => IpLayerModel::Ipv4(header@),
            IpLayer::Ipv6 => IpLayerModel::Ipv6,
        }
    }
}

impl<'a> View for TransportLayer<'a> {
    type V = TransportLayerModel;

    open spec fn view(&self) -> TransportLayerModel {
        match *self {
            TransportLayer::Absent => TransportLayerModel::Absent,
            TransportLayer::Icmpv4 => TransportLayerModel::Icmpv4,
            TransportLayer::Icmpv6 => TransportLayerModel::Icmpv6,
            TransportLayer::Udp => TransportLayerModel::Udp,
            TransportLayer::Tcp(header) => TransportLayerModel::Tcp(header@),
            TransportLayer::Unknown(protocol) => TransportLayerModel::Unknown(protocol),
        }
    }
}

impl<'a> View for Layers<'a> {
    type V = LayersModel;

    open spec fn view(&self) -> LayersModel {
        LayersModel { ip: self.ip@, transport: self.transport@ }
    }
}

/// The layers that `etherparse` slices a frame into that starts with an
/// Ethernet II header, or `None` where it cannot slice the frame.
pub uninterp spec fn ethernet_layers(frame: Seq<u8>) -> Option<LayersModel>;

/// The elements that `etherparse` reads from the encoded options of a TCP
/// header, up to the end of the list or the first element it cannot read.
pub uninterp spec fn tcp_options(encoded: Seq<u8>) -> Seq<TcpOption>;

/// Slices a frame with `etherparse::SlicedPacket::from_ethernet`.
///
/// Trusted: the result is what that function yields on these bytes: `None`
/// for an error, else its `ip` and `transport` fields, variant by variant,
/// with an IPv4 or TCP header as the bytes of its slice. Nothing is claimed
/// about which bytes lead to which outcome.
#[verifier::external_body]
fn slice_ethernet<'a>(frame: &'a [u8]) -> (layers: Option<Layers<'a>>)
    ensures
        ethernet_layers(frame@) == match layers {
            Some(sliced) => Some(sliced@),
            None => None,
        },
{
    let sliced = SlicedPacket::from_ethernet(frame).ok()?;
    let ip = match sliced.ip {
        None => IpLayer::Absent,
        Some(InternetSlice::Ipv4(header, _)) => IpLayer::Ipv4(header.slice()),
        Some(InternetSlice::Ipv6(..)) => IpLayer::Ipv6,
    };
    let transport = match sliced.transport {
        None => TransportLayer::Absent,
        Some(TransportSlice::Icmpv4(_)) => TransportLayer::Icmpv4,
        Some(TransportSlice::Icmpv6(_)) => TransportLayer::Icmpv6,
        Some(TransportSlice::Udp(_)) => TransportLayer::Udp,
        Some(TransportSlice::Tcp(header)) => TransportLayer::Tcp(header.slice()),
        Some(TransportSlice::Unknown(protocol)) => TransportLayer::Unknown(protocol),
    };
    Some(Layers { ip, transport })
}

/// Reads encoded TCP options with `etherparse::TcpOptionsIterator`.
///
/// Trusted: the result lists what the iterator yields on these bytes, each
/// element as the variant of the same name and an error as `Unreadable`.
/// Nothing is claimed about which bytes lead to which elements.
#[verifier::external_body]
fn read_tcp_options(encoded: &[u8]) -> (options: Vec<TcpOption>)
    ensures
        options@ == tcp_options(encoded@),
{
    let mut options = Vec::new();
    for element in TcpOptionsIterator::from_slice(encoded) {
        options.push(match element {
            Ok(TcpOptionElement::Noop) => TcpOption::Noop,
            Ok(TcpOptionElement::MaximumSegmentSize(size)) => TcpOption::MaximumSegmentSize(size),
            Ok(TcpOptionElement::WindowScale(shift)) => TcpOption::WindowScale(shift),
            Ok(TcpOptionElement::SelectiveAcknowledgementPermitted) => TcpOption::SelectiveAcknowledgementPermitted,
            Ok(TcpOptionElement::SelectiveAcknowledgement(..)) => TcpOption::SelectiveAcknowledgement,
            Ok(TcpOptionElement::Timestamp(sent, echo)) => TcpOption::Timestamp(sent, echo),
            Err(_) => TcpOption::Unreadable,
        });
    }
    options
}

/// The 16-bit big-endian number at `at`.
pub open spec fn be16(bytes: Seq<u8>, at: int) -> u16 {
    (bytes[at] * 0x100 + bytes[at + 1]) as u16
}

/// The 32-bit big-endian number at `at`.
pub open spec fn be32(bytes: Seq<u8>, at: int) -> u32 {
    (bytes[at] * 0x100_0000 + bytes[at + 1] * 0x1_0000 + bytes[at + 2] * 0x100 + bytes[at
        + 3]) as u32
}

/// Whether the two header slices can be read as headers: each has the
/// fixed part, the IPv4 header fits the total length it announces, and the
/// TCP header has the length its data offset announces.
pub open spec fn readable_headers(ip: Seq<u8>, tcp: Seq<u8>) -> bool {
    &&& ip.len() >= MIN_HEADER_LEN
    &&& tcp.len() >= MIN_HEADER_LEN
    &&& be16(ip, 2) >= 4 * (ip[0] % 16)
    &&& MIN_HEADER_LEN <= 4 * (tcp[12] / 16) <= tcp.len()
}

/// The segment that an IPv4 header and a TCP header describe.
pub open spec fn segment_of(ip: Seq<u8>, tcp: Seq<u8>) -> SegmentModel {
    SegmentModel {
        source_ip: be32(ip, 12),
        destination_ip: be32(ip, 16),
        ip_payload_len: (be16(ip, 2) - 4 * (ip[0] % 16)) as u16,
        source_port: be16(tcp, 0),
        destination_port: be16(tcp, 2),
        sequence_number: be32(tcp, 4),
        acknowledgment_number: be32(tcp, 8),
        data_offset: tcp[12] / 16,
        fin: tcp[13] & 0x01 != 0,
        syn: tcp[13] & 0x02 != 0,
        rst: tcp[13] & 0x04 != 0,
        ack: tcp[13] & 0x10 != 0,
        window_size: be16(tcp, 14),
        options: tcp_options(tcp.subrange(MIN_HEADER_LEN as int, 4 * (tcp[12] / 16))),
    }
}

/// What a captured frame holds for the reassembler.
pub enum FrameModel {
    /// The frame cannot be read.
    Malformed,
    /// The frame can be read and is no TCP segment over IPv4.
    NotTcp,
    /// The frame is a TCP segment over IPv4.
    Tcp(SegmentModel),
}

/// What a captured frame holds for the reassembler.
#[derive(Clone, Debug, PartialEq, Eq)]
pub enum Frame {
    /// The frame cannot be read.
    Malformed,
    /// The frame can be read and is no TCP segment over IPv4.
    NotTcp,
    /// The frame is a TCP segment over IPv4.
    Tcp(TcpSegment),
}

impl View for Frame {
    type V = FrameModel;

    open spec fn view(&self) -> FrameModel {
        match *self {
            Frame::Malformed => FrameModel::Malformed,
            Frame::NotTcp => FrameModel::NotTcp,
            Frame::Tcp(segment) => FrameModel::Tcp(segment@),
        }
    }
}

/// The reading of sliced layers: a TCP header with an IPv4 header is a
/// segment if the two can be read; any other pair of layers is no TCP
/// over IPv4.
pub open spec fn decoded_layers(layers: LayersModel) -> FrameModel {
    match (layers.ip, layers.transport) {
        (IpLayerModel::Ipv4(ip), TransportLayerModel::Tcp(tcp)) => if readable_headers(ip, tcp) {
            FrameModel::Tcp(segment_of(ip, tcp))
        } else {
            FrameModel::Malformed
        },
        _ => FrameModel::NotTcp,
    }
}

/// The reading of a frame: of the layers it slices into, if it can be
/// sliced.
pub open spec fn decoded_frame(frame: Seq<u8>) -> FrameModel {
    match ethernet_layers(frame) {
        None => FrameModel::Malformed,
        Some(layers) => decoded_layers(layers),
    }
}

/// Reads the 16-bit big-endian number at `at`.
fn read_be16(bytes: &[u8], at: usize) -> (value: u16)
    requires
        at + 2 <= bytes.len(),
    ensures
        value == be16(bytes@, at as int),
{
    (bytes[at] as u16) * 0x100 + (bytes[at + 1] as u16)
}

/// Reads the 32-bit big-endian number at `at`.
fn read_be32(bytes: &[u8], at: usize) -> (value: u32)
    requires
        at + 4 <= bytes.len(),
    ensures
        value == be32(bytes@, at as int),
{
    (bytes[at] as u32) * 0x100_0000 + (bytes[at + 1] as u32) * 0x1_0000 + (bytes[at + 2] as u32)
        * 0x100 + (bytes[at + 3] as u32)
}

/// Reads the fields of a segment from its IPv4 header and its TCP header.
pub fn read_segment(ip: &[u8], tcp: &[u8]) -> (segment: Option<TcpSegment>)
    ensures
        segment is Some <==> readable_headers(ip@, tcp@),
        segment matches Some(read) ==> read@ == segment_of(ip@, tcp@),
{
    if ip.len() < MIN_HEADER_LEN || tcp.len() < MIN_HEADER_LEN {
        return None;
    }
    let total_len = read_be16(ip, 2);
    let ip_header_len: u16 = 4 * ((ip[0] % 16) as u16);
    let data_offset: u8 = tcp[12] / 16;
    let tcp_header_len: usize = 4 * (data_offset as usize);
    if total_len < ip_header_len || tcp_header_len < MIN_HEADER_LEN || tcp_header_len > tcp.len() {
        return None;
    }
    let flags = tcp[13];
    Some(
        TcpSegment {
            source_ip: read_be32(ip, 12),
            destination_ip: read_be32(ip, 16),
            ip_payload_len: total_len - ip_header_len,
            source_port: read_be16(tcp, 0),
            destination_port: read_be16(tcp, 2),
            sequence_number: read_be32(tcp, 4),
            acknowledgment_number: read_be32(tcp, 8),
            data_offset,
            fin: flags & 0x01 != 0,
            syn: flags & 0x02 != 0,
            rst: flags & 0x04 != 0,
            ack: flags & 0x10 != 0,
            window_size: read_be16(tcp, 14),
            options: read_tcp_options(slice_subrange(tcp, MIN_HEADER_LEN, tcp_header_len)),
        },
    )
}

/// Reads sliced layers: for a TCP segment there has to be an IP layer and
/// a transport layer, the first IPv4 and the second TCP.
pub fn decode_layers(layers: &Layers) -> (decoded: Frame)
    ensures
        decoded@ == decoded_layers(layers@),
{
    match layers.ip {
        IpLayer::Ipv4(ip) => match layers.transport {
            TransportLayer::Tcp(tcp) => match read_segment(ip, tcp) {
                Some(segment) => Frame::Tcp(segment),
                None => Frame::Malformed,
            },
            _ => Frame::NotTcp,
        },
        _ => Frame::NotTcp,
    }
}

/// Reads a captured frame that starts with an Ethernet II header.
pub fn decode_frame(frame: &[u8]) -> (decoded: Frame)
    ensures
        decoded@ == decoded_frame(frame@),
{
    match slice_ethernet(frame) {
        None => Frame::Malformed,
        Some(layers) => decode_layers(&layers),
    }
}

} // verus!
