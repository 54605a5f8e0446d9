//! One TCP connection: its canonical signature, its state, and the two
//! flows that make it up.

use std::time::Instant;
use vstd::prelude::*;
use crate::flow_buff::{AddReport, FlowBuff, FlowModel};
use crate::segment::{announced_window_shift, window_shift_of, SegmentModel, TcpSegment};
use crate::utils::{endpoint_text, flags_label, format_endpoint, tcp_flags_to_string};

verus! {

/// Which of the two endpoints of a connection sent a packet. A connection
/// handles both directions of traffic, so its state names one.
#[derive(Clone, Copy, Debug, PartialEq, Eq, Structural)]
pub enum PacketDir {
    /// The sender is the lower address (by IP, then port).
    SrcLowAddr,
    /// The sender is the higher address (by IP, then port).
    SrcHighAddr,
}

impl PacketDir {
    /// The other direction.
    pub open spec fn flipped(self) -> PacketDir {
        match self {
            PacketDir::SrcLowAddr => PacketDir::SrcHighAddr,
            PacketDir::SrcHighAddr => PacketDir::SrcLowAddr,
        }
    }
}

/// Where a connection stands in its life.
#[derive(Clone, Copy, Debug, PartialEq, Eq, Structural)]
pub enum ConnState {
    /// No SYN was seen yet.
    Created,
    /// A SYN was seen from the given direction; the number is the
    /// acknowledgement expected from the other one.
    SynSent(PacketDir, u32),
    /// The handshake is complete; the direction is that of the first SYN.
    Established(PacketDir),
    /// A first FIN was seen from the given direction; the number is the
    /// sequence number after it.
    FinWait1(PacketDir, u32),
    /// The other direction answered with its FIN; the number is the
    /// sequence number after it.
    FinWait2(PacketDir, u32),
    /// The connection is closed; the direction is that of the last packet
    /// of the closing, a RST or the answer to the second FIN.
    Closed(PacketDir),
}

impl ConnState {
    /// The same state with the direction it names flipped.
    pub open spec fn mirrored(self) -> ConnState {
        match self {
            ConnState::Created => ConnState::Created,
            ConnState::SynSent(dir, expected) => ConnState::SynSent(dir.flipped(), expected),
            ConnState::Established(dir) => ConnState::Established(dir.flipped()),
            ConnState::FinWait1(dir, expected) => ConnState::FinWait1(dir.flipped(), expected),
            ConnState::FinWait2(dir, expected) => ConnState::FinWait2(dir.flipped(), expected),
            ConnState::Closed(dir) => ConnState::Closed(dir.flipped()),
        }
    }
}

/// Whether endpoint `a` comes before endpoint `b`, by IP and then by port.
pub open spec fn endpoint_below(ip_a: u32, port_a: u16, ip_b: u32, port_b: u16) -> bool {
    ip_a < ip_b || (ip_a == ip_b && port_a < port_b)
}

/// The connection signature of two endpoints in order: the lower port in
/// bits 0 to 15, the lower IP in bits 16 to 47, the higher port in bits 48
/// to 63 and the higher IP in bits 64 to 95.
pub open spec fn pack_endpoints(low_ip: u32, low_port: u16, high_ip: u32, high_port: u16) -> u128 {
    (low_port + low_ip * 0x1_0000 + high_port * 0x1_0000_0000_0000 + high_ip
        * 0x1_0000_0000_0000_0000) as u128
}

/// The signature of the connection that a packet from `src` to `dst`
/// belongs to, and the direction of the packet within it.
pub open spec fn signature(src_ip: u32, src_port: u16, dst_ip: u32, dst_port: u16) -> (
    u128,
    PacketDir,
) {
    if endpoint_below(src_ip, src_port, dst_ip, dst_port) {
        (pack_endpoints(src_ip, src_port, dst_ip, dst_port), PacketDir::SrcLowAddr)
    } else {
        (pack_endpoints(dst_ip, dst_port, src_ip, src_port), PacketDir::SrcHighAddr)
    }
}

/// The IP of the lower or of the higher endpoint of a signature.
pub open spec fn signed_ip(sign: u128, low_address: bool) -> u32 {
    if low_address {
        ((sign / 0x1_0000) % 0x1_0000_0000) as u32
    } else {
        ((sign / 0x1_0000_0000_0000_0000) % 0x1_0000_0000) as u32
    }
}

/// The port of the lower or of the higher endpoint of a signature.
pub open spec fn signed_port(sign: u128, low_address: bool) -> u16 {
    if low_address {
        (sign % 0x1_0000) as u16
    } else {
        ((sign / 0x1_0000_0000_0000) % 0x1_0000) as u16
    }
}

/// The sequence number that follows `seq` in the 32-bit sequence space.
pub open spec fn seq_after(seq: u32) -> u32 {
    if seq == u32::MAX {
        0
    } else {
        (seq + 1) as u32
    }
}

/// Whether a packet is the acknowledgement that closes a connection in
/// which both sides have sent their FIN.
pub open spec fn answers_last_fin(state: ConnState, dir: PacketDir, segment: SegmentModel) -> bool {
    state matches ConnState::FinWait2(waiting, expected) && waiting != dir && segment.ack
        && segment.sequence_number == expected
}

/// Whether a packet is one of the two SYN packets of a handshake: the SYN
/// that opens a new connection, or the SYN/ACK from the other side that
/// acknowledges it.
pub open spec fn opens_flow(state: ConnState, dir: PacketDir, segment: SegmentModel) -> bool {
    !segment.rst && !segment.fin && match state {
        ConnState::Created => segment.syn && !segment.ack,
        ConnState::SynSent(sender, expected) => segment.syn && segment.ack && sender != dir
            && segment.acknowledgment_number == expected,
        _ => false,
    }
}

/// The state of a connection after a packet of direction `dir`.
///
/// A RST closes the connection, and so does the answer to the second FIN.
/// Failing that, a FIN moves an established connection to `FinWait1` and,
/// from the other side, a connection in `FinWait1` to `FinWait2`. Failing
/// that, a SYN moves a new connection to `SynSent`, and the matching
/// SYN/ACK from the other side moves it on to `Established`. Every other
/// packet leaves the state as it is.
pub open spec fn next_state(state: ConnState, dir: PacketDir, segment: SegmentModel) -> ConnState {
    if segment.rst || answers_last_fin(state, dir, segment) {
        ConnState::Closed(dir)
    } else if segment.fin {
        match state {
            ConnState::Established(_) => ConnState::FinWait1(
                dir,
                seq_after(segment.sequence_number),
            ),
            ConnState::FinWait1(waiting, _) if waiting != dir => ConnState::FinWait2(
                dir,
                seq_after(segment.sequence_number),
            ),
            _ => state,
        }
    } else if opens_flow(state, dir, segment) {
        match state {
            ConnState::SynSent(sender, _) => ConnState::Established(sender),
            _ => ConnState::SynSent(dir, seq_after(segment.sequence_number)),
        }
    } else {
        state
    }
}

/// How loud a log record is.
#[derive(Clone, Copy, Debug, PartialEq, Eq, Structural)]
pub enum LogLevel {
    Debug,
    Trace,
}

/// The shape of the log record of a packet.
#[derive(Clone, Copy, Debug, PartialEq, Eq, Structural)]
pub enum LogKind {
    /// An acknowledgement without payload on an established connection.
    Ack,
    /// Payload on an established connection.
    Data,
    /// Any other packet, with the endpoints and the flags spelled out.
    Summary(LogLevel),
}

/// The shape of the log record of a packet with `payload_len` payload
/// bytes on a connection in state `state`, which is the state that the
/// packet left it in.
///
/// On an established connection a SYN, which has just established it, is
/// summarised at debug level; every other packet is logged at trace level,
/// by its payload if it has one, else by its acknowledgement if it has
/// one, else as a summary. A packet of a connection that has seen no SYN
/// is summarised at trace level, every other packet at debug level.
pub open spec fn log_kind(state: ConnState, segment: SegmentModel, payload_len: u16) -> LogKind {
    match state {
        ConnState::Established(_) => if segment.syn {
            LogKind::Summary(LogLevel::Debug)
        } else if payload_len > 0 {
            LogKind::Data
        } else if segment.ack {
            LogKind::Ack
        } else {
            LogKind::Summary(LogLevel::Trace)
        },
        ConnState::Created => LogKind::Summary(LogLevel::Trace),
        _ => LogKind::Summary(LogLevel::Debug),
    }
}

/// What there is to log of a packet.
#[derive(Clone, Debug, PartialEq, Eq)]
pub enum LogRecord {
    /// An acknowledgement: the acknowledged offset in the opposite flow,
    /// where there is one, and the scaled window.
    Ack { conn_sequence: u32, dir: PacketDir, relative_ack: Option<u64>, window: u32 },
    /// Payload: its offset in the flow, where it has one, and its length.
    Data { conn_sequence: u32, dir: PacketDir, relative_seq: Option<u64>, len: u16 },
    /// The endpoints, the direction, the payload length and the flags.
    Summary {
        level: LogLevel,
        conn_sequence: u32,
        low: String,
        dir: PacketDir,
        high: String,
        len: u16,
        flags: &'static str,
    },
}

impl LogRecord {
    /// The shape of the record.
    pub open spec fn kind(self) -> LogKind {
        match self {
            LogRecord::Ack { .. } => LogKind::Ack,
            LogRecord::Data { .. } => LogKind::Data,
            LogRecord::Summary { level, .. } => LogKind::Summary(level),
        }
    }

    /// Whether the record is that of a packet of direction `dir` with
    /// `payload_len` payload bytes, which `conn` has taken in: it has the
    /// shape that goes with the state, and its fields hold the serial
    /// number, the direction, and what goes with the shape.
    pub open spec fn describes(
        self,
        conn: ConnModel,
        segment: SegmentModel,
        payload_len: u16,
        dir: PacketDir,
    ) -> bool {
        &&& self.kind() == log_kind(conn.state, segment, payload_len)
        &&& match self {
            LogRecord::Ack { conn_sequence, dir: sent, relative_ack, window } => {
                &&& conn_sequence == conn.conn_sequence
                &&& sent == dir
                &&& relative_ack == conn.flow(dir.flipped()).checked_relative(
                    segment.acknowledgment_number,
                )
                &&& window == conn.flow(dir.flipped()).scaled(segment.window_size)
            },
            LogRecord::Data { conn_sequence, dir: sent, relative_seq, len } => {
                &&& conn_sequence == conn.conn_sequence
                &&& sent == dir
                &&& relative_seq == conn.flow(dir).checked_relative(segment.sequence_number)
                &&& len == payload_len
            },
            LogRecord::Summary { level, conn_sequence, low, dir: sent, high, len, flags } => {
                &&& conn_sequence == conn.conn_sequence
                &&& sent == dir
                &&& low@ == endpoint_text(
                    signed_ip(conn.conn_sign, true),
                    signed_port(conn.conn_sign, true),
                )
                &&& high@ == endpoint_text(
                    signed_ip(conn.conn_sign, false),
                    signed_port(conn.conn_sign, false),
                )
                &&& len == payload_len
                &&& flags@ == flags_label(segment)
            },
        }
    }

    /// The level at which the record is logged.
    pub fn level(&self) -> (level: LogLevel)
        ensures
            level == match self.kind() {
                LogKind::Summary(level) => level,
                _ => LogLevel::Trace,
            },
    {
        match self {
            LogRecord::Summary { level, .. } => *level,
            _ => LogLevel::Trace,
        }
    }
}

/// One packet as a connection sees it: its direction, its headers and its
/// payload.
pub struct Packet {
    pub dir: PacketDir,
    pub segment: SegmentModel,
    pub payload: Seq<u8>,
}

impl Packet {
    /// The same packet, labelled with the other direction.
    pub open spec fn mirrored(self) -> Packet {
        Packet { dir: self.dir.flipped(), ..self }
    }
}

/// The mathematical content of a [`Conn`].
pub struct ConnModel {
    /// Where the connection stands in its life.
    pub state: ConnState,
    /// Serial number of the connection.
    pub conn_sequence: u32,
    /// Signature of the two endpoints.
    pub conn_sign: u128,
    /// The flow from the lower to the higher address.
    pub low: FlowModel,
    /// The flow from the higher to the lower address.
    pub high: FlowModel,
}

impl ConnModel {
    /// A connection that has seen nothing.
    pub open spec fn fresh(conn_sequence: u32, conn_sign: u128) -> ConnModel {
        ConnModel {
            state: ConnState::Created,
            conn_sequence,
            conn_sign,
            low: FlowModel::fresh(),
            high: FlowModel::fresh(),
        }
    }

    /// The connection as it looks when the two directions change names:
    /// the two flows change places, and the state names the other side.
    pub open spec fn mirrored(self) -> ConnModel {
        ConnModel { state: self.state.mirrored(), low: self.high, high: self.low, ..self }
    }

    /// The connection after the packets of `packets` were taken in, in
    /// order.
    pub open spec fn replayed(self, packets: Seq<Packet>) -> ConnModel
        decreases packets.len(),
    {
        if packets.len() == 0 {
            self
        } else {
            let last = packets.last();
            self.replayed(packets.drop_last()).after_segment(last.dir, last.segment, last.payload)
        }
    }

    /// The flow of the packets sent in direction `dir`.
    pub open spec fn flow(self, dir: PacketDir) -> FlowModel {
        match dir {
            PacketDir::SrcLowAddr => self.low,
            PacketDir::SrcHighAddr => self.high,
        }
    }

    /// The connection with `flow` in place of its flow of direction `dir`.
    pub open spec fn with_flow(self, dir: PacketDir, flow: FlowModel) -> ConnModel {
        match dir {
            PacketDir::SrcLowAddr => ConnModel { low: flow, ..self },
            PacketDir::SrcHighAddr => ConnModel { high: flow, ..self },
        }
    }

    /// The invariant of a connection: both flows are well formed, and the
    /// flows that the state says have sent their SYN know their initial
    /// sequence number.
    pub open spec fn wf(self) -> bool {
        &&& self.low.wf()
        &&& self.high.wf()
        &&& match self.state {
            ConnState::Created | ConnState::Closed(_) => true,
            ConnState::SynSent(sender, _) => self.flow(sender).isn is Some,
            _ => self.low.isn is Some && self.high.isn is Some,
        }
    }

    /// Whether no flow knows an initial sequence number that the state
    /// does not account for: none before a SYN was seen, and only that of
    /// the sender while its SYN is unanswered. This holds of a connection
    /// that has only ever taken in packets.
    pub open spec fn isn_follows_state(self) -> bool {
        match self.state {
            ConnState::Created => self.low.isn is None && self.high.isn is None,
            ConnState::SynSent(sender, _) => self.flow(sender.flipped()).isn is None,
            _ => true,
        }
    }

    /// Whether a direction has at least `min` bytes in its first filled
    /// range.
    pub open spec fn ready_bytes(self, min: usize) -> bool {
        self.low.ready_bytes(min) || self.high.ready_bytes(min)
    }

    /// The flow of direction `dir` after the options of a SYN were
    /// scanned: with the window shift they announce, if any.
    pub open spec fn with_options(self, dir: PacketDir, options: Seq<
        crate::segment::TcpOption,
    >) -> ConnModel {
        match announced_window_shift(options) {
            Some(shift) => self.with_flow(dir, self.flow(dir).with_window_shift(shift)),
            None => self,
        }
    }

    /// The connection after the flags of a packet of direction `dir` were
    /// looked at: in its next state, and for a SYN of a handshake with the
    /// initial sequence number and the window shift of the sender.
    pub open spec fn after_flags(self, dir: PacketDir, segment: SegmentModel) -> ConnModel {
        let moved = ConnModel { state: next_state(self.state, dir, segment), ..self };
        if opens_flow(self.state, dir, segment) {
            moved.with_flow(dir, moved.flow(dir).with_isn(segment.sequence_number)).with_options(
                dir,
                segment.options,
            )
        } else {
            moved
        }
    }

    /// What there is to report of the payload of a packet of direction
    /// `dir`, once its flags were looked at.
    pub open spec fn report(self, dir: PacketDir, segment: SegmentModel) -> AddReport {
        self.after_flags(dir, segment).flow(dir).report(
            segment.sequence_number,
            segment.payload_len() as nat,
        )
    }

    /// The connection after a packet of direction `dir` with payload
    /// `payload`: the flags are looked at, then the packet is accounted to
    /// the flow of its direction.
    pub open spec fn after_segment(
        self,
        dir: PacketDir,
        segment: SegmentModel,
        payload: Seq<u8>,
    ) -> ConnModel {
        let flagged = self.after_flags(dir, segment);
        flagged.with_flow(dir, flagged.flow(dir).added(segment.sequence_number, payload))
    }
}

/// The moment at which a connection was first seen.
#[verifier::external_type_specification]
#[verifier::external_body]
pub struct ExInstant(Instant);

/// `Clone` of `std::time::Instant`, which a clone of a connection calls.
///
/// Trusted: nothing is claimed of the copy.
pub assume_specification[ <Instant as Clone>::clone ](moment: &Instant) -> (copy: Instant)
;

/// Reads the clock with `std::time::Instant::now`.
///
/// Trusted: nothing is claimed of the moment returned.
#[verifier::external_body]
fn now() -> Instant {
    Instant::now()
}

/// A TCP connection, with the buffers and statistics of its two flows.
/// The lower address (by IP, then port) is the source of the first flow.
#[derive(Clone, Debug)]
pub struct Conn {
    /// When the connection was first seen.
    start_time: Instant,
    /// Where the connection stands in its life.
    state: ConnState,
    /// Serial number of the connection, counted over all connections.
    conn_sequence: u32,
    /// Signature made of the IPs and ports of the two endpoints.
    conn_sign: u128,
    /// Buffer and statistics of the flow from the low to the high address.
    flow_src_low: FlowBuff,
    /// Buffer and statistics of the flow from the high to the low address.
    flow_src_high: FlowBuff,
}

impl View for Conn {
    type V = ConnModel;

    closed spec fn view(&self) -> ConnModel {
        ConnModel {
            state: self.state,
            conn_sequence: self.conn_sequence,
            conn_sign: self.conn_sign,
            low: self.flow_src_low@,
            high: self.flow_src_high@,
        }
    }
}

impl Conn {
    /// The moment at which the connection was first seen. It is read from
    /// the clock when the connection is made and is no part of its
    /// mathematical content.
    pub closed spec fn started(&self) -> Instant {
        self.start_time
    }
}

/// Packs two endpoints in order into a signature.
fn pack(low_ip: u32, low_port: u16, high_ip: u32, high_port: u16) -> (sign: u128)
    ensures
        sign == pack_endpoints(low_ip, low_port, high_ip, high_port),
{
    (low_port as u128) + (low_ip as u128) * 0x1_0000 + (high_port as u128) * 0x1_0000_0000_0000
        + (high_ip as u128) * 0x1_0000_0000_0000_0000
}

/// The sequence number that follows `seq`.
fn following(seq: u32) -> (next: u32)
    ensures
        next == seq_after(seq),
{
    if seq == u32::MAX {
        0
    } else {
        seq + 1
    }
}

impl Conn {
    /// A connection in state `Created`, with two empty flows.
    pub fn new(conn_sequence: u32, conn_sign: u128) -> (conn: Self)
        ensures
            conn@ == ConnModel::fresh(conn_sequence, conn_sign),
            conn@.wf(),
    {
        Self {
            state: ConnState::Created,
            start_time: now(),
            conn_sequence,
            conn_sign,
            flow_src_low: FlowBuff::new(),
            flow_src_high: FlowBuff::new(),
        }
    }

    /// Where the connection stands in its life.
    pub fn state(&self) -> (state: ConnState)
        ensures
            state == self@.state,
    {
        self.state
    }

    /// Serial number of the connection.
    pub fn conn_sequence(&self) -> (serial: u32)
        ensures
            serial == self@.conn_sequence,
    {
        self.conn_sequence
    }

    /// Signature of the two endpoints.
    pub fn conn_sign(&self) -> (sign: u128)
        ensures
            sign == self@.conn_sign,
    {
        self.conn_sign
    }

    /// When the connection was first seen: the moment taken down when it
    /// was made, which nothing that the connection takes in changes.
    pub fn start_time(&self) -> (moment: Instant)
        ensures
            moment == self.started(),
    {
        self.start_time
    }

    /// The flow from the low to the high address.
    pub fn flow_src_low(&self) -> (flow: &FlowBuff)
        ensures
            flow@ == self@.low,
    {
        &self.flow_src_low
    }

    /// The flow from the high to the low address.
    pub fn flow_src_high(&self) -> (flow: &FlowBuff)
        ensures
            flow@ == self@.high,
    {
        &self.flow_src_high
    }

    /// The flow of the packets sent in direction `packet_dir`.
    pub fn flow(&self, packet_dir: &PacketDir) -> (flow: &FlowBuff)
        ensures
            flow@ == self@.flow(*packet_dir),
    {
        match packet_dir {
            PacketDir::SrcLowAddr => &self.flow_src_low,
            PacketDir::SrcHighAddr => &self.flow_src_high,
        }
    }

    /// Records the initial sequence number of the flow of `packet_dir`, for
    /// later sequence tracing and buffering.
    pub fn set_initial_sequence_number(
        &mut self,
        packet_dir: &PacketDir,
        initial_sequence_number: u32,
    )
        ensures
            final(self)@ == old(self)@.with_flow(
                *packet_dir,
                old(self)@.flow(*packet_dir).with_isn(initial_sequence_number),
            ),
            old(self)@.wf() ==> final(self)@.wf(),
            final(self).started() == old(self).started(),
    {
        match packet_dir {
            PacketDir::SrcLowAddr => {
                self.flow_src_low.set_initial_sequence_number(initial_sequence_number)
            },
            PacketDir::SrcHighAddr => {
                self.flow_src_high.set_initial_sequence_number(initial_sequence_number)
            },
        }
    }

    /// The text `IP:port` of the lower or of the higher address.
    pub fn addresses_as_str(&self, low_address: bool) -> (text: String)
        ensures
            text@ == endpoint_text(
                signed_ip(self@.conn_sign, low_address),
                signed_port(self@.conn_sign, low_address),
            ),
    {
        if low_address {
            return format_endpoint(
                ((self.conn_sign / 0x1_0000) % 0x1_0000_0000) as u32,
                (self.conn_sign % 0x1_0000) as u16,
            );
        }
        return format_endpoint(
            ((self.conn_sign / 0x1_0000_0000_0000_0000) % 0x1_0000_0000) as u32,
            ((self.conn_sign / 0x1_0000_0000_0000) % 0x1_0000) as u16,
        );
    }

    /// The signature of the connection that a packet from `src` to `dst`
    /// belongs to, and the direction of the packet within it. The two
    /// endpoints are put in order, so that both directions of a connection
    /// get the same signature.
    pub fn sign_by_tuple(src_ip: u32, src_port: u16, dst_ip: u32, dst_port: u16) -> (signed: (
        u128,
        PacketDir,
    ))
        ensures
            signed == signature(src_ip, src_port, dst_ip, dst_port),
    {
        if src_ip < dst_ip || (src_ip == dst_ip && src_port < dst_port) {
            return (pack(src_ip, src_port, dst_ip, dst_port), PacketDir::SrcLowAddr);
        }
        return (pack(dst_ip, dst_port, src_ip, src_port), PacketDir::SrcHighAddr);
    }

    /// Accounts for one segment of direction `packet_dir`, whose payload is
    /// the last `byte_count` bytes of `data`.
    pub fn add_bytes(
        &mut self,
        tcp_seq: u32,
        byte_count: usize,
        packet_dir: &PacketDir,
        data: &[u8],
    ) -> (report: AddReport)
        requires
            byte_count <= data.len(),
            old(self)@.flow(*packet_dir).accepts(byte_count as nat),
        ensures
            final(self)@ == old(self)@.with_flow(
                *packet_dir,
                old(self)@.flow(*packet_dir).added(
                    tcp_seq,
                    data@.subrange(data.len() - byte_count, data.len() as int),
                ),
            ),
            old(self)@.wf() ==> final(self)@.wf(),
            final(self).started() == old(self).started(),
            report == old(self)@.flow(*packet_dir).report(tcp_seq, byte_count as nat),
    {
        match packet_dir {
            PacketDir::SrcLowAddr => { self.flow_src_low.add_bytes(tcp_seq, byte_count, data) },
            PacketDir::SrcHighAddr => { self.flow_src_high.add_bytes(tcp_seq, byte_count, data) },
        }
    }

    /// Whether one of the directions has at least `min_ready_bytes` in its
    /// first filled range.
    pub fn has_ready_bytes(&self, min_ready_bytes: usize) -> (ready: bool)
        ensures
            ready == self@.ready_bytes(min_ready_bytes),
    {
        return self.flow_src_low.has_ready_bytes(min_ready_bytes)
            || self.flow_src_high.has_ready_bytes(min_ready_bytes);
    }

    /// A flow with a buffer to process: one whose first filled range holds
    /// at least `min_ready_bytes`, or any bytes if the connection is
    /// closed. The flow from the low address is looked at first.
    pub fn pop_ready_buffer(&self, closed_connection: bool, min_ready_bytes: usize) -> (ready:
        Option<&FlowBuff>)
        ensures
            match ready {
                Some(flow) => if self@.low.ready_buffer(closed_connection, min_ready_bytes) {
                    flow@ == self@.low
                } else {
                    self@.high.ready_buffer(closed_connection, min_ready_bytes) && flow@
                        == self@.high
                },
                None => !self@.low.ready_buffer(closed_connection, min_ready_bytes)
                    && !self@.high.ready_buffer(closed_connection, min_ready_bytes),
            },
    {
        if self.flow_src_low.has_ready_buffer(closed_connection, min_ready_bytes) {
            return Some(&self.flow_src_low);
        }
        if self.flow_src_high.has_ready_buffer(closed_connection, min_ready_bytes) {
            return Some(&self.flow_src_high);
        }
        return None;
    }

    /// The offset of sequence number `seq` in the buffer of the flow of
    /// `packet_dir`, where it has one.
    pub fn relative_seq(&self, packet_dir: &PacketDir, seq: u32) -> (offset: Option<u64>)
        ensures
            offset == self@.flow(*packet_dir).checked_relative(seq),
    {
        let flow = match packet_dir {
            PacketDir::SrcLowAddr => &self.flow_src_low,
            _ => &self.flow_src_high,
        };
        flow.checked_relative_seq(seq)
    }

    /// The offset of acknowledgement number `ack`, sent in direction
    /// `packet_dir`, in the buffer of the flow that it acknowledges, where
    /// it has one.
    pub fn relative_ack(&self, packet_dir: &PacketDir, ack: u32) -> (offset: Option<u64>)
        ensures
            offset == self@.flow(packet_dir.flipped()).checked_relative(ack),
    {
        let flow = match packet_dir {
            PacketDir::SrcLowAddr => &self.flow_src_high,
            _ => &self.flow_src_low,
        };
        flow.checked_relative_seq(ack)
    }

    /// The window that `window`, advertised in direction `packet_dir`,
    /// stands for under the window multiplier of the opposite flow.
    pub fn scaled_window(&self, packet_dir: &PacketDir, window: u16) -> (scaled: u32)
        ensures
            scaled == self@.flow(packet_dir.flipped()).scaled(window),
    {
        match packet_dir {
            PacketDir::SrcLowAddr => { self.flow_src_high.scaled_window(window) },
            _ => { self.flow_src_low.scaled_window(window) },
        }
    }

    /// Takes from the options of a SYN what the flow of `packet_dir` keeps:
    /// the window shift, where one from `1` to `14` is announced.
    pub fn process_tcp_options(&mut self, packet_dir: &PacketDir, tcp: &TcpSegment)
        ensures
            final(self)@ == old(self)@.with_options(*packet_dir, tcp@.options),
            old(self)@.wf() ==> final(self)@.wf(),
            final(self).started() == old(self).started(),
    {
        match window_shift_of(tcp.options.as_slice()) {
            Some(shift) => match packet_dir {
                PacketDir::SrcLowAddr => { self.flow_src_low.set_window_shift(shift) },
                _ => { self.flow_src_high.set_window_shift(shift) },
            },
            None => {},
        }
    }

    /// Moves the state on by the flags of a packet of direction
    /// `packet_dir`. For a SYN of a handshake, the initial sequence number
    /// and the options of the sender are taken down as well.
    pub fn update_state(&mut self, packet_dir: &PacketDir, tcp: &TcpSegment)
        ensures
            final(self)@ == old(self)@.after_flags(*packet_dir, tcp@),
            old(self)@.wf() ==> final(self)@.wf(),
            final(self).started() == old(self).started(),
    {
        let answers_last_fin = match self.state {
            ConnState::FinWait2(waiting, expected) => waiting != *packet_dir && tcp.ack
                && tcp.sequence_number == expected,
            _ => false,
        };
        if tcp.rst || answers_last_fin {
            // With a RST it does not matter who sent first.
            self.state = ConnState::Closed(*packet_dir);
        } else if tcp.fin {
            match self.state {
                // One side signals that it wants to close.
                ConnState::Established(_) => {
                    self.state = ConnState::FinWait1(*packet_dir, following(tcp.sequence_number));
                },
                // The other side may send a FIN of its own.
                ConnState::FinWait1(waiting, _) => {
                    if waiting != *packet_dir {
                        self.state = ConnState::FinWait2(
                            *packet_dir,
                            following(tcp.sequence_number),
                        );
                    }
                },
                _ => {},
            }
        } else {
            match self.state {
                ConnState::Created => {
                    // A SYN without ACK.
                    if tcp.syn && !tcp.ack {
                        self.state = ConnState::SynSent(
                            *packet_dir,
                            following(tcp.sequence_number),
                        );
                        self.set_initial_sequence_number(packet_dir, tcp.sequence_number);
                        self.process_tcp_options(packet_dir, tcp);
                    }
                },
                ConnState::SynSent(sender, expected) => {
                    if tcp.syn && tcp.ack && sender != *packet_dir && tcp.acknowledgment_number
                        == expected {
                        self.state = ConnState::Established(sender);
                        self.set_initial_sequence_number(packet_dir, tcp.sequence_number);
                        self.process_tcp_options(packet_dir, tcp);
                    }
                },
                _ => {},
            }
        }
    }

    /// Takes in one packet of direction `packet_dir`, whose payload is the
    /// end of `data`: moves the state on by its flags, then accounts for
    /// it in the flow of its direction.
    pub fn process_segment(&mut self, packet_dir: &PacketDir, tcp: &TcpSegment, data: &[u8]) -> (report:
        AddReport)
        requires
            0 <= tcp@.payload_len() <= data.len(),
            old(self)@.flow(*packet_dir).accepts(tcp@.payload_len() as nat),
        ensures
            final(self)@ == old(self)@.after_segment(
                *packet_dir,
                tcp@,
                data@.subrange(data.len() - tcp@.payload_len(), data.len() as int),
            ),
            old(self)@.wf() ==> final(self)@.wf(),
            final(self).started() == old(self).started(),
            report == old(self)@.report(*packet_dir, tcp@),
    {
        let payload_len = tcp.payload_len().unwrap();
        self.update_state(packet_dir, tcp);
        self.add_bytes(tcp.sequence_number, payload_len as usize, packet_dir, data)
    }

    /// What there is to log of a packet of direction `packet_dir` with
    /// `tcp_payload_len` payload bytes, once the connection has taken it
    /// in.
    pub fn log_record(&self, tcp: &TcpSegment, tcp_payload_len: u16, packet_dir: &PacketDir) -> (record:
        LogRecord)
        ensures
            record.describes(self@, tcp@, tcp_payload_len, *packet_dir),
    {
        let level = match self.state {
            ConnState::Established(_) => {
                if tcp.syn {
                    // Established just now by one of the parties.
                    LogLevel::Debug
                } else if tcp_payload_len > 0 {
                    return LogRecord::Data {
                        conn_sequence: self.conn_sequence,
                        dir: *packet_dir,
                        relative_seq: self.relative_seq(packet_dir, tcp.sequence_number),
                        len: tcp_payload_len,
                    };
                } else if tcp.ack {
                    return LogRecord::Ack {
                        conn_sequence: self.conn_sequence,
                        dir: *packet_dir,
                        relative_ack: self.relative_ack(packet_dir, tcp.acknowledgment_number),
                        window: self.scaled_window(packet_dir, tcp.window_size),
                    };
                } else {
                    LogLevel::Trace
                }
            },
            // Packets and still no SYN: the connection was established
            // before the capture began.
            ConnState::Created => LogLevel::Trace,
            _ => LogLevel::Debug,
        };
        LogRecord::Summary {
            level,
            conn_sequence: self.conn_sequence,
            low: self.addresses_as_str(true),
            dir: *packet_dir,
            high: self.addresses_as_str(false),
            len: tcp_payload_len,
            flags: tcp_flags_to_string(tcp),
        }
    }
}

} // verus!
