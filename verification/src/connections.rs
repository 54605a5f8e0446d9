//! The registry of the connections seen on a capture, by signature, and
//! the counters of what was captured.

use std::collections::hash_map::Entry;
use std::collections::HashMap;
use vstd::prelude::*;
use vstd::std_specs::hash::{axiom_spec_hash_map_iter, group_hash_axioms, spec_hash_map_iter};
use vstd::std_specs::iter::IteratorSpec;
use crate::conn::{signature, Conn, ConnModel, ConnState, LogRecord, PacketDir};
use crate::flow_buff::{AddReport, FlowModel};
use crate::segment::{decode_frame, decoded_frame, Frame, FrameModel, SegmentModel, TcpSegment};

verus! {

/// The number of packets a registry takes in. It keeps every counter of
/// the registry and of its flows within its machine representation.
pub const MAX_PACKETS: u64 = 0xffff_fff0;

/// The most payload a single segment carries.
pub const MAX_SEGMENT_PAYLOAD: u64 = 0xffff;

/// The mathematical content of a [`Connections`].
#[verifier::ext_equal]
pub struct RegistryModel {
    /// The connections, by signature.
    pub conns: Map<u128, ConnModel>,
    /// Connections ever added.
    pub conn_alltime_count: nat,
    /// Packets ever handed in, dropped ones included.
    pub packet_count: nat,
    /// Packets dropped because the capture was shorter than the packet.
    pub packet_len_error_count: nat,
    /// Packets dropped because they could not be read.
    pub packet_parsing_error_count: nat,
    /// Packets dropped because they were no TCP over IPv4.
    pub packet_not_tcp_count: nat,
}

/// How far a flow of a registry can have got after `packets` packets.
pub open spec fn flow_within(flow: FlowModel, packets: nat) -> bool {
    flow.packet_count <= packets && flow.byte_count <= MAX_SEGMENT_PAYLOAD * flow.packet_count
}

impl RegistryModel {
    /// A registry that has seen nothing.
    pub open spec fn empty() -> RegistryModel {
        RegistryModel {
            conns: Map::empty(),
            conn_alltime_count: 0,
            packet_count: 0,
            packet_len_error_count: 0,
            packet_parsing_error_count: 0,
            packet_not_tcp_count: 0,
        }
    }

    /// The invariant of a registry: every connection is well formed, has
    /// taken down initial sequence numbers only as its state tells, is
    /// filed under its own signature and has a serial number of its own,
    /// not above the number of connections ever added; no flow has seen
    /// more than the registry has; and the dropped packets and the
    /// connections are no more than the packets handed in.
    pub open spec fn wf(self) -> bool {
        &&& self.conns.dom().finite()
        &&& forall|sign: u128| #[trigger]
            self.conns.contains_key(sign) ==> {
                &&& self.conns[sign].wf()
                &&& self.conns[sign].isn_follows_state()
                &&& self.conns[sign].conn_sign == sign
                &&& 1 <= self.conns[sign].conn_sequence <= self.conn_alltime_count
                &&& flow_within(self.conns[sign].low, self.packet_count)
                &&& flow_within(self.conns[sign].high, self.packet_count)
            }
        &&& forall|a: u128, b: u128|
            self.conns.contains_key(a) && self.conns.contains_key(b) && a != b ==> (
            #[trigger] self.conns[a]).conn_sequence != (#[trigger] self.conns[b]).conn_sequence
        &&& self.conn_alltime_count <= self.packet_count
        &&& self.packet_len_error_count + self.packet_parsing_error_count
            + self.packet_not_tcp_count <= self.packet_count
        &&& self.packet_count <= MAX_PACKETS
    }

    /// The registry as it looks when the two directions of every
    /// connection change names.
    pub open spec fn mirrored(self) -> RegistryModel {
        RegistryModel { conns: self.conns.map_values(|conn: ConnModel| conn.mirrored()), ..self }
    }

    /// Whether the registry can take in one more packet.
    pub open spec fn has_room(self) -> bool {
        self.packet_count < MAX_PACKETS
    }

    /// The connection of signature `sign`: the one on file, or a fresh one
    /// with the next serial number.
    pub open spec fn conn_for(self, sign: u128) -> ConnModel {
        if self.conns.contains_key(sign) {
            self.conns[sign]
        } else {
            ConnModel::fresh((self.conn_alltime_count + 1) as u32, sign)
        }
    }

    /// The registry with `conn` filed under `sign`, counted as a new
    /// connection if none was on file there.
    pub open spec fn with_conn(self, sign: u128, conn: ConnModel) -> RegistryModel {
        RegistryModel {
            conns: self.conns.insert(sign, conn),
            conn_alltime_count: if self.conns.contains_key(sign) {
                self.conn_alltime_count
            } else {
                self.conn_alltime_count + 1
            },
            ..self
        }
    }

    /// The registry after a packet was dropped as shorter than its length
    /// on the wire.
    pub open spec fn after_truncated(self) -> RegistryModel {
        RegistryModel {
            packet_count: self.packet_count + 1,
            packet_len_error_count: self.packet_len_error_count + 1,
            ..self
        }
    }

    /// The registry after a packet was dropped as unreadable.
    pub open spec fn after_unreadable(self) -> RegistryModel {
        RegistryModel {
            packet_count: self.packet_count + 1,
            packet_parsing_error_count: self.packet_parsing_error_count + 1,
            ..self
        }
    }

    /// The registry after a packet was dropped as no TCP over IPv4.
    pub open spec fn after_foreign(self) -> RegistryModel {
        RegistryModel {
            packet_count: self.packet_count + 1,
            packet_not_tcp_count: self.packet_not_tcp_count + 1,
            ..self
        }
    }

    /// The registry after a TCP segment with payload `payload` was taken
    /// in: the packet is counted, and the connection of its two endpoints,
    /// added if it is new, takes it in.
    pub open spec fn after_segment(self, segment: SegmentModel, payload: Seq<u8>) -> RegistryModel {
        let (sign, dir) = signature(
            segment.source_ip,
            segment.source_port,
            segment.destination_ip,
            segment.destination_port,
        );
        RegistryModel { packet_count: self.packet_count + 1, ..self }.with_conn(
            sign,
            self.conn_for(sign).after_segment(dir, segment, payload),
        )
    }

    /// Whether the payload of a segment, by the lengths in its headers,
    /// lies within a frame of `captured` bytes.
    pub open spec fn holds_payload(segment: SegmentModel, captured: nat) -> bool {
        0 <= segment.payload_len() <= captured
    }

    /// The registry after a captured frame, read as `decoded`, was handed
    /// in. The payload of a segment is the end of the frame. A segment
    /// whose headers announce a payload that the frame cannot hold is
    /// dropped as unreadable.
    pub open spec fn after_frame(self, decoded: FrameModel, frame: Seq<u8>) -> RegistryModel {
        match decoded {
            FrameModel::Malformed => self.after_unreadable(),
            FrameModel::NotTcp => self.after_foreign(),
            FrameModel::Tcp(segment) => if Self::holds_payload(segment, frame.len()) {
                self.after_segment(
                    segment,
                    frame.subrange(frame.len() - segment.payload_len(), frame.len() as int),
                )
            } else {
                self.after_unreadable()
            },
        }
    }

    /// The registry after a packet was handed in, of which `frame` was
    /// captured and which was `wire_len` bytes long on the wire.
    pub open spec fn after_packet(self, frame: Seq<u8>, wire_len: u32) -> RegistryModel {
        if frame.len() < wire_len {
            self.after_truncated()
        } else {
            self.after_frame(decoded_frame(frame), frame)
        }
    }

    /// Whether a connection is picked by the rules of a consumer: it is
    /// closed and closed ones are asked for, or one of its directions has
    /// at least `min_ready_bytes` ready.
    pub open spec fn picks(conn: ConnModel, closed: bool, min_ready_bytes: usize) -> bool {
        (closed && conn.state is Closed) || conn.ready_bytes(min_ready_bytes)
    }
}

/// What the registry did with a TCP segment that it took in.
#[derive(Clone, Debug, PartialEq, Eq)]
pub struct Accepted {
    /// Signature of the connection of the segment.
    pub conn_sign: u128,
    /// Direction of the segment within its connection.
    pub dir: PacketDir,
    /// What became of its payload.
    pub report: AddReport,
    /// What there is to log of it.
    pub log: LogRecord,
}

impl Accepted {
    /// Whether this is the account of taking in `segment`, which led from
    /// registry `before` to registry `after`.
    pub open spec fn accounts_for(
        self,
        before: RegistryModel,
        after: RegistryModel,
        segment: SegmentModel,
    ) -> bool {
        &&& (self.conn_sign, self.dir) == signature(
            segment.source_ip,
            segment.source_port,
            segment.destination_ip,
            segment.destination_port,
        )
        &&& self.report == before.conn_for(self.conn_sign).report(self.dir, segment)
        &&& self.log.describes(
            after.conns[self.conn_sign],
            segment,
            segment.payload_len() as u16,
            self.dir,
        )
    }
}

/// What the registry did with a packet.
#[derive(Clone, Debug, PartialEq, Eq)]
pub enum PacketOutcome {
    /// Dropped: less was captured than was on the wire.
    Truncated,
    /// Dropped: the frame could not be read.
    Unreadable,
    /// Dropped: the frame is no TCP over IPv4.
    NotTcp,
    /// Taken in by its connection.
    Accepted(Accepted),
}

/// The TCP connections seen, with the statistics of the capture.
#[derive(Clone, Debug)]
pub struct Connections {
    /// The connections, by the signature of their two endpoints.
    conn_list: HashMap<u128, Conn>,
    /// Connections ever added, removed ones included.
    conn_alltime_count: u32,
    /// Packets ever handed in, dropped ones included.
    packet_count: u64,
    /// Packets dropped because the capture was too short.
    packet_len_error_count: u32,
    /// Packets dropped because they could not be read.
    packet_parsing_error_count: u32,
    /// Packets dropped because they were no TCP over IPv4, which is
    /// normal where UDP or ICMP is captured too.
    packet_not_tcp_count: u32,
}

impl View for Connections {
    type V = RegistryModel;

    closed spec fn view(&self) -> RegistryModel {
        RegistryModel {
            conns: self.conn_list@.map_values(|conn: Conn| conn@),
            conn_alltime_count: self.conn_alltime_count as nat,
            packet_count: self.packet_count as nat,
            packet_len_error_count: self.packet_len_error_count as nat,
            packet_parsing_error_count: self.packet_parsing_error_count as nat,
            packet_not_tcp_count: self.packet_not_tcp_count as nat,
        }
    }
}

impl Connections {
    /// The moment at which the connection on file under `conn_sign` was
    /// first seen.
    pub closed spec fn started(&self, conn_sign: u128) -> std::time::Instant {
        self.conn_list@[conn_sign].started()
    }

    /// A registry without connections, all counters at zero.
    pub fn new() -> (connections: Connections)
        ensures
            connections@ == RegistryModel::empty(),
            connections@.wf(),
    {
        let connections = Connections {
            conn_list: HashMap::new(),
            conn_alltime_count: 0,
            packet_count: 0,
            packet_len_error_count: 0,
            packet_parsing_error_count: 0,
            packet_not_tcp_count: 0,
        };
        assert(connections@.conns =~= Map::empty());
        connections
    }

    /// Number of connections on file.
    pub fn len(&self) -> (len: usize)
        ensures
            len == self@.conns.len(),
    {
        broadcast use group_hash_axioms;

        assert(self@.conns.dom() =~= self.conn_list@.dom());
        self.conn_list.len()
    }

    /// The connection of signature `conn_sign`, if it is on file.
    pub fn get(&self, conn_sign: u128) -> (found: Option<&Conn>)
        ensures
            found is Some <==> self@.conns.contains_key(conn_sign),
            found matches Some(conn) ==> conn@ == self@.conns[conn_sign],
            found matches Some(conn) ==> conn.started() == self.started(conn_sign),
    {
        broadcast use group_hash_axioms;

        self.conn_list.get(&conn_sign)
    }

    /// Connections ever added.
    pub fn conn_alltime_count(&self) -> (count: u32)
        ensures
            count == self@.conn_alltime_count,
    {
        self.conn_alltime_count
    }

    /// Packets ever handed in, dropped ones included.
    pub fn packet_count(&self) -> (count: u64)
        ensures
            count == self@.packet_count,
    {
        self.packet_count
    }

    /// Packets dropped because the capture was too short.
    pub fn packet_len_error_count(&self) -> (count: u32)
        ensures
            count == self@.packet_len_error_count,
    {
        self.packet_len_error_count
    }

    /// Packets dropped because they could not be read.
    pub fn packet_parsing_error_count(&self) -> (count: u32)
        ensures
            count == self@.packet_parsing_error_count,
    {
        self.packet_parsing_error_count
    }

    /// Packets dropped because they were no TCP over IPv4.
    pub fn packet_not_tcp_count(&self) -> (count: u32)
        ensures
            count == self@.packet_not_tcp_count,
    {
        self.packet_not_tcp_count
    }

    /// Whether the registry can take in one more packet.
    pub fn has_room(&self) -> (room: bool)
        ensures
            room == self@.has_room(),
    {
        self.packet_count < MAX_PACKETS
    }

    /// The connection of signature `conn_sign`: the one on file, or a new
    /// one, which is filed and gets the next serial number.
    pub fn get_connection_or_add_new(&mut self, conn_sign: u128) -> (conn: &mut Conn)
        requires
            old(self)@.conn_alltime_count < u32::MAX,
        ensures
            (*conn)@ == old(self)@.conn_for(conn_sign),
            old(self)@.wf() ==> (*conn)@.wf(),
            final(self)@ =~= old(self)@.with_conn(conn_sign, (*final(conn))@),
            old(self)@.conns.contains_key(conn_sign) ==> (*conn).started() == old(self).started(
                conn_sign,
            ),
            final(self).started(conn_sign) == (*final(conn)).started(),
            forall|other: u128|
                other != conn_sign ==> #[trigger] final(self).started(other) == old(self).started(
                    other,
                ),
    {
        broadcast use group_hash_axioms;

        match self.conn_list.entry(conn_sign) {
            Entry::Occupied(o) => { o.into_mut() },
            Entry::Vacant(v) => {
                self.conn_alltime_count += 1;
                v.insert(Conn::new(self.conn_alltime_count, conn_sign))
            },
        }
    }

    /// Takes in a TCP segment whose payload is the end of `data`: counts
    /// the packet, finds its connection by the signature of its two
    /// endpoints, adding it if it is new, and lets the connection take the
    /// segment in.
    pub fn process_segment(&mut self, tcp: &TcpSegment, data: &[u8]) -> (accepted: Accepted)
        requires
            old(self)@.wf(),
            old(self)@.has_room(),
            RegistryModel::holds_payload(tcp@, data@.len()),
        ensures
            final(self)@ =~= old(self)@.after_segment(
                tcp@,
                data@.subrange(data.len() - tcp@.payload_len(), data.len() as int),
            ),
            final(self)@.wf(),
            accepted.accounts_for(old(self)@, final(self)@, tcp@),
            forall|sign: u128|
                old(self)@.conns.contains_key(sign) ==> #[trigger] final(self).started(sign) == old(
                    self,
                ).started(sign),
    {
        let tcp_payload_len = tcp.payload_len().unwrap();
        let (conn_sign, packet_dir) = Conn::sign_by_tuple(
            tcp.source_ip,
            tcp.source_port,
            tcp.destination_ip,
            tcp.destination_port,
        );
        self.packet_count += 1;
        let conn = self.get_connection_or_add_new(conn_sign);
        let report = conn.process_segment(&packet_dir, tcp, data);
        let log = conn.log_record(tcp, tcp_payload_len, &packet_dir);
        Accepted { conn_sign, dir: packet_dir, report, log }
    }

    /// Takes in a captured frame that was read as `frame`. A frame that
    /// could not be read or is no TCP over IPv4 is counted and dropped, and
    /// so is a segment whose headers announce more payload than `data`
    /// holds, or less than nothing.
    pub fn process_frame(&mut self, frame: &Frame, data: &[u8]) -> (outcome: PacketOutcome)
        requires
            old(self)@.wf(),
            old(self)@.has_room(),
        ensures
            final(self)@ =~= old(self)@.after_frame(frame@, data@),
            final(self)@.wf(),
            forall|sign: u128|
                old(self)@.conns.contains_key(sign) ==> #[trigger] final(self).started(sign) == old(
                    self,
                ).started(sign),
            match outcome {
                PacketOutcome::Truncated => false,
                PacketOutcome::Unreadable => frame@ is Malformed || (frame@ matches FrameModel::Tcp(
                    segment,
                ) && !RegistryModel::holds_payload(segment, data@.len())),
                PacketOutcome::NotTcp => frame@ is NotTcp,
                PacketOutcome::Accepted(accepted) => frame@ matches FrameModel::Tcp(segment)
                    && RegistryModel::holds_payload(segment, data@.len()) && accepted.accounts_for(
                    old(self)@,
                    final(self)@,
                    segment,
                ),
            },
    {
        match frame {
            Frame::Malformed => {
                self.packet_count += 1;
                self.packet_parsing_error_count += 1;
                PacketOutcome::Unreadable
            },
            Frame::NotTcp => {
                self.packet_count += 1;
                self.packet_not_tcp_count += 1;
                PacketOutcome::NotTcp
            },
            Frame::Tcp(tcp) => {
                match tcp.payload_len() {
                    Some(len) if len as usize <= data.len() => {
                        PacketOutcome::Accepted(self.process_segment(tcp, data))
                    },
                    _ => {
                        self.packet_count += 1;
                        self.packet_parsing_error_count += 1;
                        PacketOutcome::Unreadable
                    },
                }
            },
        }
    }

    /// Takes in a packet of which `data` was captured and which was
    /// `wire_len` bytes long on the wire. It finds the connection of the
    /// packet and sees to its state, its statistics and its buffers. A
    /// packet that was not captured whole is counted and dropped.
    pub fn process_packet(&mut self, data: &[u8], wire_len: u32) -> (outcome: PacketOutcome)
        requires
            old(self)@.wf(),
            old(self)@.has_room(),
        ensures
            final(self)@ =~= old(self)@.after_packet(data@, wire_len),
            final(self)@.wf(),
            forall|sign: u128|
                old(self)@.conns.contains_key(sign) ==> #[trigger] final(self).started(sign) == old(
                    self,
                ).started(sign),
            outcome is Truncated <==> data@.len() < wire_len,
            match outcome {
                PacketOutcome::Truncated => true,
                PacketOutcome::Unreadable => decoded_frame(data@) is Malformed || (decoded_frame(
                    data@,
                ) matches FrameModel::Tcp(segment) && !RegistryModel::holds_payload(
                    segment,
                    data@.len(),
                )),
                PacketOutcome::NotTcp => decoded_frame(data@) is NotTcp,
                PacketOutcome::Accepted(accepted) => decoded_frame(data@) matches FrameModel::Tcp(
                    segment,
                ) && RegistryModel::holds_payload(segment, data@.len()) && accepted.accounts_for(
                    old(self)@,
                    final(self)@,
                    segment,
                ),
            },
    {
        // Check if the captured packet is complete.
        if data.len() < wire_len as usize {
            self.packet_count += 1;
            self.packet_len_error_count += 1;
            return PacketOutcome::Truncated;
        }
        let frame = decode_frame(data);
        self.process_frame(&frame, data)
    }

    /// The connections that are closed, if `closed` asks for them, or have
    /// at least `min_ready_bytes` ready in one direction. Each such
    /// connection is listed once; the order is that in which the map
    /// hands its entries out. The list is empty if none matches.
    pub fn get_connections_by_rules(&self, closed: bool, min_ready_bytes: usize) -> (picked: Vec<
        &Conn,
    >)
        requires
            self@.wf(),
        ensures
            forall|i: int|
                0 <= i < picked@.len() ==> {
                    let conn = (#[trigger] picked@[i])@;
                    &&& self@.conns.contains_key(conn.conn_sign)
                    &&& self@.conns[conn.conn_sign] == conn
                    &&& RegistryModel::picks(conn, closed, min_ready_bytes)
                    &&& picked@[i].started() == self.started(conn.conn_sign)
                },
            forall|i: int, j: int|
                0 <= i < j < picked@.len() ==> (#[trigger] picked@[i])@.conn_sign != (
                #[trigger] picked@[j])@.conn_sign,
            forall|sign: u128|
                self@.conns.contains_key(sign) && RegistryModel::picks(
                    #[trigger] self@.conns[sign],
                    closed,
                    min_ready_bytes,
                ) ==> exists|i: int| 0 <= i < picked@.len() && (#[trigger] picked@[i])@.conn_sign == sign,
    {
        broadcast use group_hash_axioms;

        let mut result: Vec<&Conn> = Vec::new();
        let ghost mut origin: Seq<int> = Seq::empty();
        proof {
            axiom_spec_hash_map_iter(&self.conn_list);
        }
        for entry in it: self.conn_list.iter()
            invariant
                it.seq() == spec_hash_map_iter(&self.conn_list).remaining(),
                it.seq().no_duplicates(),
                origin.len() == result@.len(),
                forall|j: int|
                    0 <= j < origin.len() ==> 0 <= #[trigger] origin[j] < it.index()
                        && *it.seq()[origin[j]].1 == *result@[j],
                forall|j: int, k: int|
                    0 <= j < k < origin.len() ==> #[trigger] origin[j] < #[trigger] origin[k],
                forall|j: int|
                    0 <= j < result@.len() ==> RegistryModel::picks(
                        (#[trigger] result@[j])@,
                        closed,
                        min_ready_bytes,
                    ),
                forall|i: int|
                    0 <= i < it.index() && RegistryModel::picks(
                        (*(#[trigger] it.seq()[i]).1)@,
                        closed,
                        min_ready_bytes,
                    ) ==> exists|j: int| 0 <= j < origin.len() && #[trigger] origin[j] == i,
        {
            let conn: &Conn = entry.1;
            let ghost before = origin;
            let closed_one = closed && match conn.state() {
                ConnState::Closed(_) => true,
                _ => false,
            };
            if closed_one || conn.has_ready_bytes(min_ready_bytes) {
                result.push(conn);
                proof {
                    origin = origin.push(it.index());
                }
            }
            proof {
                assert forall|i: int|
                    0 <= i < it.index() + 1 && RegistryModel::picks(
                        (*(#[trigger] it.seq()[i]).1)@,
                        closed,
                        min_ready_bytes,
                    ) implies exists|j: int| 0 <= j < origin.len() && #[trigger] origin[j] == i by {
                    if i < it.index() {
                        let j = choose|j: int| 0 <= j < before.len() && #[trigger] before[j] == i;
                        assert(origin[j] == i);
                    } else {
                        assert(origin[origin.len() - 1] == i);
                    }
                }
            }
        }
        proof {
            let walked = spec_hash_map_iter(&self.conn_list).remaining();
            assert forall|i: int, j: int| 0 <= i < j < result@.len() implies (
            #[trigger] result@[i])@.conn_sign != (#[trigger] result@[j])@.conn_sign by {
                let a = origin[i];
                let b = origin[j];
                assert(self@.conns.contains_key(*walked[a].0));
                assert(self@.conns.contains_key(*walked[b].0));
                if *walked[a].0 == *walked[b].0 {
                    assert(walked[a] == walked[b]);
                }
            }
            assert forall|sign: u128|
                self@.conns.contains_key(sign) && RegistryModel::picks(
                    #[trigger] self@.conns[sign],
                    closed,
                    min_ready_bytes,
                ) implies exists|i: int|
                0 <= i < result@.len() && (#[trigger] result@[i])@.conn_sign == sign by {
                assert(self.conn_list@.contains_key(sign));
                assert(walked.contains((&sign, &self.conn_list@[sign])));
                let at = choose|at: int|
                    0 <= at < walked.len() && walked[at] == (&sign, &self.conn_list@[sign]);
                let j = choose|j: int| 0 <= j < origin.len() && #[trigger] origin[j] == at;
                assert(result@[j]@.conn_sign == sign);
            }
            assert forall|i: int| 0 <= i < result@.len() implies {
                let conn = (#[trigger] result@[i])@;
                &&& self@.conns.contains_key(conn.conn_sign)
                &&& self@.conns[conn.conn_sign] == conn
                &&& result@[i].started() == self.started(conn.conn_sign)
            } by {
                let a = origin[i];
                assert(self@.conns.contains_key(*walked[a].0));
            }
        }
        result
    }
}

} // verus!
