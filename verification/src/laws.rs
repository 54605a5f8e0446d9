//! What holds of the reassembler on every input: the symmetry of
//! signatures and directions, the arithmetic of counters and offsets, the
//! merging of ranges, and the handshake.

use vstd::arithmetic::div_mod::lemma_fundamental_div_mod_converse;
use vstd::prelude::*;
use crate::conn::{
    endpoint_below, next_state, opens_flow, pack_endpoints, signature, signed_ip, signed_port,
    ConnModel, ConnState, Packet, PacketDir,
};
use crate::flow_buff::{
    merge_range, FilledRange, FlowModel, SeqVerdict, MAX_FORWARD_SEQ_JUMP, SEQ_SPACE,
};
use crate::connections::RegistryModel;
use crate::segment::SegmentModel;

verus! {

/// Swapping source and destination of a packet between two different
/// endpoints leaves the signature as it is and flips the direction.
pub proof fn lemma_signature_symmetric(src_ip: u32, src_port: u16, dst_ip: u32, dst_port: u16)
    requires
        src_ip != dst_ip || src_port != dst_port,
    ensures
        signature(dst_ip, dst_port, src_ip, src_port).0 == signature(
            src_ip,
            src_port,
            dst_ip,
            dst_port,
        ).0,
        signature(dst_ip, dst_port, src_ip, src_port).1 == signature(
            src_ip,
            src_port,
            dst_ip,
            dst_port,
        ).1.flipped(),
{
}

/// A signature gives back the two endpoints it was made of, so two
/// different pairs of endpoints never share one.
pub proof fn lemma_signature_unpacks(low_ip: u32, low_port: u16, high_ip: u32, high_port: u16)
    ensures
        signed_ip(pack_endpoints(low_ip, low_port, high_ip, high_port), true) == low_ip,
        signed_port(pack_endpoints(low_ip, low_port, high_ip, high_port), true) == low_port,
        signed_ip(pack_endpoints(low_ip, low_port, high_ip, high_port), false) == high_ip,
        signed_port(pack_endpoints(low_ip, low_port, high_ip, high_port), false) == high_port,
{
    let sign = pack_endpoints(low_ip, low_port, high_ip, high_port) as int;
    let high = high_port + high_ip * 0x1_0000;
    let upper = low_ip + high * 0x1_0000_0000;
    assert(sign == upper * 0x1_0000 + low_port);
    lemma_fundamental_div_mod_converse(sign, 0x1_0000, upper, low_port as int);
    lemma_fundamental_div_mod_converse(upper, 0x1_0000_0000, high, low_ip as int);
    assert(sign == high * 0x1_0000_0000_0000 + (low_port + low_ip * 0x1_0000));
    lemma_fundamental_div_mod_converse(
        sign,
        0x1_0000_0000_0000,
        high,
        low_port + low_ip * 0x1_0000,
    );
    lemma_fundamental_div_mod_converse(high, 0x1_0000, high_ip as int, high_port as int);
    assert(sign == high_ip * 0x1_0000_0000_0000_0000 + (low_port + low_ip * 0x1_0000 + high_port
        * 0x1_0000_0000_0000));
    lemma_fundamental_div_mod_converse(
        sign,
        0x1_0000_0000_0000_0000,
        high_ip as int,
        low_port + low_ip * 0x1_0000 + high_port * 0x1_0000_0000_0000,
    );
    lemma_fundamental_div_mod_converse(high_ip as int, 0x1_0000_0000, 0, high_ip as int);
}

/// The state after a packet does not depend on how the two directions are
/// named: with the names swapped, it is the same state with the other
/// name in it.
pub proof fn lemma_next_state_mirrored(state: ConnState, dir: PacketDir, segment: SegmentModel)
    ensures
        next_state(state.mirrored(), dir.flipped(), segment) == next_state(
            state,
            dir,
            segment,
        ).mirrored(),
        opens_flow(state.mirrored(), dir.flipped(), segment) == opens_flow(state, dir, segment),
{
}

/// A packet taken in under swapped direction names leaves the connection
/// as the packet itself would, with the two flows in each other's place.
pub proof fn lemma_segment_mirrored(conn: ConnModel, packet: Packet)
    ensures
        conn.mirrored().after_segment(packet.dir.flipped(), packet.segment, packet.payload)
            == conn.after_segment(packet.dir, packet.segment, packet.payload).mirrored(),
{
    lemma_next_state_mirrored(conn.state, packet.dir, packet.segment);
}

/// A sequence of packets replayed under swapped direction names leaves the
/// connection as the sequence itself would, but for the names: the
/// counters and buffers of the two flows have changed places, the
/// signature and the serial number are the same, and the state is the same
/// with the other direction in it.
pub proof fn lemma_replay_mirrored(conn: ConnModel, packets: Seq<Packet>)
    ensures
        conn.mirrored().replayed(packets.map_values(|packet: Packet| packet.mirrored()))
            == conn.replayed(packets).mirrored(),
        conn.replayed(packets).mirrored().low == conn.replayed(packets).high,
        conn.replayed(packets).mirrored().high == conn.replayed(packets).low,
        conn.replayed(packets).mirrored().conn_sign == conn.replayed(packets).conn_sign,
        conn.replayed(packets).mirrored().state == conn.replayed(packets).state.mirrored(),
    decreases packets.len(),
{
    let flipped = packets.map_values(|packet: Packet| packet.mirrored());
    if packets.len() > 0 {
        lemma_replay_mirrored(conn, packets.drop_last());
        assert(flipped.drop_last() =~= packets.drop_last().map_values(
            |packet: Packet| packet.mirrored(),
        ));
        lemma_segment_mirrored(conn.replayed(packets.drop_last()), packets.last());
    }
}

/// The number of packets of `packets` that were sent in direction `dir`.
pub open spec fn routed_packets(packets: Seq<Packet>, dir: PacketDir) -> nat
    decreases packets.len(),
{
    if packets.len() == 0 {
        0
    } else {
        routed_packets(packets.drop_last(), dir) + if packets.last().dir == dir {
            1nat
        } else {
            0nat
        }
    }
}

/// The payload bytes of the packets of `packets` that were sent in
/// direction `dir`, all in all.
pub open spec fn routed_bytes(packets: Seq<Packet>, dir: PacketDir) -> nat
    decreases packets.len(),
{
    if packets.len() == 0 {
        0
    } else {
        routed_bytes(packets.drop_last(), dir) + if packets.last().dir == dir {
            packets.last().payload.len()
        } else {
            0nat
        }
    }
}

/// A packet adds one to the packet count of the flow of its direction, and
/// the length of its payload to the byte count, whatever the sequence
/// policy makes of it and whether or not the payload is written; the
/// counts of the other flow stay as they are.
pub proof fn lemma_segment_counts(conn: ConnModel, packet: Packet, dir: PacketDir)
    ensures
        conn.after_segment(packet.dir, packet.segment, packet.payload).flow(dir).packet_count
            == conn.flow(dir).packet_count + if packet.dir == dir {
            1nat
        } else {
            0nat
        },
        conn.after_segment(packet.dir, packet.segment, packet.payload).flow(dir).byte_count
            == conn.flow(dir).byte_count + if packet.dir == dir {
            packet.payload.len()
        } else {
            0nat
        },
{
}

/// After any sequence of packets, the packet count of a direction has
/// grown by the number of packets routed to it, and its byte count by the
/// sum of their payload lengths, empty payloads counting for nothing.
pub proof fn lemma_replay_counts(conn: ConnModel, packets: Seq<Packet>, dir: PacketDir)
    ensures
        conn.replayed(packets).flow(dir).packet_count == conn.flow(dir).packet_count
            + routed_packets(packets, dir),
        conn.replayed(packets).flow(dir).byte_count == conn.flow(dir).byte_count + routed_bytes(
            packets,
            dir,
        ),
    decreases packets.len(),
{
    if packets.len() > 0 {
        lemma_replay_counts(conn, packets.drop_last(), dir);
        lemma_segment_counts(conn.replayed(packets.drop_last()), packets.last(), dir);
    }
}

/// Once a flow that has seen no roll-over takes down the sequence number
/// `isn` of its SYN, the byte that follows the SYN has offset `0`.
pub proof fn lemma_first_payload_offset(flow: FlowModel, isn: u32)
    requires
        flow.wrap_around == 0,
        isn < u32::MAX,
    ensures
        flow.with_isn(isn).relative((isn + 1) as u32) == 0,
{
}

/// After the SYN that opens a connection, sent in direction `dir` with
/// sequence number `seq`, the flow of that direction knows `seq` as its
/// initial sequence number, and if it has seen no roll-over, the byte
/// that follows the SYN has offset `0` in it.
pub proof fn lemma_syn_sets_origin(
    conn: ConnModel,
    dir: PacketDir,
    segment: SegmentModel,
    payload: Seq<u8>,
)
    requires
        conn.state is Created,
        segment.syn && !segment.ack && !segment.fin && !segment.rst,
        conn.flow(dir).wrap_around == 0,
        segment.sequence_number < u32::MAX,
    ensures
        conn.after_segment(dir, segment, payload).flow(dir).isn == Some(segment.sequence_number),
        conn.after_segment(dir, segment, payload).flow(dir).relative(
            (segment.sequence_number + 1) as u32,
        ) == 0,
{
    let flagged = conn.after_flags(dir, segment);
    assert(flagged.flow(dir).isn == Some(segment.sequence_number));
    assert(flagged.flow(dir).max_seq == segment.sequence_number);
    assert(flagged.flow(dir).wrap_around == 0);
}

/// The SYN/ACK that answers the SYN of a connection, from the other side
/// and with the acknowledgement that the SYN called for, establishes the
/// connection, and both flows then know their initial sequence number.
pub proof fn lemma_handshake_completes(
    conn: ConnModel,
    dir: PacketDir,
    segment: SegmentModel,
    payload: Seq<u8>,
)
    requires
        conn.wf(),
        conn.state matches ConnState::SynSent(sender, expected) && sender != dir
            && segment.acknowledgment_number == expected,
        segment.syn && segment.ack && !segment.fin && !segment.rst,
    ensures
        conn.after_segment(dir, segment, payload).state == ConnState::Established(dir.flipped()),
        conn.after_segment(dir, segment, payload).low.isn is Some,
        conn.after_segment(dir, segment, payload).high.isn is Some,
{
}

/// An initial sequence number is taken down once: on a connection that
/// has only ever taken in packets, a packet leaves the initial sequence
/// number of a flow that has one as it is, and the connection stays such
/// a connection.
pub proof fn lemma_isn_set_once(conn: ConnModel, packet: Packet, dir: PacketDir)
    requires
        conn.isn_follows_state(),
    ensures
        conn.after_segment(packet.dir, packet.segment, packet.payload).isn_follows_state(),
        conn.flow(dir).isn is Some ==> conn.after_segment(
            packet.dir,
            packet.segment,
            packet.payload,
        ).flow(dir).isn == conn.flow(dir).isn,
{
}

/// A RST closes a connection from every state, in the direction of the
/// packet that carries it.
pub proof fn lemma_rst_closes(state: ConnState, dir: PacketDir, segment: SegmentModel)
    requires
        segment.rst,
    ensures
        next_state(state, dir, segment) == ConnState::Closed(dir),
{
}

/// Starting from no ranges: `[a, b)` and then `[b, c)` give the one range
/// `[a, c)`; `[a, b)` twice gives the one range `[a, b)`; and `[b, c)` and
/// then `[a, b)` give the one range `[a, c)`.
pub proof fn lemma_merge_adjacent(a: usize, b: usize, c: usize)
    requires
        a <= b <= c,
    ensures
        merge_range(merge_range(Seq::empty(), a, b), b, c) == seq![FilledRange { start: a, end: c }],
        merge_range(merge_range(Seq::empty(), a, b), a, b) == seq![FilledRange { start: a, end: b }],
        merge_range(merge_range(Seq::empty(), b, c), a, b) == seq![FilledRange { start: a, end: c }],
{
    reveal_with_fuel(crate::flow_buff::first_ending_at, 3);
    reveal_with_fuel(crate::flow_buff::first_starting_at, 3);
    let none = Seq::<FilledRange>::empty();
    let first = seq![FilledRange { start: a, end: b }];
    let second = seq![FilledRange { start: b, end: c }];
    assert(merge_range(none, a, b) =~= first);
    assert(merge_range(none, b, c) =~= second);
    assert(merge_range(first, b, c) =~= seq![FilledRange { start: a, end: c }]);
    assert(merge_range(first, a, b) =~= seq![FilledRange { start: a, end: b }]);
    assert(merge_range(second, a, b) =~= seq![FilledRange { start: a, end: c }]);
}

/// A segment that ends the forward-jump tolerance or more beyond the
/// highest sequence seen is suspicious: it moves neither the highest
/// sequence seen nor the roll-over count.
pub proof fn lemma_forward_jump_ignored(flow: FlowModel, seq: u32, payload: Seq<u8>)
    requires
        flow.last_seq(seq, payload.len()) >= flow.max_seq + MAX_FORWARD_SEQ_JUMP,
    ensures
        flow.verdict(seq, payload.len()) == SeqVerdict::Suspicious,
        flow.sequenced(seq, payload.len()).max_seq == flow.max_seq,
        flow.sequenced(seq, payload.len()).wrap_around == flow.wrap_around,
        flow.added(seq, payload).max_seq == flow.max_seq,
        flow.added(seq, payload).wrap_around == flow.wrap_around,
{
}

/// A segment no longer than the forward-jump tolerance, whose first byte
/// stands at `position` in the unrolled sequence space, at most one
/// roll-over ahead of the flow, and which ends beyond the highest sequence
/// seen by less than the tolerance, gets the offset of that position, with
/// or without a roll-over on the way; and the flow is then ready for what
/// follows it.
pub proof fn lemma_in_order_offset(flow: FlowModel, position: nat, len: nat)
    requires
        flow.isn is Some,
        flow.wrap_around * SEQ_SPACE <= position < (flow.wrap_around + 2) * SEQ_SPACE,
        flow.max_seq < position + len < flow.max_seq + MAX_FORWARD_SEQ_JUMP,
        len <= MAX_FORWARD_SEQ_JUMP,
    ensures
        ({
            let seq = (position % (SEQ_SPACE as nat)) as u32;
            let next = flow.sequenced(seq, len);
            &&& next.isn == flow.isn
            &&& next.relative(seq) == position - flow.isn.unwrap() - 1
            &&& next.max_seq == position + len
            &&& next.wrap_around * SEQ_SPACE <= position + len < (next.wrap_around + 2)
                * SEQ_SPACE
        }),
{
    let seq = (position % (SEQ_SPACE as nat)) as u32;
    if position < (flow.wrap_around + 1) * SEQ_SPACE {
        lemma_fundamental_div_mod_converse(
            position as int,
            SEQ_SPACE as int,
            flow.wrap_around as int,
            position - flow.wrap_around * SEQ_SPACE,
        );
        assert(flow.verdict(seq, len) == SeqVerdict::InOrder);
    } else {
        lemma_fundamental_div_mod_converse(
            position as int,
            SEQ_SPACE as int,
            (flow.wrap_around + 1) as int,
            position - (flow.wrap_around + 1) * SEQ_SPACE,
        );
        assert(flow.verdict(seq, len) == SeqVerdict::Wrapped);
    }
}

/// The sum of the lengths in `lens`.
pub open spec fn total_len(lens: Seq<nat>) -> nat
    decreases lens.len(),
{
    if lens.len() == 0 {
        0
    } else {
        lens[0] + total_len(lens.skip(1))
    }
}

/// The offsets that a flow computes for the segments of a stream, the
/// first of which stands at `position` in the unrolled sequence space and
/// each of which follows the one before it, with the lengths `lens`.
pub open spec fn stream_offsets(flow: FlowModel, position: nat, lens: Seq<nat>) -> Seq<int>
    decreases lens.len(),
{
    if lens.len() == 0 {
        Seq::empty()
    } else {
        let seq = (position % (SEQ_SPACE as nat)) as u32;
        let next = flow.sequenced(seq, lens[0]);
        seq![next.relative(seq)] + stream_offsets(next, position + lens[0], lens.skip(1))
    }
}

/// The offsets computed for an in-order stream are the true ones, however
/// often the stream crosses the end of the 32-bit sequence space: each
/// segment gets the offset of the first one plus the lengths of those
/// before it. The stream begins at the highest sequence seen or one
/// beyond it, as the first payload does after a SYN, and every segment
/// has payload and is shorter than the forward-jump tolerance less one.
pub proof fn lemma_stream_offsets(flow: FlowModel, position: nat, lens: Seq<nat>)
    requires
        flow.isn is Some,
        flow.wrap_around * SEQ_SPACE <= position < (flow.wrap_around + 2) * SEQ_SPACE,
        flow.max_seq <= position <= flow.max_seq + 1,
        forall|i: int| 0 <= i < lens.len() ==> 0 < #[trigger] lens[i] < MAX_FORWARD_SEQ_JUMP - 1,
    ensures
        stream_offsets(flow, position, lens).len() == lens.len(),
        forall|i: int|
            0 <= i < lens.len() ==> #[trigger] stream_offsets(flow, position, lens)[i] == position
                - flow.isn.unwrap() - 1 + total_len(lens.take(i)),
    decreases lens.len(),
{
    if lens.len() > 0 {
        let seq = (position % (SEQ_SPACE as nat)) as u32;
        let next = flow.sequenced(seq, lens[0]);
        let rest = lens.skip(1);
        lemma_in_order_offset(flow, position, lens[0]);
        lemma_stream_offsets(next, position + lens[0], rest);
        assert forall|i: int| 0 <= i < lens.len() implies #[trigger] stream_offsets(
            flow,
            position,
            lens,
        )[i] == position - flow.isn.unwrap() - 1 + total_len(lens.take(i)) by {
            if i == 0 {
                assert(lens.take(0) =~= Seq::<nat>::empty());
            } else {
                assert(lens.take(i).skip(1) =~= rest.take(i - 1));
                assert(lens.take(i)[0] == lens[0]);
            }
        }
    }
}

/// The offsets computed for an in-order stream grow strictly from each
/// segment to the next, also across the end of the 32-bit sequence space.
pub proof fn lemma_stream_offsets_increase(flow: FlowModel, position: nat, lens: Seq<nat>)
    requires
        flow.isn is Some,
        flow.wrap_around * SEQ_SPACE <= position < (flow.wrap_around + 2) * SEQ_SPACE,
        flow.max_seq <= position <= flow.max_seq + 1,
        forall|i: int| 0 <= i < lens.len() ==> 0 < #[trigger] lens[i] < MAX_FORWARD_SEQ_JUMP - 1,
    ensures
        forall|i: int|
            0 <= i < lens.len() - 1 ==> #[trigger] stream_offsets(flow, position, lens)[i]
                < stream_offsets(flow, position, lens)[i + 1],
{
    lemma_stream_offsets(flow, position, lens);
    assert forall|i: int| 0 <= i < lens.len() - 1 implies #[trigger] stream_offsets(
        flow,
        position,
        lens,
    )[i] < stream_offsets(flow, position, lens)[i + 1] by {
        lemma_total_len_push(lens.take(i), lens[i]);
        assert(lens.take(i + 1) =~= lens.take(i).push(lens[i]));
    }
}

/// The sum of a list of lengths with one more at its end.
pub proof fn lemma_total_len_push(lens: Seq<nat>, len: nat)
    ensures
        total_len(lens.push(len)) == total_len(lens) + len,
    decreases lens.len(),
{
    if lens.len() == 0 {
        assert(lens.push(len).skip(1) =~= Seq::<nat>::empty());
        assert(total_len(lens.push(len).skip(1)) == 0);
    } else {
        assert(lens.push(len).skip(1) =~= lens.skip(1).push(len));
        lemma_total_len_push(lens.skip(1), len);
    }
}

/// Swapping source and destination of a segment between two different
/// endpoints comes to renaming the directions: a registry whose
/// connections all have their directions renamed is left by the swapped
/// segment as the registry itself is left by the segment, but for the
/// names of the directions.
pub proof fn lemma_registry_mirrored(registry: RegistryModel, segment: SegmentModel, payload: Seq<u8>)
    requires
        segment.source_ip != segment.destination_ip || segment.source_port
            != segment.destination_port,
    ensures
        registry.mirrored().after_segment(segment.reversed(), payload) =~= registry.after_segment(
            segment,
            payload,
        ).mirrored(),
{
    let (sign, dir) = signature(
        segment.source_ip,
        segment.source_port,
        segment.destination_ip,
        segment.destination_port,
    );
    lemma_signature_symmetric(
        segment.source_ip,
        segment.source_port,
        segment.destination_ip,
        segment.destination_port,
    );
    let conn = registry.conn_for(sign);
    assert(registry.mirrored().conn_for(sign) == conn.mirrored());
    lemma_segment_mirrored(conn, Packet { dir, segment, payload });
    assert(conn.mirrored().after_segment(dir.flipped(), segment.reversed(), payload)
        == conn.mirrored().after_segment(dir.flipped(), segment, payload));
}

/// Every packet handed in is counted once, and no counter of dropped
/// packets or of connections ever goes down.
pub proof fn lemma_counters_grow(registry: RegistryModel, frame: Seq<u8>, wire_len: u32)
    ensures
        registry.after_packet(frame, wire_len).packet_count == registry.packet_count + 1,
        registry.after_packet(frame, wire_len).packet_len_error_count
            >= registry.packet_len_error_count,
        registry.after_packet(frame, wire_len).packet_parsing_error_count
            >= registry.packet_parsing_error_count,
        registry.after_packet(frame, wire_len).packet_not_tcp_count
            >= registry.packet_not_tcp_count,
        registry.after_packet(frame, wire_len).conn_alltime_count >= registry.conn_alltime_count,
{
}

} // verus!
