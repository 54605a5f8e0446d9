use etherparse::{PacketBuilder, TcpOptionElement};
use tcp_flows::conn::{Conn, ConnState, LogLevel, LogRecord, PacketDir};
use tcp_flows::connections::{Connections, PacketOutcome, MAX_PACKETS};
use tcp_flows::flow_buff::{AddReport, FilledRange, SeqVerdict};
use tcp_flows::segment::{
    decode_frame, decode_layers, read_segment, window_shift_of, Frame, IpLayer, Layers, TcpOption,
    TcpSegment, TransportLayer,
};

const CLIENT: [u8; 4] = [10, 0, 0, 1];
const SERVER: [u8; 4] = [10, 0, 0, 2];

#[derive(Clone, Copy)]
struct Flags {
    syn: bool,
    ack: Option<u32>,
    fin: bool,
    rst: bool,
}

const NONE: Flags = Flags { syn: false, ack: None, fin: false, rst: false };

fn tcp_frame(
    source: ([u8; 4], u16),
    destination: ([u8; 4], u16),
    seq: u32,
    flags: Flags,
    options: &[TcpOptionElement],
    payload: &[u8],
) -> Vec<u8> {
    let mut builder = PacketBuilder::ethernet2([1, 2, 3, 4, 5, 6], [7, 8, 9, 10, 11, 12])
        .ipv4(source.0, destination.0, 64)
        .tcp(source.1, destination.1, seq, 4096);
    if flags.syn {
        builder = builder.syn();
    }
    if let Some(number) = flags.ack {
        builder = builder.ack(number);
    }
    if flags.fin {
        builder = builder.fin();
    }
    if flags.rst {
        builder = builder.rst();
    }
    let builder = builder.options(options).unwrap();
    let mut frame = Vec::new();
    builder.write(&mut frame, payload).unwrap();
    frame
}

fn from_client(seq: u32, flags: Flags, payload: &[u8]) -> Vec<u8> {
    tcp_frame((CLIENT, 40000), (SERVER, 80), seq, flags, &[], payload)
}

fn from_server(seq: u32, flags: Flags, payload: &[u8]) -> Vec<u8> {
    tcp_frame((SERVER, 80), (CLIENT, 40000), seq, flags, &[], payload)
}

fn feed(connections: &mut Connections, frame: &[u8]) -> PacketOutcome {
    assert!(connections.has_room());
    connections.process_packet(frame, frame.len() as u32)
}

fn sign() -> u128 {
    Conn::sign_by_tuple(0x0a00_0001, 40000, 0x0a00_0002, 80).0
}

fn handshake(connections: &mut Connections) {
    feed(connections, &from_client(1000, Flags { syn: true, ..NONE }, b""));
    feed(connections, &from_server(5000, Flags { syn: true, ack: Some(1001), ..NONE }, b""));
}

#[test]
fn new_registry_is_empty() {
    let connections = Connections::new();
    assert_eq!(connections.len(), 0);
    assert_eq!(connections.packet_count(), 0);
    assert_eq!(connections.conn_alltime_count(), 0);
    assert_eq!(connections.packet_len_error_count(), 0);
    assert_eq!(connections.packet_parsing_error_count(), 0);
    assert_eq!(connections.packet_not_tcp_count(), 0);
    assert!(connections.has_room());
    assert!(connections.get(sign()).is_none());
    assert!(connections.get_connections_by_rules(true, 0).is_empty());
    assert_eq!(MAX_PACKETS, 4_294_967_280);
}

#[test]
fn decode_reads_every_field_of_the_headers() {
    let frame = tcp_frame(
        ([192, 168, 1, 254], 443),
        ([8, 8, 4, 4], 51234),
        0x0102_0304,
        Flags { syn: true, ack: Some(0xa0b0_c0d0), ..NONE },
        &[TcpOptionElement::MaximumSegmentSize(1460), TcpOptionElement::WindowScale(7)],
        b"hello",
    );
    let decoded = decode_frame(&frame);
    assert_eq!(
        decoded,
        Frame::Tcp(TcpSegment {
            source_ip: 0xc0a8_01fe,
            source_port: 443,
            destination_ip: 0x0808_0404,
            destination_port: 51234,
            sequence_number: 0x0102_0304,
            acknowledgment_number: 0xa0b0_c0d0,
            window_size: 4096,
            syn: true,
            ack: true,
            fin: false,
            rst: false,
            ip_payload_len: 33,
            data_offset: 7,
            options: vec![TcpOption::MaximumSegmentSize(1460), TcpOption::WindowScale(7)],
        })
    );
}

#[test]
fn decode_tells_the_flags_apart() {
    let fin = decode_frame(&from_client(1, Flags { fin: true, ..NONE }, b""));
    let rst = decode_frame(&from_client(1, Flags { rst: true, ..NONE }, b""));
    let none = decode_frame(&from_client(1, NONE, b""));
    match (fin, rst, none) {
        (Frame::Tcp(fin), Frame::Tcp(rst), Frame::Tcp(none)) => {
            assert_eq!((fin.fin, fin.rst, fin.syn, fin.ack), (true, false, false, false));
            assert_eq!((rst.fin, rst.rst, rst.syn, rst.ack), (false, true, false, false));
            assert_eq!((none.fin, none.rst, none.syn, none.ack), (false, false, false, false));
            assert_eq!(none.payload_len(), Some(0));
            assert_eq!(none.data_offset, 5);
            assert_eq!(none.options, vec![]);
        }
        other => panic!("unexpected frames {:?}", other),
    }
}

#[test]
fn decode_reads_all_kinds_of_options() {
    let frame = tcp_frame(
        (CLIENT, 40000),
        (SERVER, 80),
        1,
        Flags { syn: true, ..NONE },
        &[
            TcpOptionElement::Noop,
            TcpOptionElement::SelectiveAcknowledgementPermitted,
            TcpOptionElement::Timestamp(11, 22),
            TcpOptionElement::SelectiveAcknowledgement((1, 2), [None, None, None]),
            TcpOptionElement::WindowScale(14),
        ],
        b"",
    );
    match decode_frame(&frame) {
        Frame::Tcp(segment) => {
            assert_eq!(
                &segment.options[..5],
                &[
                    TcpOption::Noop,
                    TcpOption::SelectiveAcknowledgementPermitted,
                    TcpOption::Timestamp(11, 22),
                    TcpOption::SelectiveAcknowledgement,
                    TcpOption::WindowScale(14),
                ]
            );
            assert_eq!(window_shift_of(&segment.options), Some(14));
        }
        other => panic!("unexpected frame {:?}", other),
    }
}

#[test]
fn unreadable_option_ends_the_list() {
    let mut ip = vec![0x45, 0, 0, 44, 0, 0, 0, 0, 64, 6, 0, 0, 10, 0, 0, 1, 10, 0, 0, 2];
    ip[2] = 0;
    let mut tcp = vec![0u8; 24];
    tcp[12] = 6 << 4;
    tcp[13] = 0x02;
    tcp[20] = 1;
    tcp[21] = 99;
    tcp[22] = 3;
    tcp[23] = 3;
    let segment = read_segment(&ip, &tcp).unwrap();
    assert_eq!(segment.options, vec![TcpOption::Noop, TcpOption::Unreadable]);
    assert_eq!(window_shift_of(&segment.options), None);
    assert_eq!(segment.ip_payload_len, 24);
    assert_eq!(segment.payload_len(), Some(0));
}

#[test]
fn headers_that_contradict_themselves_are_not_read() {
    let ip = vec![0x45, 0, 0, 40, 0, 0, 0, 0, 64, 6, 0, 0, 10, 0, 0, 1, 10, 0, 0, 2];
    let mut tcp = vec![0u8; 20];
    tcp[12] = 5 << 4;
    assert!(read_segment(&ip, &tcp).is_some());
    assert!(read_segment(&ip[..19], &tcp).is_none());
    assert!(read_segment(&ip, &tcp[..19]).is_none());
    let mut short_total = ip.clone();
    short_total[3] = 19;
    assert!(read_segment(&short_total, &tcp).is_none());
    let mut long_header = tcp.clone();
    long_header[12] = 6 << 4;
    assert!(read_segment(&ip, &long_header).is_none());
    let mut short_header = tcp.clone();
    short_header[12] = 4 << 4;
    assert!(read_segment(&ip, &short_header).is_none());
}

#[test]
fn decode_rejects_what_is_no_tcp_over_ipv4() {
    let mut udp = Vec::new();
    PacketBuilder::ethernet2([1, 2, 3, 4, 5, 6], [7, 8, 9, 10, 11, 12])
        .ipv4(CLIENT, SERVER, 64)
        .udp(53, 53)
        .write(&mut udp, b"query")
        .unwrap();
    assert_eq!(decode_frame(&udp), Frame::NotTcp);
    let mut v6 = Vec::new();
    PacketBuilder::ethernet2([1, 2, 3, 4, 5, 6], [7, 8, 9, 10, 11, 12])
        .ipv6([1; 16], [2; 16], 64)
        .tcp(1, 2, 3, 4)
        .write(&mut v6, b"six")
        .unwrap();
    assert_eq!(decode_frame(&v6), Frame::NotTcp);
    let arp = [1u8, 2, 3, 4, 5, 6, 7, 8, 9, 10, 11, 12, 0x08, 0x06, 0, 1, 2, 3];
    assert_eq!(decode_frame(&arp), Frame::NotTcp);
}

#[test]
fn decode_rejects_broken_frames() {
    assert_eq!(decode_frame(&[]), Frame::Malformed);
    assert_eq!(decode_frame(&[0u8; 13]), Frame::Malformed);
    let whole = from_client(1, NONE, b"");
    assert_eq!(decode_frame(&whole[..whole.len() - 1]), Frame::Malformed);
    assert_eq!(decode_frame(&whole[..20]), Frame::Malformed);
}

#[test]
fn three_way_handshake_then_data_from_frames() {
    let mut connections = Connections::new();
    let first = feed(&mut connections, &from_client(1000, Flags { syn: true, ..NONE }, b""));
    match first {
        PacketOutcome::Accepted(accepted) => {
            assert_eq!(accepted.conn_sign, sign());
            assert_eq!(accepted.dir, PacketDir::SrcLowAddr);
            assert_eq!(accepted.report, AddReport { verdict: None, stored: false });
            assert_eq!(accepted.log.level(), LogLevel::Debug);
        }
        other => panic!("unexpected outcome {:?}", other),
    }
    feed(&mut connections, &from_server(5000, Flags { syn: true, ack: Some(1001), ..NONE }, b""));
    let third = feed(&mut connections, &from_client(1001, Flags { ack: Some(5001), ..NONE }, b"PING"));
    match third {
        PacketOutcome::Accepted(accepted) => {
            assert_eq!(accepted.report, AddReport { verdict: Some(SeqVerdict::InOrder), stored: true });
            assert_eq!(
                accepted.log,
                LogRecord::Data {
                    conn_sequence: 1,
                    dir: PacketDir::SrcLowAddr,
                    relative_seq: Some(0),
                    len: 4,
                }
            );
        }
        other => panic!("unexpected outcome {:?}", other),
    }
    assert_eq!(connections.len(), 1);
    assert_eq!(connections.conn_alltime_count(), 1);
    assert_eq!(connections.packet_count(), 3);
    let conn = connections.get(sign()).unwrap();
    assert_eq!(conn.state(), ConnState::Established(PacketDir::SrcLowAddr));
    assert_eq!(conn.conn_sequence(), 1);
    assert_eq!(conn.conn_sign(), sign());
    assert_eq!(conn.flow_src_low().byte_count(), 4);
    assert_eq!(conn.flow_src_low().filled_ranges(), &[FilledRange { start: 0, end: 4 }]);
    assert_eq!(conn.flow_src_low().data(), b"PING");
    assert_eq!(conn.flow_src_low().packet_count(), 2);
    assert_eq!(conn.flow_src_high().packet_count(), 1);
    assert_eq!(conn.flow_src_high().byte_count(), 0);
    assert_eq!(conn.addresses_as_str(true), "10.0.0.1:40000");
    assert_eq!(conn.addresses_as_str(false), "10.0.0.2:80");
}

#[test]
fn fin_both_ways_then_ack_from_frames() {
    let mut connections = Connections::new();
    handshake(&mut connections);
    feed(&mut connections, &from_client(1001, Flags { ack: Some(5001), ..NONE }, b"PING"));
    feed(&mut connections, &from_client(1005, Flags { fin: true, ack: Some(5001), ..NONE }, b""));
    assert_eq!(
        connections.get(sign()).unwrap().state(),
        ConnState::FinWait1(PacketDir::SrcLowAddr, 1006)
    );
    feed(&mut connections, &from_server(5001, Flags { fin: true, ack: Some(1006), ..NONE }, b""));
    assert_eq!(
        connections.get(sign()).unwrap().state(),
        ConnState::FinWait2(PacketDir::SrcHighAddr, 5002)
    );
    feed(&mut connections, &from_client(5002, Flags { ack: Some(5002), ..NONE }, b""));
    assert_eq!(
        connections.get(sign()).unwrap().state(),
        ConnState::Closed(PacketDir::SrcLowAddr)
    );
    assert_eq!(connections.packet_count(), 6);
}

#[test]
fn rst_closes_a_connection_never_seen_before() {
    let mut connections = Connections::new();
    feed(&mut connections, &from_server(9, Flags { rst: true, ..NONE }, b""));
    let conn = connections.get(sign()).unwrap();
    assert_eq!(conn.state(), ConnState::Closed(PacketDir::SrcHighAddr));
    assert_eq!(conn.flow_src_high().packet_count(), 1);
}

#[test]
fn window_scale_is_read_from_the_syn() {
    let mut connections = Connections::new();
    let opening = tcp_frame(
        (SERVER, 80),
        (CLIENT, 40000),
        1,
        Flags { syn: true, ..NONE },
        &[TcpOptionElement::MaximumSegmentSize(1400), TcpOptionElement::WindowScale(9)],
        b"",
    );
    feed(&mut connections, &opening);
    let conn = connections.get(sign()).unwrap();
    assert_eq!(conn.state(), ConnState::SynSent(PacketDir::SrcHighAddr, 2));
    assert_eq!(conn.flow_src_high().window_scale(), 512);
    assert_eq!(conn.flow_src_low().window_scale(), 1);
}

#[test]
fn truncated_capture_is_counted_and_dropped() {
    let mut connections = Connections::new();
    let frame = from_client(1000, Flags { syn: true, ..NONE }, b"");
    let outcome = connections.process_packet(&frame, frame.len() as u32 + 1);
    assert_eq!(outcome, PacketOutcome::Truncated);
    assert_eq!(connections.packet_count(), 1);
    assert_eq!(connections.packet_len_error_count(), 1);
    assert_eq!(connections.len(), 0);
    let outcome = connections.process_packet(&frame, frame.len() as u32 - 1);
    assert!(matches!(outcome, PacketOutcome::Accepted(_)));
    assert_eq!(connections.packet_len_error_count(), 1);
    assert_eq!(connections.len(), 1);
}

#[test]
fn unreadable_frame_is_counted_and_dropped() {
    let mut connections = Connections::new();
    let whole = from_client(1000, Flags { syn: true, ..NONE }, b"");
    let outcome = feed(&mut connections, &whole[..30]);
    assert_eq!(outcome, PacketOutcome::Unreadable);
    assert_eq!(connections.packet_count(), 1);
    assert_eq!(connections.packet_parsing_error_count(), 1);
    assert_eq!(connections.packet_not_tcp_count(), 0);
    assert_eq!(connections.len(), 0);
}

#[test]
fn foreign_frame_is_counted_and_dropped() {
    let mut connections = Connections::new();
    let mut udp = Vec::new();
    PacketBuilder::ethernet2([1, 2, 3, 4, 5, 6], [7, 8, 9, 10, 11, 12])
        .ipv4(CLIENT, SERVER, 64)
        .udp(53, 53)
        .write(&mut udp, b"query")
        .unwrap();
    assert_eq!(feed(&mut connections, &udp), PacketOutcome::NotTcp);
    assert_eq!(connections.packet_count(), 1);
    assert_eq!(connections.packet_not_tcp_count(), 1);
    assert_eq!(connections.packet_parsing_error_count(), 0);
    assert_eq!(connections.len(), 0);
}

#[test]
fn segment_that_announces_too_much_payload_is_dropped() {
    let mut connections = Connections::new();
    let segment = TcpSegment {
        source_ip: 1,
        source_port: 1,
        destination_ip: 2,
        destination_port: 2,
        sequence_number: 1,
        acknowledgment_number: 0,
        window_size: 0,
        syn: false,
        ack: false,
        fin: false,
        rst: false,
        ip_payload_len: 30,
        data_offset: 5,
        options: vec![],
    };
    let outcome = connections.process_frame(&Frame::Tcp(segment.clone()), b"123456789");
    assert_eq!(outcome, PacketOutcome::Unreadable);
    let short = TcpSegment { ip_payload_len: 19, ..segment.clone() };
    assert_eq!(connections.process_frame(&Frame::Tcp(short), b"123456789"), PacketOutcome::Unreadable);
    assert_eq!(connections.packet_parsing_error_count(), 2);
    assert_eq!(connections.packet_count(), 2);
    assert_eq!(connections.len(), 0);
    let fits = TcpSegment { ip_payload_len: 29, ..segment };
    assert!(matches!(
        connections.process_frame(&Frame::Tcp(fits), b"123456789"),
        PacketOutcome::Accepted(_)
    ));
    assert_eq!(connections.packet_count(), 3);
    assert_eq!(connections.len(), 1);
}

#[test]
fn frames_handed_over_as_read() {
    let mut connections = Connections::new();
    assert_eq!(connections.process_frame(&Frame::Malformed, b""), PacketOutcome::Unreadable);
    assert_eq!(connections.process_frame(&Frame::NotTcp, b""), PacketOutcome::NotTcp);
    assert_eq!(connections.packet_count(), 2);
    assert_eq!(connections.packet_parsing_error_count(), 1);
    assert_eq!(connections.packet_not_tcp_count(), 1);
}

#[test]
fn counters_cover_every_packet() {
    let mut connections = Connections::new();
    handshake(&mut connections);
    let frame = from_client(1001, NONE, b"x");
    connections.process_packet(&frame, 10_000);
    feed(&mut connections, &frame[..5]);
    feed(&mut connections, &[1, 2, 3, 4, 5, 6, 7, 8, 9, 10, 11, 12, 0x08, 0x06, 0, 0]);
    feed(&mut connections, &frame);
    assert_eq!(connections.packet_count(), 6);
    assert_eq!(connections.packet_len_error_count(), 1);
    assert_eq!(connections.packet_parsing_error_count(), 1);
    assert_eq!(connections.packet_not_tcp_count(), 1);
    let conn = connections.get(sign()).unwrap();
    let accepted = conn.flow_src_low().packet_count() + conn.flow_src_high().packet_count();
    assert_eq!(accepted, 3);
}

#[test]
fn each_pair_of_endpoints_gets_its_own_connection() {
    let mut connections = Connections::new();
    feed(&mut connections, &from_client(1, Flags { syn: true, ..NONE }, b""));
    feed(
        &mut connections,
        &tcp_frame((CLIENT, 40001), (SERVER, 80), 1, Flags { syn: true, ..NONE }, &[], b""),
    );
    feed(&mut connections, &from_server(1, NONE, b""));
    feed(
        &mut connections,
        &tcp_frame((SERVER, 80), (CLIENT, 40001), 1, NONE, &[], b""),
    );
    assert_eq!(connections.len(), 2);
    assert_eq!(connections.conn_alltime_count(), 2);
    let first = connections.get(sign()).unwrap();
    let second_sign = Conn::sign_by_tuple(0x0a00_0002, 80, 0x0a00_0001, 40001).0;
    let second = connections.get(second_sign).unwrap();
    assert_eq!(first.conn_sequence(), 1);
    assert_eq!(second.conn_sequence(), 2);
    assert_eq!(first.flow_src_low().packet_count(), 1);
    assert_eq!(first.flow_src_high().packet_count(), 1);
    assert_eq!(second.conn_sign(), second_sign);
}

#[test]
fn get_connection_or_add_new_files_a_connection_once() {
    let mut connections = Connections::new();
    assert_eq!(connections.get_connection_or_add_new(77).conn_sequence(), 1);
    assert_eq!(connections.get_connection_or_add_new(78).conn_sequence(), 2);
    connections.get_connection_or_add_new(77).set_initial_sequence_number(&PacketDir::SrcLowAddr, 5);
    let again = connections.get_connection_or_add_new(77);
    assert_eq!(again.conn_sequence(), 1);
    assert_eq!(again.conn_sign(), 77);
    assert_eq!(again.flow_src_low().initial_sequence_number(), Some(5));
    assert_eq!(connections.len(), 2);
    assert_eq!(connections.conn_alltime_count(), 2);
}

#[test]
fn rules_pick_closed_connections_only_when_asked() {
    let mut connections = Connections::new();
    handshake(&mut connections);
    feed(&mut connections, &from_client(1001, Flags { rst: true, ..NONE }, b""));
    assert!(connections.get_connections_by_rules(false, 0).is_empty());
    let picked = connections.get_connections_by_rules(true, 1_000_000);
    assert_eq!(picked.len(), 1);
    assert_eq!(picked[0].conn_sign(), sign());
    assert!(matches!(picked[0].state(), ConnState::Closed(_)));
}

#[test]
fn rules_pick_connections_with_enough_bytes_ready() {
    let mut connections = Connections::new();
    handshake(&mut connections);
    feed(&mut connections, &from_server(5001, Flags { ack: Some(1001), ..NONE }, b"0123456789"));
    feed(
        &mut connections,
        &tcp_frame((CLIENT, 40001), (SERVER, 80), 1, Flags { syn: true, ..NONE }, &[], b""),
    );
    feed(
        &mut connections,
        &tcp_frame((CLIENT, 40002), (SERVER, 80), 50, Flags { syn: true, ..NONE }, &[], b""),
    );
    feed(
        &mut connections,
        &tcp_frame((CLIENT, 40002), (SERVER, 80), 51, NONE, &[], b"abc"),
    );
    assert_eq!(connections.len(), 3);
    let ten = connections.get_connections_by_rules(false, 10);
    assert_eq!(ten.len(), 1);
    assert_eq!(ten[0].conn_sign(), sign());
    assert!(connections.get_connections_by_rules(true, 11).is_empty());
    let mut three: Vec<u32> = connections
        .get_connections_by_rules(false, 3)
        .iter()
        .map(|conn| conn.conn_sequence())
        .collect();
    three.sort();
    assert_eq!(three, vec![1, 3]);
    let mut any: Vec<u32> = connections
        .get_connections_by_rules(true, 0)
        .iter()
        .map(|conn| conn.conn_sequence())
        .collect();
    any.sort();
    assert_eq!(any, vec![1, 3]);
}

#[test]
fn swapping_source_and_destination_swaps_the_flows() {
    let script: Vec<(bool, u32, Flags, &[u8])> = vec![
        (true, 1000, Flags { syn: true, ..NONE }, b""),
        (false, 5000, Flags { syn: true, ack: Some(1001), ..NONE }, b""),
        (true, 1001, Flags { ack: Some(5001), ..NONE }, b"PING"),
        (false, 5001, Flags { ack: Some(1005), ..NONE }, b"PONG!!"),
    ];
    let mut straight = Connections::new();
    let mut swapped = Connections::new();
    for (client_sends, seq, flags, payload) in &script {
        let (there, back) = if *client_sends {
            (from_client(*seq, *flags, payload), from_server(*seq, *flags, payload))
        } else {
            (from_server(*seq, *flags, payload), from_client(*seq, *flags, payload))
        };
        feed(&mut straight, &there);
        feed(&mut swapped, &back);
    }
    let conn = straight.get(sign()).unwrap();
    let mirror = swapped.get(sign()).unwrap();
    assert_eq!(conn.state(), ConnState::Established(PacketDir::SrcLowAddr));
    assert_eq!(mirror.state(), ConnState::Established(PacketDir::SrcHighAddr));
    assert_eq!(
        (mirror.flow_src_high().byte_count(), mirror.flow_src_high().packet_count()),
        (conn.flow_src_low().byte_count(), conn.flow_src_low().packet_count())
    );
    assert_eq!(
        (mirror.flow_src_low().byte_count(), mirror.flow_src_low().packet_count()),
        (conn.flow_src_high().byte_count(), conn.flow_src_high().packet_count())
    );
    assert_eq!(conn.flow_src_low().byte_count(), 4);
    assert_eq!(conn.flow_src_high().byte_count(), 6);
    assert_eq!(mirror.flow_src_low().data(), b"PONG!!");
}

#[test]
fn start_time_does_not_run_backwards() {
    let before = std::time::Instant::now();
    let conn = Conn::new(1, 1);
    assert!(conn.start_time() >= before);
    assert!(conn.clone().start_time() == conn.start_time());
}

#[test]
fn layers_make_a_segment_only_as_tcp_over_ipv4() {
    let ip = [0x45u8, 0, 0, 43, 0, 0, 0, 0, 64, 6, 0, 0, 10, 0, 0, 1, 10, 0, 0, 2];
    let mut tcp = [0u8; 20];
    tcp[0] = 0x9c;
    tcp[1] = 0x40;
    tcp[3] = 80;
    tcp[12] = 5 << 4;
    tcp[13] = 0x10;
    tcp[14] = 0x12;
    tcp[15] = 0x34;
    let both = Layers { ip: IpLayer::Ipv4(&ip), transport: TransportLayer::Tcp(&tcp) };
    match decode_layers(&both) {
        Frame::Tcp(segment) => {
            assert_eq!(segment.source_ip, 0x0a00_0001);
            assert_eq!(segment.destination_ip, 0x0a00_0002);
            assert_eq!(segment.source_port, 40000);
            assert_eq!(segment.destination_port, 80);
            assert_eq!(segment.window_size, 0x1234);
            assert_eq!(segment.ip_payload_len, 23);
            assert_eq!(segment.payload_len(), Some(3));
            assert!(segment.ack && !segment.syn && !segment.fin && !segment.rst);
        }
        other => panic!("unexpected frame {:?}", other),
    }
    let short = Layers { ip: IpLayer::Ipv4(&ip[..10]), transport: TransportLayer::Tcp(&tcp) };
    assert_eq!(decode_layers(&short), Frame::Malformed);
    let six = Layers { ip: IpLayer::Ipv6, transport: TransportLayer::Tcp(&tcp) };
    assert_eq!(decode_layers(&six), Frame::NotTcp);
    let bare = Layers { ip: IpLayer::Absent, transport: TransportLayer::Tcp(&tcp) };
    assert_eq!(decode_layers(&bare), Frame::NotTcp);
    for transport in [
        TransportLayer::Absent,
        TransportLayer::Udp,
        TransportLayer::Icmpv4,
        TransportLayer::Icmpv6,
        TransportLayer::Unknown(47),
    ] {
        assert_eq!(decode_layers(&Layers { ip: IpLayer::Ipv4(&ip), transport }), Frame::NotTcp);
    }
}

#[test]
fn segment_handed_over_as_read() {
    let mut connections = Connections::new();
    let segment = TcpSegment {
        source_ip: 0x0a00_0002,
        source_port: 80,
        destination_ip: 0x0a00_0001,
        destination_port: 40000,
        sequence_number: 7,
        acknowledgment_number: 0,
        window_size: 512,
        syn: true,
        ack: false,
        fin: false,
        rst: false,
        ip_payload_len: 22,
        data_offset: 5,
        options: vec![TcpOption::WindowScale(2)],
    };
    let accepted = connections.process_segment(&segment, b"frame bytes, then payload: hi");
    assert_eq!(accepted.conn_sign, sign());
    assert_eq!(accepted.dir, PacketDir::SrcHighAddr);
    assert_eq!(accepted.report, AddReport { verdict: Some(SeqVerdict::InOrder), stored: false });
    assert_eq!(accepted.log.level(), LogLevel::Debug);
    let conn = connections.get(sign()).unwrap();
    assert_eq!(conn.state(), ConnState::SynSent(PacketDir::SrcHighAddr, 8));
    assert_eq!(conn.flow_src_high().byte_count(), 2);
    assert_eq!(conn.flow_src_high().max_seq(), 9);
    assert_eq!(conn.flow_src_high().window_scale(), 4);
    assert_eq!(conn.flow_src_high().len(), 0);
    let next = TcpSegment { syn: false, sequence_number: 8, options: vec![], ..segment };
    let accepted = connections.process_segment(&next, b"hi");
    assert_eq!(accepted.report, AddReport { verdict: Some(SeqVerdict::InOrder), stored: true });
    assert_eq!(connections.get(sign()).unwrap().flow_src_high().data(), b"hi");
    assert_eq!(connections.packet_count(), 2);
    assert_eq!(connections.conn_alltime_count(), 1);
}

#[test]
fn start_time_of_a_connection_on_file_stays() {
    let mut connections = Connections::new();
    handshake(&mut connections);
    let started = connections.get(sign()).unwrap().start_time();
    feed(&mut connections, &from_client(1001, Flags { ack: Some(5001), ..NONE }, b"PING"));
    feed(
        &mut connections,
        &tcp_frame((CLIENT, 40001), (SERVER, 80), 1, Flags { syn: true, ..NONE }, &[], b""),
    );
    assert_eq!(connections.get(sign()).unwrap().start_time(), started);
    let picked = connections.get_connections_by_rules(false, 4);
    assert_eq!(picked.len(), 1);
    assert_eq!(picked[0].start_time(), started);
    assert_eq!(connections.get_connection_or_add_new(sign()).start_time(), started);
}
