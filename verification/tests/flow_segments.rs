use std::collections::VecDeque;
use std::time::Instant;
use tcp_proto::codec::{Ipv4Header, TcpHeader};
use tcp_proto::nic::Interface;
use tcp_proto::tcp::flow::{flow, Quad, RecvSequenceSpace, SendSequenceSpace, State, Statistics};

const LOCAL: u32 = 0x0A00_0001;
const REMOTE: u32 = 0x0A00_0002;

fn segment(seq: u32, ack: u32, syn: bool, ack_flag: bool, fin: bool) -> TcpHeader {
    TcpHeader {
        source_port: 1234,
        destination_port: 4000,
        sequence_number: seq,
        acknowledgment_number: ack,
        syn,
        ack: ack_flag,
        fin,
        window_size: 1024,
        checksum: 0,
    }
}

fn established(recv_nxt: u32, recv_wnd: u16) -> flow {
    flow {
        quad: Quad { src: (REMOTE, 1234), dst: (LOCAL, 4000) },
        state: State::Estab,
        send: SendSequenceSpace { una: 0, nxt: 1, wnd: 64240, up: false, wl1: 0, wl2: 0, iss: 0 },
        recv: RecvSequenceSpace { nxt: recv_nxt, wnd: recv_wnd, up: false, irs: 100 },
        ip: Ipv4Header {
            source: LOCAL,
            destination: REMOTE,
            time_to_live: 64,
            protocol: 6,
            payload_len: 0,
        },
        tcp: TcpHeader {
            source_port: 4000,
            destination_port: 1234,
            sequence_number: 0,
            acknowledgment_number: 0,
            syn: false,
            ack: true,
            fin: false,
            window_size: 64240,
            checksum: 0,
        },
        stats: Statistics { timer: Instant::now(), size: 0 },
        incoming: VecDeque::new(),
        unacked: VecDeque::new(),
    }
}

fn tcp_of(datagram: &[u8]) -> etherparse::TcpHeader {
    let ip = etherparse::Ipv4HeaderSlice::from_slice(datagram).unwrap();
    let rest = &datagram[ip.slice().len()..];
    etherparse::TcpHeaderSlice::from_slice(rest).unwrap().to_header()
}

#[test]
fn segment_check_empty_segment_empty_window() {
    let f = established(500, 0);
    assert!(f.segment_check(0, 500));
    assert!(!f.segment_check(0, 499));
    assert!(!f.segment_check(0, 501));
}

#[test]
fn segment_check_empty_segment_open_window() {
    let f = established(500, 10);
    assert!(!f.segment_check(0, 499));
    assert!(f.segment_check(0, 500));
    assert!(f.segment_check(0, 509));
    assert!(!f.segment_check(0, 510));
}

#[test]
fn segment_check_data_never_fits_empty_window() {
    let f = established(500, 0);
    assert!(!f.segment_check(1, 500));
    assert!(!f.segment_check(3, 498));
    assert!(!f.segment_check(100, 0));
}

#[test]
fn segment_check_data_starts_or_ends_in_window() {
    let f = established(500, 10);
    // starts in the window
    assert!(f.segment_check(4, 500));
    assert!(f.segment_check(400, 509));
    assert!(!f.segment_check(4, 510));
    // starts before the window and ends in it
    assert!(f.segment_check(4, 497));
    assert!(f.segment_check(4, 498));
    // ends just before the window
    assert!(!f.segment_check(4, 496));
    // covers the window without starting or ending in it
    assert!(!f.segment_check(100, 450));
}

#[test]
fn segment_check_window_crosses_zero() {
    let f = established(0xFFFF_FFFC, 8);
    assert!(f.segment_check(0, 0xFFFF_FFFC));
    assert!(f.segment_check(0, 3));
    assert!(!f.segment_check(0, 4));
    assert!(f.segment_check(2, 0xFFFF_FFFB));
    assert!(!f.segment_check(1, 0xFFFF_FFFB));
}

#[test]
fn ack_check_bounds() {
    let mut f = established(500, 10);
    f.send.una = 7;
    f.send.nxt = 9;
    assert!(!f.ack_check(6));
    assert!(f.ack_check(7));
    assert!(f.ack_check(8));
    assert!(f.ack_check(9));
    assert!(!f.ack_check(10));
}

#[test]
fn absorb_check_bounds() {
    let f = established(500, 10);
    // starts at, or before and reaching, the next byte expected
    assert!(f.absorb_check(500, 0));
    assert!(f.absorb_check(497, 3));
    // ends one short of it
    assert!(f.absorb_check(499, 0));
    assert!(f.absorb_check(496, 3));
    // ends two short of it
    assert!(!f.absorb_check(495, 3));
    // starts after it
    assert!(!f.absorb_check(501, 3));
}

#[test]
fn write_pure_ack_keeps_send_next() {
    let mut f = established(104, 1024);
    let mut nic = Interface::new(LOCAL);
    let n = f.write(&mut nic, 1, 0);
    assert_eq!(n, 40);
    assert_eq!(f.send.nxt, 1);
    assert_eq!(nic.outbox.len(), 1);
    let h = tcp_of(&nic.outbox[0]);
    assert!(h.ack && !h.syn && !h.fin);
    assert_eq!(h.sequence_number, 1);
    assert_eq!(h.acknowledgment_number, 104);
}

#[test]
fn write_syn_takes_one_sequence_number() {
    let mut f = established(104, 1024);
    f.tcp.syn = true;
    let mut nic = Interface::new(LOCAL);
    f.write(&mut nic, 1, 0);
    assert_eq!(f.send.nxt, 2);
    assert!(!f.tcp.syn);
    assert!(tcp_of(&nic.outbox[0]).syn);
    // the flag is gone: the next segment takes nothing
    f.write(&mut nic, 2, 0);
    assert_eq!(f.send.nxt, 2);
    assert!(!tcp_of(&nic.outbox[1]).syn);
}

#[test]
fn write_fin_takes_one_sequence_number() {
    let mut f = established(104, 1024);
    f.tcp.fin = true;
    let mut nic = Interface::new(LOCAL);
    f.write(&mut nic, 1, 0);
    assert_eq!(f.send.nxt, 2);
    assert!(!f.tcp.fin);
    assert!(tcp_of(&nic.outbox[0]).fin);
}

#[test]
fn write_send_next_wraps() {
    let mut f = established(104, 1024);
    f.send.nxt = 0xFFFF_FFFF;
    f.tcp.fin = true;
    let mut nic = Interface::new(LOCAL);
    f.write(&mut nic, 0xFFFF_FFFF, 0);
    assert_eq!(f.send.nxt, 0);
}

#[test]
fn write_exact_bytes() {
    let mut f = established(104, 1024);
    let mut nic = Interface::new(LOCAL);
    f.write(&mut nic, 1, 0);
    let expected: [u8; 40] = [
        0x45, 0x00, 0x00, 0x28, 0x00, 0x00, 0x40, 0x00, 0x40, 0x06, 0x26, 0xce, 0x0a, 0x00, 0x00,
        0x01, 0x0a, 0x00, 0x00, 0x02, 0x0f, 0xa0, 0x04, 0xd2, 0x00, 0x00, 0x00, 0x01, 0x00, 0x00,
        0x00, 0x68, 0x50, 0x10, 0xfa, 0xf0, 0x8c, 0x06, 0x00, 0x00,
    ];
    assert_eq!(nic.outbox[0], expected.to_vec());
    assert_eq!(f.tcp.checksum, 0x8c06);
    assert_eq!(f.ip.payload_len, 20);
}

#[test]
fn data_from_segment_queues_in_order() {
    let mut f = established(101, 1024);
    f.data_from_segment(&[0x61, 0x62, 0x63], &segment(101, 1, false, true, false));
    assert_eq!(f.incoming, VecDeque::from(vec![0x61, 0x62, 0x63]));
    assert_eq!(f.recv.nxt, 104);
    assert_eq!(f.stats.size, 3);
    f.data_from_segment(&[0x64], &segment(104, 1, false, true, false));
    assert_eq!(f.incoming, VecDeque::from(vec![0x61, 0x62, 0x63, 0x64]));
    assert_eq!(f.recv.nxt, 105);
    assert_eq!(f.stats.size, 4);
}

#[test]
fn data_from_segment_skips_what_it_has() {
    let mut f = established(103, 1024);
    f.data_from_segment(&[1, 2, 3, 4, 5], &segment(101, 1, false, true, false));
    assert_eq!(f.incoming, VecDeque::from(vec![3, 4, 5]));
    assert_eq!(f.recv.nxt, 106);
    assert_eq!(f.stats.size, 3);
}

#[test]
fn data_from_segment_fin_takes_one_number() {
    let mut f = established(101, 1024);
    f.data_from_segment(&[9, 9], &segment(101, 1, false, true, true));
    assert_eq!(f.recv.nxt, 104);
    assert_eq!(f.stats.size, 2);
}

#[test]
fn data_from_segment_wraps() {
    let mut f = established(0xFFFF_FFFE, 1024);
    f.data_from_segment(&[1, 2, 3], &segment(0xFFFF_FFFE, 1, false, true, false));
    assert_eq!(f.recv.nxt, 1);
    assert_eq!(f.incoming.len(), 3);
}

#[test]
fn repeated_fin_changes_nothing() {
    let fin = segment(104, 1, false, true, true);
    let mut f = established(103, 1024);
    f.data_from_segment(&[0x61], &segment(103, 1, false, true, false));
    let mut nic = Interface::new(LOCAL);

    f.data_from_segment(&[], &fin);
    assert_eq!(f.recv.nxt, 105);
    f.write(&mut nic, 1, 0);

    // the same FIN again, now one short of the next number expected
    assert!(f.absorb_check(104, 0));
    f.data_from_segment(&[], &fin);
    assert_eq!(f.recv.nxt, 105);
    assert_eq!(f.incoming, VecDeque::from(vec![0x61]));
    assert_eq!(f.stats.size, 1);
    f.write(&mut nic, 1, 0);

    assert_eq!(nic.outbox.len(), 2);
    assert_eq!(nic.outbox[0], nic.outbox[1]);
    assert_eq!(tcp_of(&nic.outbox[1]).acknowledgment_number, 105);
}

#[test]
fn estab_handler_acknowledges_data() {
    let mut f = established(101, 1024);
    let mut nic = Interface::new(LOCAL);
    f.Estab_handler(&mut nic, segment(101, 1, false, true, false), &[0x61, 0x62, 0x63]);
    assert_eq!(f.state, State::Estab);
    assert_eq!(f.incoming, VecDeque::from(vec![0x61, 0x62, 0x63]));
    assert_eq!(nic.outbox.len(), 1);
    let h = tcp_of(&nic.outbox[0]);
    assert_eq!((h.sequence_number, h.acknowledgment_number), (1, 104));
    assert!(h.ack && !h.fin && !h.syn);
}

#[test]
fn estab_handler_drops_segment_outside_window() {
    let mut f = established(101, 10);
    let mut nic = Interface::new(LOCAL);
    f.Estab_handler(&mut nic, segment(200, 1, false, true, false), &[1, 2, 3]);
    assert_eq!(f.recv.nxt, 101);
    assert!(f.incoming.is_empty());
    assert!(nic.outbox.is_empty());
}

#[test]
fn estab_handler_drops_segment_ahead_of_next() {
    // in the window, but a gap lies before it
    let mut f = established(101, 1024);
    let mut nic = Interface::new(LOCAL);
    f.Estab_handler(&mut nic, segment(105, 1, false, true, false), &[1, 2, 3]);
    assert_eq!(f.state, State::Estab);
    assert_eq!(f.recv.nxt, 101);
    assert!(f.incoming.is_empty());
    assert_eq!(f.stats.size, 0);
    assert!(nic.outbox.is_empty());
}

#[test]
fn estab_handler_answers_fin_with_fin() {
    let mut f = established(104, 1024);
    let mut nic = Interface::new(LOCAL);
    f.Estab_handler(&mut nic, segment(104, 1, false, true, true), &[]);
    assert_eq!(f.state, State::LastAck);
    assert_eq!(f.recv.nxt, 105);
    assert_eq!(f.send.nxt, 2);
    assert_eq!(nic.outbox.len(), 2);
    let first = tcp_of(&nic.outbox[0]);
    let second = tcp_of(&nic.outbox[1]);
    assert!(first.ack && !first.fin);
    assert_eq!((first.sequence_number, first.acknowledgment_number), (1, 105));
    assert!(second.fin);
    assert_eq!((second.sequence_number, second.acknowledgment_number), (1, 105));
}

#[test]
fn syn_rcvd_handler_needs_ack_of_syn() {
    let mut f = established(101, 1024);
    f.state = State::SynRcvd;
    let mut nic = Interface::new(LOCAL);
    // acknowledges something never sent
    f.SynRcvd_handler(&mut nic, segment(101, 5, false, true, false), &[]);
    assert_eq!(f.state, State::SynRcvd);
    f.SynRcvd_handler(&mut nic, segment(101, 1, false, true, false), &[]);
    assert_eq!(f.state, State::Estab);
    assert!(nic.outbox.is_empty());
}

#[test]
fn syn_rcvd_handler_takes_data_with_the_ack() {
    let mut f = established(101, 1024);
    f.state = State::SynRcvd;
    let mut nic = Interface::new(LOCAL);
    f.SynRcvd_handler(&mut nic, segment(101, 1, false, true, false), &[7, 8]);
    assert_eq!(f.state, State::Estab);
    assert_eq!(f.incoming, VecDeque::from(vec![7, 8]));
    assert_eq!(f.recv.nxt, 103);
    assert_eq!(nic.outbox.len(), 1);
    assert_eq!(tcp_of(&nic.outbox[0]).acknowledgment_number, 103);
}

#[test]
fn syn_rcvd_handler_drops_unacceptable_segment() {
    let mut f = established(101, 1024);
    f.state = State::SynRcvd;
    let mut nic = Interface::new(LOCAL);
    f.SynRcvd_handler(&mut nic, segment(5000, 1, false, true, false), &[]);
    assert_eq!(f.state, State::SynRcvd);
    assert_eq!(f.recv.nxt, 101);
}

#[test]
fn last_ack_handler_closes_on_ack_of_fin() {
    let mut f = established(105, 1024);
    f.state = State::LastAck;
    f.send.nxt = 2;
    let mut nic = Interface::new(LOCAL);
    // not acceptable: before the window
    f.LastAck_handler(&mut nic, segment(104, 2, false, true, false));
    assert_eq!(f.state, State::LastAck);
    // acknowledges nothing that was sent
    f.LastAck_handler(&mut nic, segment(105, 9, false, true, false));
    assert_eq!(f.state, State::LastAck);
    f.LastAck_handler(&mut nic, segment(105, 2, false, true, false));
    assert_eq!(f.state, State::Closed);
    assert!(nic.outbox.is_empty());
}

#[test]
fn syn_sent_handler_learns_sequence_number() {
    let mut f = established(0, 0);
    f.state = State::SynSent;
    f.tcp.ack = false;
    let mut nic = Interface::new(LOCAL);
    // acknowledges nothing that was sent: only the number is noted
    f.SynSent_handler(&mut nic, segment(9000, 77, true, true, false));
    assert_eq!(f.state, State::SynSent);
    assert_eq!(f.recv.nxt, 9000);
    assert!(nic.outbox.is_empty());
    assert_eq!((f.recv.irs, f.recv.wnd), (100, 0));
    f.SynSent_handler(&mut nic, segment(9000, 1, true, true, false));
    assert_eq!(f.state, State::Estab);
    // the receive space comes from the peer's SYN
    assert_eq!(f.recv, RecvSequenceSpace { nxt: 9001, wnd: 1024, up: false, irs: 9000 });
    assert_eq!(nic.outbox.len(), 1);
    let h = tcp_of(&nic.outbox[0]);
    assert!(h.ack && !h.syn);
    assert_eq!((h.sequence_number, h.acknowledgment_number), (1, 9001));
}

#[test]
fn reserved_handlers_do_nothing() {
    let mut f = established(101, 1024);
    f.FinWait1_handler();
    f.FinWait2_handler();
    f.TimeWait_handler();
    f.CloseWait_handler();
    f.Closed_handler();
    assert_eq!(f.state, State::Estab);
    assert_eq!(f.send.nxt, 1);
    assert_eq!(f.recv.nxt, 101);
    assert!(f.incoming.is_empty());
}

#[test]
fn passive_handshake_only_for_plain_syn() {
    let ip = Ipv4Header {
        source: REMOTE,
        destination: LOCAL,
        time_to_live: 64,
        protocol: 6,
        payload_len: 20,
    };
    let mut nic = Interface::new(LOCAL);
    assert!(flow::passive_three_way_handshake(&mut nic, ip, segment(100, 0, false, true, false))
        .is_none());
    assert!(flow::passive_three_way_handshake(&mut nic, ip, segment(100, 1, true, true, false))
        .is_none());
    assert!(nic.outbox.is_empty());
    let f = flow::passive_three_way_handshake(&mut nic, ip, segment(100, 0, true, false, false))
        .unwrap();
    assert_eq!(f.state, State::SynRcvd);
    assert_eq!(f.quad, Quad { src: (REMOTE, 1234), dst: (LOCAL, 4000) });
    assert_eq!(f.send, SendSequenceSpace { una: 0, nxt: 1, wnd: 64240, up: false, wl1: 0, wl2: 0, iss: 0 });
    assert_eq!(f.recv, RecvSequenceSpace { nxt: 101, wnd: 1024, up: false, irs: 100 });
    assert_eq!(nic.outbox.len(), 1);
}

#[test]
fn passive_handshake_sequence_number_wraps() {
    let ip = Ipv4Header {
        source: REMOTE,
        destination: LOCAL,
        time_to_live: 64,
        protocol: 6,
        payload_len: 20,
    };
    let mut nic = Interface::new(LOCAL);
    let f = flow::passive_three_way_handshake(
        &mut nic,
        ip,
        segment(0xFFFF_FFFF, 0, true, false, false),
    )
    .unwrap();
    assert_eq!(f.recv.irs, 0xFFFF_FFFF);
    assert_eq!(f.recv.nxt, 0);
}

#[test]
fn active_handshake_sends_syn() {
    let mut nic = Interface::new(LOCAL);
    let quad = Quad { src: (REMOTE, 80), dst: (LOCAL, 5000) };
    let f = flow::active_three_way_handshake(&mut nic, &quad).unwrap();
    assert_eq!(f.state, State::SynSent);
    assert_eq!(f.quad, quad);
    assert_eq!(f.send.nxt, 1);
    assert_eq!(f.send.una, 0);
    assert_eq!(f.recv, RecvSequenceSpace { nxt: 0, wnd: 0, up: false, irs: 0 });
    assert_eq!(nic.outbox.len(), 1);
    let h = tcp_of(&nic.outbox[0]);
    assert!(h.syn && !h.ack && !h.fin);
    assert_eq!((h.source_port, h.destination_port), (5000, 80));
    assert_eq!((h.sequence_number, h.acknowledgment_number), (0, 0));
    assert_eq!(h.window_size, 64240);
}

#[test]
fn interface_queues_in_order() {
    let mut nic = Interface::new(LOCAL);
    assert_eq!(nic.ip, LOCAL);
    assert_eq!(nic.send(&[1, 2, 3]), 3);
    assert_eq!(nic.send(&[]), 0);
    assert_eq!(nic.send(&[4]), 1);
    assert_eq!(nic.outbox, vec![vec![1, 2, 3], vec![], vec![4]]);
}

#[test]
fn quad_keys_differ() {
    let base = Quad { src: (REMOTE, 1234), dst: (LOCAL, 4000) };
    let others = [
        Quad { src: (REMOTE + 1, 1234), dst: (LOCAL, 4000) },
        Quad { src: (REMOTE, 1235), dst: (LOCAL, 4000) },
        Quad { src: (REMOTE, 1234), dst: (LOCAL + 1, 4000) },
        Quad { src: (REMOTE, 1234), dst: (LOCAL, 4001) },
        Quad { src: (LOCAL, 4000), dst: (REMOTE, 1234) },
    ];
    assert_eq!(base.key(), 0x0A00_0002_04D2_0A00_0001_0FA0);
    for q in others {
        assert_ne!(q.key(), base.key());
    }
}

#[test]
fn statistics_in_larger_units() {
    let stats = Statistics { timer: Instant::now(), size: 5 * 1024 * 1024 + 1023 };
    assert_eq!(stats.kilobytes(), 5 * 1024);
    assert_eq!(stats.megabytes(), 5);
    assert_eq!(stats.throughput(1), 5);
    assert_eq!(stats.throughput(2), 2);
    assert_eq!(stats.throughput(6), 0);
}

#[test]
fn quad_of_segment_has_sender_as_remote_end() {
    let ip = Ipv4Header {
        source: REMOTE,
        destination: LOCAL,
        time_to_live: 64,
        protocol: 6,
        payload_len: 20,
    };
    let quad = Quad::of(&ip, &segment(100, 0, true, false, false));
    assert_eq!(quad, Quad { src: (REMOTE, 1234), dst: (LOCAL, 4000) });
}

#[test]
fn syn_sent_handler_takes_window_of_the_peer() {
    let mut f = established(0, 0);
    f.state = State::SynSent;
    f.tcp.ack = false;
    let mut nic = Interface::new(LOCAL);
    let mut syn_ack = segment(9000, 1, true, true, false);
    syn_ack.window_size = 2048;
    f.SynSent_handler(&mut nic, syn_ack);
    assert_eq!(f.state, State::Estab);
    assert_eq!(f.recv.irs, 9000);
    assert_eq!(f.recv.nxt, 9001);
    assert_eq!(f.recv.wnd, 2048);
    // data in order is taken in now
    f.Estab_handler(&mut nic, segment(9001, 1, false, true, false), &[1, 2, 3]);
    assert_eq!(f.incoming, VecDeque::from(vec![1, 2, 3]));
    assert_eq!(f.recv.nxt, 9004);
    assert_eq!(nic.outbox.len(), 2);
    assert_eq!(tcp_of(&nic.outbox[1]).acknowledgment_number, 9004);
}

#[test]
fn syn_sent_handler_needs_syn_and_ack() {
    let mut nic = Interface::new(LOCAL);
    for (syn, ack) in [(false, false), (true, false), (false, true)] {
        let mut f = established(0, 0);
        f.state = State::SynSent;
        f.tcp.ack = false;
        // the acknowledgment number fits, the flags do not
        f.SynSent_handler(&mut nic, segment(9000, 1, syn, ack, false));
        assert_eq!(f.state, State::SynSent);
        assert_eq!(f.recv, RecvSequenceSpace { nxt: 0, wnd: 0, up: false, irs: 100 });
        assert!(!f.tcp.ack);
    }
    assert!(nic.outbox.is_empty());
}

#[test]
fn syn_rcvd_handler_needs_ack_flag() {
    let mut f = established(101, 1024);
    f.state = State::SynRcvd;
    let mut nic = Interface::new(LOCAL);
    f.SynRcvd_handler(&mut nic, segment(101, 1, false, false, false), &[7]);
    assert_eq!(f.state, State::SynRcvd);
    assert_eq!(f.recv.nxt, 101);
    assert!(f.incoming.is_empty());
    assert!(nic.outbox.is_empty());
    f.SynRcvd_handler(&mut nic, segment(101, 1, false, true, false), &[7]);
    assert_eq!(f.state, State::Estab);
}

#[test]
fn last_ack_handler_needs_ack_flag() {
    let mut f = established(105, 1024);
    f.state = State::LastAck;
    f.send.nxt = 2;
    let mut nic = Interface::new(LOCAL);
    f.LastAck_handler(&mut nic, segment(105, 2, false, false, false));
    assert_eq!(f.state, State::LastAck);
    f.LastAck_handler(&mut nic, segment(105, 2, false, false, true));
    assert_eq!(f.state, State::LastAck);
    f.LastAck_handler(&mut nic, segment(105, 2, false, true, false));
    assert_eq!(f.state, State::Closed);
}

#[test]
fn estab_handler_counts_fin_in_the_length() {
    // a FIN without data has length one: nothing of length one fits a
    // closed window
    let mut f = established(104, 0);
    let mut nic = Interface::new(LOCAL);
    f.Estab_handler(&mut nic, segment(104, 1, false, true, true), &[]);
    assert_eq!(f.state, State::Estab);
    assert_eq!(f.recv.nxt, 104);
    assert_eq!(f.send.nxt, 1);
    assert!(nic.outbox.is_empty());
    // an empty segment without FIN has length zero and fits
    f.Estab_handler(&mut nic, segment(104, 1, false, true, false), &[]);
    assert_eq!(f.state, State::Estab);
    assert_eq!(nic.outbox.len(), 1);
}

#[test]
fn estab_handler_fin_ends_in_the_window() {
    // the data ends just before the window; the FIN behind it lies in it
    let mut f = established(104, 10);
    let mut nic = Interface::new(LOCAL);
    f.Estab_handler(&mut nic, segment(101, 1, false, true, false), &[1, 2, 3]);
    assert!(nic.outbox.is_empty());
    assert_eq!(f.recv.nxt, 104);
    f.Estab_handler(&mut nic, segment(101, 1, false, true, true), &[1, 2, 3]);
    assert_eq!(f.state, State::LastAck);
    assert!(f.incoming.is_empty());
    assert_eq!(f.recv.nxt, 105);
    assert_eq!(nic.outbox.len(), 2);
}

#[test]
fn estab_handler_counts_syn_in_the_length() {
    // a SYN without data has length one
    let mut f = established(104, 0);
    let mut nic = Interface::new(LOCAL);
    f.Estab_handler(&mut nic, segment(104, 1, true, true, false), &[]);
    assert_eq!(f.state, State::Estab);
    assert!(nic.outbox.is_empty());
}

#[test]
fn write_checksums_with_carries() {
    let mut f = established(0xFFFF_FFFF, 1024);
    f.ip.source = 0xFFFF_FFFE;
    f.ip.destination = 0xFFFF_FFFF;
    f.tcp.source_port = 65535;
    f.tcp.destination_port = 65535;
    let mut nic = Interface::new(0xFFFF_FFFE);
    f.write(&mut nic, 0xFFFF_FFFF, 0);
    f.tcp.fin = true;
    f.write(&mut nic, 0xFFFF_FFFF, 0);
    let plain: [u8; 40] = [
        0x45, 0x00, 0x00, 0x28, 0x00, 0x00, 0x40, 0x00, 0x40, 0x06, 0x3a, 0xd2, 0xff, 0xff, 0xff,
        0xfe, 0xff, 0xff, 0xff, 0xff, 0xff, 0xff, 0xff, 0xff, 0xff, 0xff, 0xff, 0xff, 0xff, 0xff,
        0xff, 0xff, 0x50, 0x10, 0xfa, 0xf0, 0xb4, 0xe5, 0x00, 0x00,
    ];
    let with_fin: [u8; 40] = [
        0x45, 0x00, 0x00, 0x28, 0x00, 0x00, 0x40, 0x00, 0x40, 0x06, 0x3a, 0xd2, 0xff, 0xff, 0xff,
        0xfe, 0xff, 0xff, 0xff, 0xff, 0xff, 0xff, 0xff, 0xff, 0xff, 0xff, 0xff, 0xff, 0xff, 0xff,
        0xff, 0xff, 0x50, 0x11, 0xfa, 0xf0, 0xb4, 0xe4, 0x00, 0x00,
    ];
    assert_eq!(nic.outbox, vec![plain.to_vec(), with_fin.to_vec()]);
}

#[test]
fn write_checksums_of_small_numbers() {
    let mut f = established(0, 1024);
    f.ip.source = 1;
    f.ip.destination = 2;
    f.tcp.source_port = 1;
    f.tcp.destination_port = 2;
    f.tcp.ack = false;
    f.tcp.syn = true;
    let mut nic = Interface::new(1);
    f.write(&mut nic, 0, 0);
    let expected: [u8; 40] = [
        0x45, 0x00, 0x00, 0x28, 0x00, 0x00, 0x40, 0x00, 0x40, 0x06, 0x3a, 0xce, 0x00, 0x00, 0x00,
        0x01, 0x00, 0x00, 0x00, 0x02, 0x00, 0x01, 0x00, 0x02, 0x00, 0x00, 0x00, 0x00, 0x00, 0x00,
        0x00, 0x00, 0x50, 0x02, 0xfa, 0xf0, 0xb4, 0xec, 0x00, 0x00,
    ];
    assert_eq!(nic.outbox, vec![expected.to_vec()]);
}
