//! One TCP connection: its identity, its sequence spaces, the header
//! templates it answers with, the bytes it has received, and the handlers that
//! move it through the RFC 793 state machine.
//!
//! Every handler is specified as a function on [`FlowView`], the mathematical
//! picture of a flow; the executable code is proved to compute it.

use crate::codec::{
    checksum_of, datagram, ipv4_header_bytes, tcp_checksum, tcp_header_bytes, Ipv4Header,
    TcpHeader, IPV4_HEADER_LEN, PROTOCOL_TCP, TCP_HEADER_LEN,
};
use crate::nic::Interface;
use crate::tcp::seq::{is_between_wrapped, lemma_window, wrapping_lt, HALF_SPACE};
use std::collections::VecDeque;
use std::time::Instant;
use vstd::prelude::*;

verus! {

/// The initial send sequence number of every flow.
pub const INITIAL_SEND_SEQ: u32 = 0;

/// The window every flow advertises.
pub const SEND_WINDOW: u16 = 64240;

/// The time to live of every datagram sent.
pub const TIME_TO_LIVE: u8 = 64;

/// The largest datagram the engine builds.
pub const MAX_DATAGRAM: usize = 1500;

/// The identity of a connection. `src` is the remote address and port, `dst`
/// the local ones, as they stand in a segment received from the peer.
#[derive(Clone, Copy, Debug, Hash, PartialEq, Eq)]
pub struct Quad {
    pub src: (u32, u16),
    pub dst: (u32, u16),
}

/// The quad of a segment as it arrives: the sender is the remote end.
pub open spec fn quad_of(ip: Ipv4Header, h: TcpHeader) -> Quad {
    Quad { src: (ip.source, h.source_port), dst: (ip.destination, h.destination_port) }
}

impl Quad {
    /// The quad of a segment with headers `ip` and `h` as it arrives.
    pub fn of(ip: &Ipv4Header, h: &TcpHeader) -> (quad: Quad)
        ensures
            quad == quad_of(*ip, *h),
    {
        Quad { src: (ip.source, h.source_port), dst: (ip.destination, h.destination_port) }
    }

    /// The quad as one number: remote address, remote port, local address
    /// and local port, from the most significant bits down.
    pub open spec fn spec_key(&self) -> u128 {
        (self.src.0 * 0x1_0000_0000_0000_0000 + self.src.1 * 0x1_0000_0000_0000 + self.dst.0
            * 0x1_0000 + self.dst.1) as u128
    }

    /// The quad as one number, under which the flow table files it.
    #[verifier::when_used_as_spec(spec_key)]
    pub fn key(&self) -> (k: u128)
        ensures
            k == self.spec_key(),
    {
        (self.src.0 as u128) * 0x1_0000_0000_0000_0000 + (self.src.1 as u128) * 0x1_0000_0000_0000
            + (self.dst.0 as u128) * 0x1_0000 + (self.dst.1 as u128)
    }

    /// Different quads have different keys.
    pub proof fn lemma_key_injective(a: Quad, b: Quad)
        ensures
            a.spec_key() == b.spec_key() ==> a == b,
    {
    }
}

/// The states of a connection. There is no listening state: listening is a
/// property of a port, not of a flow.
#[derive(Clone, Copy, Debug, PartialEq, Eq, Structural)]
pub enum State {
    SynRcvd,
    SynSent,
    Estab,
    FinWait1,
    FinWait2,
    TimeWait,
    CloseWait,
    LastAck,
    Closed,
}

/// State of the send sequence space (RFC 793 S3.2 F4).
///
/// ```text
///            1         2          3          4
///       ----------|----------|----------|----------
///              SND.UNA    SND.NXT    SND.UNA
///                                   +SND.WND
///
/// 1 - old sequence numbers which have been acknowledged
/// 2 - sequence numbers of unacknowledged data
/// 3 - sequence numbers allowed for new data transmission
/// 4 - future sequence numbers which are not yet allowed
/// ```
#[derive(Clone, Copy, Debug, PartialEq, Eq)]
pub struct SendSequenceSpace {
    /// send unacknowledged
    pub una: u32,
    /// send next
    pub nxt: u32,
    /// send window
    pub wnd: u16,
    /// send urgent pointer
    pub up: bool,
    /// segment sequence number used for last window update
    pub wl1: usize,
    /// segment acknowledgment number used for last window update
    pub wl2: usize,
    /// initial send sequence number
    pub iss: u32,
}

/// State of the receive sequence space (RFC 793 S3.2 F5).
///
/// ```text
///                1          2          3
///            ----------|----------|----------
///                   RCV.NXT    RCV.NXT
///                             +RCV.WND
///
/// 1 - old sequence numbers which have been acknowledged
/// 2 - sequence numbers allowed for new reception
/// 3 - future sequence numbers which are not yet allowed
/// ```
#[derive(Clone, Copy, Debug, PartialEq, Eq)]
pub struct RecvSequenceSpace {
    /// receive next
    pub nxt: u32,
    /// receive window
    pub wnd: u16,
    /// receive urgent pointer
    pub up: bool,
    /// initial receive sequence number
    pub irs: u32,
}

/// A point in time as `std::time::Instant` holds it. Nothing is known of it
/// but that it can be carried around.
#[verifier::external_type_specification]
#[verifier::external_body]
pub struct ExInstant(std::time::Instant);

/// When a flow was created and how many bytes it has taken in since.
pub struct Statistics {
    pub timer: Instant,
    pub size: u64,
}

impl Statistics {
    /// The bytes taken in, in whole kilobytes of 1024 bytes.
    pub fn kilobytes(&self) -> (n: u64)
        ensures
            n == self.size / 1024,
    {
        self.size / 1024
    }

    /// The bytes taken in, in whole megabytes of 1024 kilobytes.
    pub fn megabytes(&self) -> (n: u64)
        ensures
            n == self.size / 1024 / 1024,
    {
        self.size / 1024 / 1024
    }

    /// Whole megabytes taken in per second, over `seconds` seconds.
    pub fn throughput(&self, seconds: u64) -> (n: u64)
        requires
            seconds != 0,
        ensures
            n == self.size / 1024 / 1024 / seconds,
    {
        self.size / 1024 / 1024 / seconds
    }
}

/// One connection.
pub struct flow {
    pub quad: Quad,
    pub state: State,
    pub send: SendSequenceSpace,
    pub recv: RecvSequenceSpace,
    /// The IPv4 header of every datagram this flow sends.
    pub ip: Ipv4Header,
    /// The TCP header of the next segment this flow sends. Ports and window
    /// stay; flags and numbers are rewritten for each segment.
    pub tcp: TcpHeader,
    pub stats: Statistics,
    /// Received bytes, in sequence order, not yet read by anyone.
    pub incoming: VecDeque<u8>,
    /// Sent bytes awaiting acknowledgment. The engine sends no payload.
    pub unacked: VecDeque<u8>,
}

/// The mathematical picture of a [`flow`]: every field but the creation time,
/// with the byte queues as sequences.
pub struct FlowView {
    pub quad: Quad,
    pub state: State,
    pub send: SendSequenceSpace,
    pub recv: RecvSequenceSpace,
    pub ip: Ipv4Header,
    pub tcp: TcpHeader,
    /// The byte count of the statistics.
    pub size: nat,
    pub incoming: Seq<u8>,
    pub unacked: Seq<u8>,
}

/// What handling one event did to a flow: the flow afterwards, and the
/// datagrams it emitted, in order.
pub struct Step {
    pub flow: FlowView,
    pub sent: Seq<Seq<u8>>,
}

impl View for flow {
    type V = FlowView;

    open spec fn view(&self) -> FlowView {
        FlowView {
            quad: self.quad,
            state: self.state,
            send: self.send,
            recv: self.recv,
            ip: self.ip,
            tcp: self.tcp,
            size: self.stats.size as nat,
            incoming: self.incoming@,
            unacked: self.unacked@,
        }
    }
}

// The specification: what the acceptance tests say, and what each event does
// to a flow.

/// The number of sequence numbers that a SYN and a FIN take.
pub open spec fn flags(syn: bool, fin: bool) -> u32 {
    ((if syn { 1int } else { 0 }) + (if fin { 1int } else { 0 })) as u32
}

/// A length in bytes as a 32-bit number: the length modulo 2^32.
pub open spec fn wrapped_len(len: nat) -> u32 {
    (len % 0x1_0000_0000) as u32
}

/// The segment acceptability test of RFC 793 S3.3 for a segment that occupies
/// `slen` sequence numbers starting at `seqn`:
///
/// ```text
///     Length  Window
///     ------- -------  -------------------------------------------
///        0       0     SEG.SEQ = RCV.NXT
///        0      >0     RCV.NXT =< SEG.SEQ < RCV.NXT+RCV.WND
///       >0       0     not acceptable
///       >0      >0     RCV.NXT =< SEG.SEQ < RCV.NXT+RCV.WND
///                   or RCV.NXT =< SEG.SEQ+SEG.LEN-1 < RCV.NXT+RCV.WND
/// ```
pub open spec fn segment_acceptable(recv: RecvSequenceSpace, slen: u32, seqn: u32) -> bool {
    let before = recv.nxt.wrapping_sub(1);
    let wend = recv.nxt.wrapping_add(recv.wnd as u32);
    if slen == 0 {
        if recv.wnd == 0 {
            seqn == recv.nxt
        } else {
            is_between_wrapped(before, seqn, wend)
        }
    } else {
        if recv.wnd == 0 {
            false
        } else {
            is_between_wrapped(before, seqn, wend) || is_between_wrapped(
                before,
                seqn.wrapping_add((slen - 1) as u32),
                wend,
            )
        }
    }
}

/// An acknowledgment number is acceptable when it acknowledges something
/// sent and not yet acknowledged: `SND.UNA - 1 < ackn < SND.NXT + 1`.
pub open spec fn ack_acceptable(send: SendSequenceSpace, ackn: u32) -> bool {
    is_between_wrapped(send.una.wrapping_sub(1), ackn, send.nxt.wrapping_add(1))
}

/// Whether a segment of `len` data bytes at `seqn` can be taken in when
/// `nxt` is the next byte expected: it starts at or before `nxt` and reaches
/// it, or it ends one short of `nxt`, as a repeated FIN does.
pub open spec fn absorbable(nxt: u32, seqn: u32, len: nat) -> bool {
    nxt.wrapping_sub(seqn) <= len + 1
}

impl FlowView {
    /// The byte count equals the number of bytes queued.
    pub open spec fn wf(self) -> bool {
        self.size == self.incoming.len()
    }

    /// The send space of a flow between two events: no SYN or FIN waits on
    /// the template, and `send.nxt` is at most one number ahead of
    /// `send.una`, for the SYN, or two once the FIN is sent as well.
    pub open spec fn settled(self) -> bool {
        &&& !self.tcp.syn
        &&& !self.tcp.fin
        &&& match self.state {
            State::SynRcvd | State::SynSent | State::Estab => self.send.nxt.wrapping_sub(
                self.send.una,
            ) <= 1,
            _ => self.send.nxt.wrapping_sub(self.send.una) <= 2,
        }
    }

    /// A flow for `quad` in `state` that has sent nothing: sequence numbers
    /// start at the initial send sequence number, the templates answer from
    /// the local end of `quad` to the remote one, and the queues are empty.
    pub open spec fn fresh(quad: Quad, state: State, recv: RecvSequenceSpace) -> FlowView {
        FlowView {
            quad: quad,
            state: state,
            send: SendSequenceSpace {
                una: INITIAL_SEND_SEQ,
                nxt: INITIAL_SEND_SEQ,
                wnd: SEND_WINDOW,
                up: false,
                wl1: 0,
                wl2: 0,
                iss: INITIAL_SEND_SEQ,
            },
            recv: recv,
            ip: Ipv4Header {
                source: quad.dst.0,
                destination: quad.src.0,
                time_to_live: TIME_TO_LIVE,
                protocol: PROTOCOL_TCP,
                payload_len: 0,
            },
            tcp: TcpHeader {
                source_port: quad.dst.1,
                destination_port: quad.src.1,
                sequence_number: INITIAL_SEND_SEQ,
                acknowledgment_number: 0,
                syn: false,
                ack: false,
                fin: false,
                window_size: SEND_WINDOW,
                checksum: 0,
            },
            size: 0,
            incoming: Seq::empty(),
            unacked: Seq::empty(),
        }
    }

    /// This flow with SYN and ACK set on its template as given.
    pub open spec fn flagged(self, syn: bool, ack: bool) -> FlowView {
        FlowView { tcp: TcpHeader { syn: syn, ack: ack, ..self.tcp }, ..self }
    }

    /// The flow as it is, with nothing emitted.
    pub open spec fn idle(self) -> Step {
        Step { flow: self, sent: Seq::empty() }
    }

    /// The header of the segment that `emit(seq)` sends: the template with
    /// sequence number `seq`, acknowledging `recv.nxt`, and its checksum.
    pub open spec fn outgoing(self, seq: u32) -> TcpHeader {
        let h = TcpHeader { sequence_number: seq, acknowledgment_number: self.recv.nxt, ..self.tcp };
        TcpHeader { checksum: checksum_of(h, self.ip), ..h }
    }

    /// Emission of one segment without payload. The datagram carries the
    /// template headers with sequence number `seq`; a SYN and a FIN each
    /// take one sequence number and are cleared from the template.
    pub open spec fn emit(self, seq: u32) -> Step {
        let h = self.outgoing(seq);
        let ip = Ipv4Header { payload_len: 20, ..self.ip };
        Step {
            flow: FlowView {
                ip: ip,
                tcp: TcpHeader { syn: false, fin: false, ..h },
                send: SendSequenceSpace { nxt: self.send.nxt.wrapping_add(flags(h.syn, h.fin)), ..self.send },
                ..self
            },
            sent: seq![datagram(ip, h)],
        }
    }

    /// Taking in the data of a segment at `seqn`. The bytes from `recv.nxt`
    /// on are queued; a segment that ends one short of `recv.nxt` is queued
    /// whole. Afterwards `recv.nxt` is the number after the segment's last.
    pub open spec fn absorb(self, seqn: u32, fin: bool, data: Seq<u8>) -> FlowView {
        let skip = self.recv.nxt.wrapping_sub(seqn);
        let start = if skip > data.len() { 0int } else { skip as int };
        FlowView {
            incoming: self.incoming + data.subrange(start, data.len() as int),
            size: (self.size + data.len() - start) as nat,
            recv: RecvSequenceSpace {
                nxt: seqn.wrapping_add(wrapped_len(data.len())).wrapping_add(
                    if fin { 1u32 } else { 0u32 },
                ),
                ..self.recv
            },
            ..self
        }
    }

    /// A segment in `SynRcvd`. It is dropped unless it carries an ACK, is
    /// acceptable with the length of its data plus one, acknowledges the SYN
    /// sent, and can be taken in. Then the connection is established and the
    /// data is queued and, if there is any, acknowledged.
    pub open spec fn on_syn_rcvd(self, h: TcpHeader, data: Seq<u8>) -> Step {
        if h.ack && segment_acceptable(
            self.recv,
            wrapped_len(data.len()).wrapping_add(1),
            h.sequence_number,
        ) && ack_acceptable(self.send, h.acknowledgment_number) && absorbable(
            self.recv.nxt,
            h.sequence_number,
            data.len(),
        ) {
            let f = FlowView { state: State::Estab, ..self }.absorb(h.sequence_number, h.fin, data);
            if data.len() != 0 {
                f.emit(f.send.nxt)
            } else {
                f.idle()
            }
        } else {
            self.idle()
        }
    }

    /// A segment in `Estab`. It is dropped unless it is acceptable with its
    /// length, which is the length of its data plus one for a SYN and one for
    /// a FIN, and can be taken in. Then the data is queued and acknowledged. A
    /// FIN is answered with a FIN at once, and the flow waits in `LastAck` for
    /// its acknowledgment.
    pub open spec fn on_estab(self, h: TcpHeader, data: Seq<u8>) -> Step {
        if segment_acceptable(
            self.recv,
            wrapped_len(data.len()).wrapping_add(flags(h.syn, h.fin)),
            h.sequence_number,
        ) && absorbable(self.recv.nxt, h.sequence_number, data.len()) {
            let f = self.absorb(h.sequence_number, h.fin, data);
            let acked = f.emit(f.send.nxt);
            if h.fin {
                let closing = FlowView { tcp: TcpHeader { fin: true, ..acked.flow.tcp }, ..acked.flow };
                let finished = closing.emit(closing.send.nxt);
                Step {
                    flow: FlowView { state: State::LastAck, ..finished.flow },
                    sent: acked.sent + finished.sent,
                }
            } else {
                acked
            }
        } else {
            self.idle()
        }
    }

    /// A segment in `LastAck`. The flow closes when the segment carries an
    /// ACK, is acceptable with length one, and acknowledges the FIN sent.
    pub open spec fn on_last_ack(self, h: TcpHeader) -> FlowView {
        if h.ack && segment_acceptable(self.recv, 1, h.sequence_number) && ack_acceptable(
            self.send,
            h.acknowledgment_number,
        ) {
            FlowView { state: State::Closed, ..self }
        } else {
            self
        }
    }

    /// A segment in `SynSent`. It is dropped unless it carries SYN and ACK.
    /// When it acknowledges the SYN sent, the connection is established: the
    /// receive space is taken from the segment, as on a passive open, and the
    /// peer's SYN is acknowledged. Otherwise only its sequence number is
    /// noted as the next one expected.
    pub open spec fn on_syn_sent(self, h: TcpHeader) -> Step {
        if !(h.syn && h.ack) {
            self.idle()
        } else if ack_acceptable(self.send, h.acknowledgment_number) {
            let f = FlowView {
                state: State::Estab,
                tcp: TcpHeader { ack: true, ..self.tcp },
                recv: RecvSequenceSpace {
                    irs: h.sequence_number,
                    nxt: h.sequence_number.wrapping_add(1),
                    wnd: h.window_size,
                    ..self.recv
                },
                ..self
            };
            f.emit(f.send.nxt)
        } else {
            FlowView { recv: RecvSequenceSpace { nxt: h.sequence_number, ..self.recv }, ..self }.idle()
        }
    }

    /// A segment for this flow, handled as its state says. Only `SynRcvd`,
    /// `SynSent`, `Estab` and `LastAck` react.
    pub open spec fn on_segment(self, h: TcpHeader, data: Seq<u8>) -> Step {
        match self.state {
            State::SynRcvd => self.on_syn_rcvd(h, data),
            State::Estab => self.on_estab(h, data),
            State::LastAck => self.on_last_ack(h).idle(),
            State::SynSent => self.on_syn_sent(h),
            _ => self.idle(),
        }
    }
}

/// Passive open: the answer to a segment for a listening port that belongs to
/// no flow. Only a SYN without ACK opens a connection. The new flow takes its
/// receive space from the segment and answers with SYN and ACK.
pub open spec fn passive_open(ip: Ipv4Header, h: TcpHeader) -> Option<Step> {
    if h.syn && !h.ack {
        let recv = RecvSequenceSpace {
            irs: h.sequence_number,
            nxt: h.sequence_number.wrapping_add(1),
            wnd: h.window_size,
            up: false,
        };
        let f = FlowView::fresh(quad_of(ip, h), State::SynRcvd, recv).flagged(true, true);
        Some(f.emit(f.send.nxt))
    } else {
        None
    }
}

/// Active open: a new flow for `quad` sends its SYN and waits in `SynSent`.
pub open spec fn active_open(quad: Quad) -> Step {
    let recv = RecvSequenceSpace { irs: 0, nxt: 0, wnd: 0, up: false };
    let f = FlowView::fresh(quad, State::Closed, recv).flagged(true, false);
    let sent = f.emit(f.send.nxt);
    Step { flow: FlowView { state: State::SynSent, ..sent.flow }, sent: sent.sent }
}

// The code.

/// Reads the clock with `std::time::Instant::now`. Nothing is claimed of the
/// result.
#[verifier::external_body]
fn now() -> Instant {
    Instant::now()
}

/// The length of a segment's data as a 32-bit number.
fn data_len(data: &[u8]) -> (n: u32)
    ensures
        n == wrapped_len(data@.len()),
{
    ((data.len() as u64) % 0x1_0000_0000u64) as u32
}

/// Appends `data[from..]` to `queue`.
fn enqueue(queue: &mut VecDeque<u8>, data: &[u8], from: usize)
    requires
        from <= data@.len(),
    ensures
        final(queue)@ == old(queue)@ + data@.subrange(from as int, data@.len() as int),
{
    let mut i: usize = from;
    while i < data.len()
        invariant
            from <= i <= data@.len(),
            queue@ == old(queue)@ + data@.subrange(from as int, i as int),
        decreases data@.len() - i,
    {
        queue.push_back(data[i]);
        i += 1;
        assert(queue@ =~= old(queue)@ + data@.subrange(from as int, i as int));
    }
}

impl flow {
    /// The byte count equals the number of bytes queued.
    pub open spec fn wf(&self) -> bool {
        self@.wf()
    }

    /// A flow for `quad` in `state` that has sent nothing and was created now.
    fn fresh(quad: Quad, state: State, recv: RecvSequenceSpace) -> (f: flow)
        ensures
            f@ == FlowView::fresh(quad, state, recv),
    {
        let iss: u32 = INITIAL_SEND_SEQ;
        let wnd: u16 = SEND_WINDOW;
        flow {
            quad: quad,
            state: state,
            send: SendSequenceSpace { una: iss, nxt: iss, wnd: wnd, up: false, wl1: 0, wl2: 0, iss: iss },
            recv: recv,
            ip: Ipv4Header {
                source: quad.dst.0,
                destination: quad.src.0,
                time_to_live: TIME_TO_LIVE,
                protocol: PROTOCOL_TCP,
                payload_len: 0,
            },
            tcp: TcpHeader {
                source_port: quad.dst.1,
                destination_port: quad.src.1,
                sequence_number: iss,
                acknowledgment_number: 0,
                syn: false,
                ack: false,
                fin: false,
                window_size: wnd,
                checksum: 0,
            },
            stats: Statistics { timer: now(), size: 0 },
            incoming: VecDeque::new(),
            unacked: VecDeque::new(),
        }
    }

    /// Passive open, for a segment with headers `iph` and `tcph` that reached a
    /// listening port. A SYN without ACK gives a flow in `SynRcvd` and one
    /// SYN|ACK on `nic`; anything else gives nothing.
    pub fn passive_three_way_handshake(nic: &mut Interface, iph: Ipv4Header, tcph: TcpHeader) -> (r:
        Option<flow>)
        ensures
            match passive_open(iph, tcph) {
                Some(step) => r.is_some() && r.unwrap()@ == step.flow && final(nic).queued() == old(
                    nic,
                ).queued() + step.sent,
                None => r.is_none() && final(nic).queued() == old(nic).queued(),
            },
            r.is_some() ==> r.unwrap().wf(),
            final(nic).ip == old(nic).ip,
    {
        if !tcph.syn || tcph.ack {
            // only a SYN opens a connection
            assert(old(nic).queued() + Seq::<Seq<u8>>::empty() =~= old(nic).queued());
            return None;
        }
        let quad = Quad::of(&iph, &tcph);
        let recv = RecvSequenceSpace {
            irs: tcph.sequence_number,
            nxt: tcph.sequence_number.wrapping_add(1),
            wnd: tcph.window_size,
            up: false,
        };
        let mut f = flow::fresh(quad, State::SynRcvd, recv);
        // start establishing the connection
        f.tcp.syn = true;
        f.tcp.ack = true;
        let seq: u32 = f.send.nxt;
        f.write(nic, seq, 0);
        Some(f)
    }

    /// Active open towards the remote end of `quad`: a flow in `SynSent` and
    /// one SYN on `nic`.
    pub fn active_three_way_handshake(nic: &mut Interface, quad: &Quad) -> (r: Option<flow>)
        ensures
            r.is_some(),
            r.unwrap()@ == active_open(*quad).flow,
            r.unwrap().wf(),
            final(nic).queued() == old(nic).queued() + active_open(*quad).sent,
            final(nic).ip == old(nic).ip,
    {
        let recv = RecvSequenceSpace { irs: 0, nxt: 0, wnd: 0, up: false };
        let mut f = flow::fresh(*quad, State::Closed, recv);
        // start establishing the connection
        f.tcp.syn = true;
        let seq: u32 = f.send.nxt;
        f.write(nic, seq, 0);
        f.state = State::SynSent;
        Some(f)
    }

    /// Emits one segment without payload: the template headers with sequence
    /// number `seq` and acknowledgment `recv.nxt`, behind the IPv4 header. A
    /// SYN or FIN flag on the template takes one sequence number and is
    /// cleared. `limit` bounds the payload, of which there is none. Returns
    /// the length of the datagram.
    pub fn write(&mut self, nic: &mut Interface, seq: u32, limit: usize) -> (n: usize)
        ensures
            final(self)@ == old(self)@.emit(seq).flow,
            final(self).send.nxt == old(self).send.nxt.wrapping_add(
                flags(old(self).tcp.syn, old(self).tcp.fin),
            ),
            final(self).stats.timer == old(self).stats.timer,
            final(nic).queued() == old(nic).queued() + old(self)@.emit(seq).sent,
            final(nic).ip == old(nic).ip,
            n == IPV4_HEADER_LEN + TCP_HEADER_LEN,
    {
        self.tcp.sequence_number = seq;
        self.tcp.acknowledgment_number = self.recv.nxt;
        let headers: usize = IPV4_HEADER_LEN + TCP_HEADER_LEN;
        let size: usize = if headers < MAX_DATAGRAM {
            headers
        } else {
            MAX_DATAGRAM
        };
        self.ip.payload_len = (size - IPV4_HEADER_LEN) as u16;

        let mut buf = ipv4_header_bytes(&self.ip);
        self.tcp.checksum = tcp_checksum(&self.tcp, &self.ip).unwrap();
        let mut tcp_header_buf = tcp_header_bytes(&self.tcp);
        buf.append(&mut tcp_header_buf);
        assert(buf@ =~= datagram(self.ip, self.tcp));

        if self.tcp.syn {
            self.send.nxt = self.send.nxt.wrapping_add(1);
            self.tcp.syn = false;
        }
        if self.tcp.fin {
            self.send.nxt = self.send.nxt.wrapping_add(1);
            self.tcp.fin = false;
        }
        let n = nic.send(buf.as_slice());
        assert(final(nic).queued() =~= old(nic).queued() + old(self)@.emit(seq).sent);
        n
    }

    /// Takes in the data of a segment, for the states that receive data. The
    /// bytes from `recv.nxt` on are queued and counted, and `recv.nxt` moves
    /// behind the segment, one further for a FIN. A segment that ends one
    /// short of `recv.nxt` is a repeated FIN; its data is queued whole.
    pub fn data_from_segment(&mut self, data: &[u8], tcph: &TcpHeader)
        requires
            old(self).wf(),
            absorbable(old(self).recv.nxt, tcph.sequence_number, data@.len()),
        ensures
            final(self)@ == old(self)@.absorb(tcph.sequence_number, tcph.fin, data@),
            final(self).stats.timer == old(self).stats.timer,
            final(self).wf(),
    {
        let seqn: u32 = tcph.sequence_number;
        let mut unread_data_at: usize = self.recv.nxt.wrapping_sub(seqn) as usize;
        if unread_data_at > data.len() {
            // a repeated FIN: the next byte expected lies behind the segment,
            // and the FIN is not in the data
            unread_data_at = 0;
        }
        enqueue(&mut self.incoming, data, unread_data_at);
        assert(self.incoming.len() <= usize::MAX);
        self.stats.size = self.stats.size + (data.len() - unread_data_at) as u64;
        let fin: u32 = if tcph.fin {
            1
        } else {
            0
        };
        self.recv.nxt = seqn.wrapping_add(data_len(data)).wrapping_add(fin);
    }

    /// The segment acceptability test against this flow's receive window, for
    /// a segment that occupies `slen` sequence numbers starting at `seqn`.
    pub fn segment_check(&self, slen: u32, seqn: u32) -> (okay: bool)
        ensures
            okay == segment_acceptable(self.recv, slen, seqn),
    {
        let wend = self.recv.nxt.wrapping_add(self.recv.wnd as u32);
        let before = self.recv.nxt.wrapping_sub(1);
        if slen == 0 {
            // a zero-length segment has separate rules for acceptance
            if self.recv.wnd == 0 {
                seqn == self.recv.nxt
            } else {
                is_between_wrapped(before, seqn, wend)
            }
        } else {
            if self.recv.wnd == 0 {
                false
            } else {
                is_between_wrapped(before, seqn, wend) || is_between_wrapped(
                    before,
                    seqn.wrapping_add(slen - 1),
                    wend,
                )
            }
        }
    }

    /// Whether `ackn` acknowledges something sent and not yet acknowledged.
    pub fn ack_check(&self, ackn: u32) -> (okay: bool)
        ensures
            okay == ack_acceptable(self.send, ackn),
    {
        is_between_wrapped(self.send.una.wrapping_sub(1), ackn, self.send.nxt.wrapping_add(1))
    }

    /// Whether `data_from_segment` can take in `len` data bytes at `seqn`.
    pub fn absorb_check(&self, seqn: u32, len: usize) -> (okay: bool)
        ensures
            okay == absorbable(self.recv.nxt, seqn, len as nat),
    {
        let unread_data_at: u32 = self.recv.nxt.wrapping_sub(seqn);
        unread_data_at == 0 || (unread_data_at - 1) as usize <= len
    }

    /// The handler of `SynRcvd`.
    pub fn SynRcvd_handler(&mut self, nic: &mut Interface, tcph: TcpHeader, data: &[u8])
        requires
            old(self).wf(),
        ensures
            final(self)@ == old(self)@.on_syn_rcvd(tcph, data@).flow,
            final(self).stats.timer == old(self).stats.timer,
            final(self).wf(),
            final(nic).queued() == old(nic).queued() + old(self)@.on_syn_rcvd(tcph, data@).sent,
            final(nic).ip == old(nic).ip,
    {
        let seqn: u32 = tcph.sequence_number;
        let ackn: u32 = tcph.acknowledgment_number;
        // a dropped segment leaves the queue of datagrams as it was
        assert(old(nic).queued() + Seq::<Seq<u8>>::empty() =~= old(nic).queued());

        if !tcph.ack {
            // only an acknowledgment completes the handshake
            return ;
        }
        // the segment length is the data length plus one
        let slen: u32 = data_len(data).wrapping_add(1);
        if !self.segment_check(slen, seqn) {
            return ;
        }
        // whether the segment acknowledges the SYN
        if !self.ack_check(ackn) {
            return ;
        }
        // whether the data joins what was received before
        if !self.absorb_check(seqn, data.len()) {
            return ;
        }
        // at least one byte is acknowledged, and only one was sent: the SYN
        self.state = State::Estab;
        self.data_from_segment(data, &tcph);

        // no need to acknowledge if there is no data
        if data.len() != 0 {
            let seq: u32 = self.send.nxt;
            self.write(nic, seq, 0);
        }
    }

    /// The handler of `Estab`.
    pub fn Estab_handler(&mut self, nic: &mut Interface, tcph: TcpHeader, data: &[u8])
        requires
            old(self).wf(),
        ensures
            final(self)@ == old(self)@.on_estab(tcph, data@).flow,
            final(self).stats.timer == old(self).stats.timer,
            final(self).wf(),
            final(nic).queued() == old(nic).queued() + old(self)@.on_estab(tcph, data@).sent,
            final(nic).ip == old(nic).ip,
    {
        let seqn: u32 = tcph.sequence_number;
        // a dropped segment leaves the queue of datagrams as it was
        assert(old(nic).queued() + Seq::<Seq<u8>>::empty() =~= old(nic).queued());
        // the segment length is the data length, plus one for a SYN and one
        // for a FIN
        let mut slen: u32 = data_len(data);
        if tcph.syn {
            slen = slen.wrapping_add(1);
        }
        if tcph.fin {
            slen = slen.wrapping_add(1);
        }
        if !self.segment_check(slen, seqn) {
            return ;
        }
        // whether the data joins what was received before
        if !self.absorb_check(seqn, data.len()) {
            return ;
        }
        self.data_from_segment(data, &tcph);
        let seq: u32 = self.send.nxt;
        self.write(nic, seq, 0);
        if tcph.fin {
            self.state = State::CloseWait;
            // send a FIN at once
            self.tcp.fin = true;
            let seq: u32 = self.send.nxt;
            self.write(nic, seq, 0);
            self.state = State::LastAck;
            assert(final(nic).queued() =~= old(nic).queued() + old(self)@.on_estab(tcph, data@).sent);
        }
    }

    /// The handler of `FinWait1`: nothing happens.
    pub fn FinWait1_handler(&mut self)
        ensures
            *final(self) == *old(self),
    {
    }

    /// The handler of `FinWait2`: nothing happens.
    pub fn FinWait2_handler(&mut self)
        ensures
            *final(self) == *old(self),
    {
    }

    /// The handler of `TimeWait`: nothing happens.
    pub fn TimeWait_handler(&mut self)
        ensures
            *final(self) == *old(self),
    {
    }

    /// The handler of `CloseWait`: nothing happens.
    pub fn CloseWait_handler(&mut self)
        ensures
            *final(self) == *old(self),
    {
    }

    /// The handler of `LastAck`.
    pub fn LastAck_handler(&mut self, nic: &mut Interface, tcph: TcpHeader)
        ensures
            final(self)@ == old(self)@.on_last_ack(tcph),
            final(self).stats.timer == old(self).stats.timer,
            *final(nic) == *old(nic),
    {
        let seqn: u32 = tcph.sequence_number;
        let ackn: u32 = tcph.acknowledgment_number;

        if !tcph.ack {
            // only an acknowledgment closes the connection
            return ;
        }
        // the segment length is one: the data length plus one
        if !self.segment_check(1, seqn) {
            return ;
        }
        // whether the segment acknowledges the FIN
        if self.ack_check(ackn) {
            self.state = State::Closed;
        }
    }

    /// The handler of `Closed`: nothing happens.
    pub fn Closed_handler(&mut self)
        ensures
            *final(self) == *old(self),
    {
    }

    /// The handler of `SynSent`.
    pub fn SynSent_handler(&mut self, nic: &mut Interface, tcph: TcpHeader)
        ensures
            final(self)@ == old(self)@.on_syn_sent(tcph).flow,
            final(self).stats.timer == old(self).stats.timer,
            final(nic).queued() == old(nic).queued() + old(self)@.on_syn_sent(tcph).sent,
            final(nic).ip == old(nic).ip,
    {
        let seqn: u32 = tcph.sequence_number;
        let ackn: u32 = tcph.acknowledgment_number;
        // a dropped segment leaves the queue of datagrams as it was
        assert(old(nic).queued() + Seq::<Seq<u8>>::empty() =~= old(nic).queued());
        if !tcph.syn || !tcph.ack {
            // only the peer's SYN with the acknowledgment of ours is expected
            return ;
        }
        self.recv.nxt = seqn;
        // the segment length is zero
        proof {
            lemma_next_expected_acceptable(self.recv);
        }
        if !self.segment_check(0, seqn) {
            return ;
        }
        // whether the segment acknowledges the SYN
        if !self.ack_check(ackn) {
            return ;
        }
        // at least one byte is acknowledged, and only one was sent: the SYN
        self.state = State::Estab;
        // acknowledge to complete the handshake
        self.tcp.ack = true;
        // the receive space starts behind the peer's SYN
        self.recv.irs = seqn;
        self.recv.nxt = seqn.wrapping_add(1);
        self.recv.wnd = tcph.window_size;
        let seq: u32 = self.send.nxt;
        self.write(nic, seq, 0);
    }
}

// What holds of the specification.

/// The acceptability test in terms of the receive window, which is the
/// `recv.wnd` numbers from `recv.nxt` on: an empty segment must start in the
/// window, or at `recv.nxt` when the window is empty; any other segment must
/// start or end in it.
pub proof fn lemma_acceptable_window(recv: RecvSequenceSpace, slen: u32, seqn: u32)
    ensures
        segment_acceptable(recv, slen, seqn) <==> if slen == 0 {
            if recv.wnd == 0 {
                seqn == recv.nxt
            } else {
                seqn.wrapping_sub(recv.nxt) < recv.wnd
            }
        } else {
            recv.wnd > 0 && (seqn.wrapping_sub(recv.nxt) < recv.wnd || seqn.wrapping_add(
                (slen - 1) as u32,
            ).wrapping_sub(recv.nxt) < recv.wnd)
        },
{
    if recv.wnd > 0 {
        lemma_window(recv.nxt, recv.wnd, seqn);
        if slen > 0 {
            lemma_window(recv.nxt, recv.wnd, seqn.wrapping_add((slen - 1) as u32));
        }
    }
}

/// A segment without length that starts at the next number expected is
/// acceptable, whatever the window.
pub proof fn lemma_next_expected_acceptable(recv: RecvSequenceSpace)
    ensures
        segment_acceptable(recv, 0, recv.nxt),
{
}

/// Taking in an acceptable segment of `len` data bytes, tested with the
/// length `len + extra`, does not move `recv.nxt` backward. Of the `extra`
/// numbers at most one is not a FIN.
proof fn lemma_absorb_forward(recv: RecvSequenceSpace, seqn: u32, len: nat, extra: u32, fin: bool)
    requires
        len < HALF_SPACE,
        extra <= 1 + (if fin { 1int } else { 0 }),
        segment_acceptable(recv, wrapped_len(len).wrapping_add(extra), seqn),
        absorbable(recv.nxt, seqn, len),
    ensures
        !wrapping_lt(
            seqn.wrapping_add(wrapped_len(len)).wrapping_add(if fin { 1u32 } else { 0u32 }),
            recv.nxt,
        ),
{
    lemma_acceptable_window(recv, wrapped_len(len).wrapping_add(extra), seqn);
}

impl FlowView {
    /// Handling a segment leaves a flow under its quad, leaves its byte
    /// count right, and leaves its send space settled.
    pub proof fn lemma_on_segment_keeps(f: FlowView, h: TcpHeader, data: Seq<u8>)
        ensures
            f.on_segment(h, data).flow.quad == f.quad,
            f.wf() ==> f.on_segment(h, data).flow.wf(),
            f.settled() ==> f.on_segment(h, data).flow.settled(),
    {
    }

    /// In a settled flow the oldest unacknowledged sequence number does not
    /// come after the next one to send.
    pub proof fn lemma_settled_in_order(f: FlowView)
        requires
            f.settled(),
        ensures
            !wrapping_lt(f.send.nxt, f.send.una),
    {
    }

    /// Emitting a segment that carries a SYN or a FIN, but not both, takes
    /// exactly one sequence number; emitting one that carries neither takes
    /// none. Either way no SYN or FIN is left on the template.
    pub proof fn lemma_emit_sequence_use(f: FlowView, seq: u32)
        ensures
            f.tcp.syn != f.tcp.fin ==> f.emit(seq).flow.send.nxt == f.send.nxt.wrapping_add(1),
            !f.tcp.syn && !f.tcp.fin ==> f.emit(seq).flow.send.nxt == f.send.nxt,
            !f.emit(seq).flow.tcp.syn && !f.emit(seq).flow.tcp.fin,
    {
    }

    /// After a segment is taken in, `recv.nxt` is the segment's sequence
    /// number plus the length of its data, plus one for a FIN, modulo 2^32.
    pub proof fn lemma_absorb_next(f: FlowView, seqn: u32, fin: bool, data: Seq<u8>)
        ensures
            f.absorb(seqn, fin, data).recv.nxt == (seqn + data.len() + (if fin { 1int } else { 0 }))
                % 0x1_0000_0000,
    {
    }

    /// A FIN without data that arrives again, after `recv.nxt` has moved
    /// behind it, can be taken in and changes nothing: the queue and
    /// `recv.nxt` stay, so the acknowledgment that follows is the one that
    /// followed before.
    pub proof fn lemma_repeated_fin(f: FlowView, seqn: u32, seq: u32)
        requires
            f.recv.nxt == seqn.wrapping_add(1),
        ensures
            absorbable(f.recv.nxt, seqn, 0),
            f.absorb(seqn, true, Seq::empty()) == f,
            f.absorb(seqn, true, Seq::empty()).emit(seq) == f.emit(seq),
            f.emit(seq).flow.tcp.acknowledgment_number == f.recv.nxt,
    {
        let again = f.absorb(seqn, true, Seq::empty());
        assert(again.incoming =~= f.incoming);
    }

    /// No handler takes such a segment in, though: a segment without data
    /// and without SYN that ends one short of `recv.nxt` lies before the
    /// window, whether it carries a FIN or not, so a flow that knows the
    /// peer's sequence numbers drops it and answers nothing.
    pub proof fn lemma_repeated_fin_dropped(f: FlowView, h: TcpHeader)
        requires
            f.state != State::SynSent,
            f.recv.nxt == h.sequence_number.wrapping_add(1),
            !h.syn,
        ensures
            f.on_segment(h, Seq::empty()) == f.idle(),
    {
        lemma_acceptable_window(f.recv, 0, h.sequence_number);
        lemma_acceptable_window(f.recv, 1, h.sequence_number);
    }

    /// Once the peer's first sequence number is known, the next sequence
    /// number expected never moves backward: no segment of less than 2^31
    /// bytes, handled in any state but `SynSent`, leaves `recv.nxt` before
    /// where it was.
    pub proof fn lemma_recv_next_forward(f: FlowView, h: TcpHeader, data: Seq<u8>)
        requires
            f.state != State::SynSent,
            data.len() < HALF_SPACE,
        ensures
            !wrapping_lt(f.on_segment(h, data).flow.recv.nxt, f.recv.nxt),
    {
        let after = f.on_segment(h, data).flow.recv.nxt;
        if f.state == State::SynRcvd && after != f.recv.nxt {
            lemma_absorb_forward(f.recv, h.sequence_number, data.len(), 1, h.fin);
        } else if f.state == State::Estab && after != f.recv.nxt {
            lemma_absorb_forward(
                f.recv,
                h.sequence_number,
                data.len(),
                flags(h.syn, h.fin),
                h.fin,
            );
        }
    }
}

/// A passive open takes one sequence number, for the SYN. The flow it opens
/// stands under the quad of the segment that opened it, counts its bytes
/// right, and has a settled send space.
pub proof fn lemma_passive_open(ip: Ipv4Header, h: TcpHeader)
    ensures
        passive_open(ip, h) matches Some(step) ==> {
            &&& step.flow.send.nxt == INITIAL_SEND_SEQ.wrapping_add(1)
            &&& step.flow.quad == quad_of(ip, h)
            &&& step.flow.wf()
            &&& step.flow.settled()
        },
{
}

/// An active open takes one sequence number, for the SYN. The flow it opens
/// stands under the quad it was opened for, counts its bytes right, and has a
/// settled send space.
pub proof fn lemma_active_open(quad: Quad)
    ensures
        active_open(quad).flow.send.nxt == INITIAL_SEND_SEQ.wrapping_add(1),
        active_open(quad).flow.quad == quad,
        active_open(quad).flow.wf(),
        active_open(quad).flow.settled(),
{
}

} // verus!
