//! The engine: the flow table, the listening ports, and the interface they
//! share.
//!
//! [`tcp::action`] takes one frame from the wire and [`tcp::control`] one
//! command from the user. Both are specified as functions on [`EngineView`],
//! the mathematical picture of the engine.

pub mod flow;
pub mod seq;

use crate::codec::{
    datagram, ipv4_header_checksum, lemma_ipv4_round_trip, lemma_tcp_round_trip, parse_segment,
    read_segment, tcp_wire, Ipv4Header, TcpHeader, IPV4_MAX_PAYLOAD, PROTOCOL_TCP,
};
use crate::nic::Interface;
use crate::tcp::flow::{
    active_open, lemma_active_open, lemma_passive_open, passive_open, quad_of, FlowView, Quad,
    State,
};
use std::collections::{HashMap, HashSet};
use std::time::Instant;
use vstd::prelude::*;
use vstd::relations::injective_on;
use vstd::set_lib::lemma_map_size;
use vstd::slice::slice_subrange;

verus! {

/// The engine. It owns every flow, filed under its quad, the set of local
/// ports that accept connections, and the interface.
pub struct tcp {
    flow_table: HashMap<u128, flow::flow>,
    listening: HashSet<u16>,
    nic: Interface,
}

/// A command from the user of the engine.
pub enum control_message {
    /// Accept connections on this local port.
    Bind(u16),
    /// Connect from this local port to this remote address and port.
    Connect(u16, u32, u16),
    /// Reserved. The engine has no read interface.
    Read,
    /// Reserved. The engine has no write interface.
    Write,
}

/// The mathematical picture of the engine.
pub struct EngineView {
    /// The flows, each under its quad.
    pub flows: Map<Quad, FlowView>,
    /// The local ports that accept connections.
    pub listening: Set<u16>,
    /// The local address.
    pub ip: u32,
    /// The datagrams that wait on the interface for transmission, oldest
    /// first.
    pub queued: Seq<Seq<u8>>,
}

/// Something that happens to the engine: a frame arrives from the wire, or a
/// command from the user.
pub enum Event {
    Frame(Seq<u8>),
    Command(control_message),
}

impl EngineView {
    /// The engine after `flow` was filed under `quad` and `sent` was queued
    /// on the interface.
    pub open spec fn put(self, quad: Quad, flow: FlowView, sent: Seq<Seq<u8>>) -> EngineView {
        EngineView { flows: self.flows.insert(quad, flow), queued: self.queued + sent, ..self }
    }

    /// A segment with headers `ip` and `h` and payload `data` arrives. A
    /// known quad's flow handles it. An unknown quad opens a flow only when
    /// the local port is listening and the segment is a SYN without ACK.
    /// Everything else is dropped.
    pub open spec fn deliver(self, ip: Ipv4Header, h: TcpHeader, data: Seq<u8>) -> EngineView {
        let quad = quad_of(ip, h);
        if self.flows.contains_key(quad) {
            let step = self.flows[quad].on_segment(h, data);
            self.put(quad, step.flow, step.sent)
        } else if self.listening.contains(h.destination_port) {
            match passive_open(ip, h) {
                Some(step) => self.put(quad, step.flow, step.sent),
                None => self,
            }
        } else {
            self
        }
    }

    /// A frame arrives. It is dropped unless it is a TCP segment over IPv4;
    /// what follows its two headers is the segment's data.
    pub open spec fn receive(self, frame: Seq<u8>) -> EngineView {
        match parse_segment(frame) {
            Ok((ip, h, data_at)) => self.deliver(
                ip,
                h,
                frame.subrange(data_at as int, frame.len() as int),
            ),
            Err(_) => self,
        }
    }

    /// A command is carried out. `Bind` makes a port listen. `Connect` opens
    /// a flow from the local address, unless its quad has one already.
    pub open spec fn command(self, message: control_message) -> EngineView {
        match message {
            control_message::Bind(port) => EngineView {
                listening: self.listening.insert(port),
                ..self
            },
            control_message::Connect(local_port, remote_ip, remote_port) => {
                let quad = Quad { src: (remote_ip, remote_port), dst: (self.ip, local_port) };
                if self.flows.contains_key(quad) {
                    self
                } else {
                    let step = active_open(quad);
                    self.put(quad, step.flow, step.sent)
                }
            },
            _ => self,
        }
    }

    /// Every flow is filed under its own quad, counts its bytes right, and
    /// has a settled send space.
    pub open spec fn wf(self) -> bool {
        forall|q: Quad| #[trigger]
            self.flows.contains_key(q) ==> self.flows[q].quad == q && self.flows[q].wf()
                && self.flows[q].settled()
    }

    /// No two flows share a quad.
    pub open spec fn quads_unique(self) -> bool {
        forall|p: Quad, q: Quad|
            self.flows.contains_key(p) && self.flows.contains_key(q) && p != q ==> self.flows[p].quad
                != self.flows[q].quad
    }

    /// The engine after one event.
    pub open spec fn handle(self, event: Event) -> EngineView {
        match event {
            Event::Frame(frame) => self.receive(frame),
            Event::Command(message) => self.command(message),
        }
    }

    /// The engine after the events of `events` happened one by one.
    pub open spec fn run(self, events: Seq<Event>) -> EngineView
        decreases events.len(),
    {
        if events.len() == 0 {
            self
        } else {
            self.run(events.drop_last()).handle(events.last())
        }
    }

    /// A segment leaves a well-formed engine well formed.
    pub proof fn lemma_deliver_wf(self, ip: Ipv4Header, h: TcpHeader, data: Seq<u8>)
        requires
            self.wf(),
        ensures
            self.deliver(ip, h, data).wf(),
    {
        let quad = quad_of(ip, h);
        lemma_passive_open(ip, h);
        if self.flows.contains_key(quad) {
            FlowView::lemma_on_segment_keeps(self.flows[quad], h, data);
        }
    }

    /// A frame leaves a well-formed engine well formed.
    pub proof fn lemma_receive_wf(self, frame: Seq<u8>)
        requires
            self.wf(),
        ensures
            self.receive(frame).wf(),
    {
        match parse_segment(frame) {
            Ok((ip, h, data_at)) => {
                self.lemma_deliver_wf(ip, h, frame.subrange(data_at as int, frame.len() as int));
            },
            Err(_) => {},
        }
    }

    /// A command leaves a well-formed engine well formed.
    pub proof fn lemma_command_wf(self, message: control_message)
        requires
            self.wf(),
        ensures
            self.command(message).wf(),
    {
        match message {
            control_message::Connect(local_port, remote_ip, remote_port) => {
                let quad = Quad { src: (remote_ip, remote_port), dst: (self.ip, local_port) };
                lemma_active_open(quad);
            },
            _ => {},
        }
    }

    /// Whatever frames and commands arrive, in whatever order, the engine
    /// stays well formed, and no two flows of the table ever share a quad.
    pub proof fn lemma_quads_stay_unique(self, events: Seq<Event>)
        requires
            self.wf(),
        ensures
            self.run(events).wf(),
            self.run(events).quads_unique(),
        decreases events.len(),
    {
        if events.len() != 0 {
            let before = self.run(events.drop_last());
            self.lemma_quads_stay_unique(events.drop_last());
            match events.last() {
                Event::Frame(frame) => before.lemma_receive_wf(frame),
                Event::Command(message) => before.lemma_command_wf(message),
            }
        }
    }

    /// What a flow emits, an engine reads as it was meant: the datagram that
    /// carries `h` under `ip` arrives as the segment `h` from `ip`, without
    /// data.
    pub proof fn lemma_receive_datagram(self, ip: Ipv4Header, h: TcpHeader)
        requires
            ip.protocol == PROTOCOL_TCP,
            ip.payload_len <= IPV4_MAX_PAYLOAD,
        ensures
            self.receive(datagram(ip, h)) == self.deliver(ip, h, Seq::empty()),
    {
        let checksum = ipv4_header_checksum(
            ip.source,
            ip.destination,
            ip.time_to_live,
            ip.protocol,
            ip.payload_len,
        );
        let frame = datagram(ip, h);
        lemma_ipv4_round_trip(ip, checksum, tcp_wire(h));
        lemma_tcp_round_trip(h, Seq::empty());
        assert(frame.subrange(20, frame.len() as int) =~= tcp_wire(h) + Seq::<u8>::empty());
        assert(frame.subrange(40, frame.len() as int) =~= Seq::<u8>::empty());
    }

    /// A segment for a local port that is not listening opens no flow: the
    /// table holds the same quads before and after.
    pub proof fn lemma_closed_port_opens_nothing(self, ip: Ipv4Header, h: TcpHeader, data: Seq<u8>)
        requires
            !self.listening.contains(h.destination_port),
        ensures
            self.deliver(ip, h, data).flows.dom() == self.flows.dom(),
    {
        assert(self.deliver(ip, h, data).flows.dom() =~= self.flows.dom());
    }

    /// A command adds at most one flow: the one that `Connect` asks for, from
    /// the local address.
    pub proof fn lemma_new_flows_connect(self, message: control_message)
        ensures
            forall|q: Quad|
                self.command(message).flows.contains_key(q) && !self.flows.contains_key(q) ==> (
                message matches control_message::Connect(local_port, remote_ip, remote_port) && q
                    == Quad { src: (remote_ip, remote_port), dst: (self.ip, local_port) }),
            self.command(message).ip == self.ip,
    {
    }

    /// A frame adds at most the flow of a quad whose local port is listening,
    /// and changes neither the listening ports nor the local address.
    pub proof fn lemma_new_flows_listen(self, frame: Seq<u8>)
        ensures
            forall|q: Quad|
                self.receive(frame).flows.contains_key(q) && !self.flows.contains_key(q)
                    ==> self.listening.contains(q.dst.1),
            self.receive(frame).listening == self.listening,
            self.receive(frame).ip == self.ip,
    {
    }
}

impl View for tcp {
    type V = EngineView;

    closed spec fn view(&self) -> EngineView {
        EngineView {
            flows: Map::new(
                |q: Quad| self.flow_table@.contains_key(q.spec_key()),
                |q: Quad| self.flow_table@[q.spec_key()]@,
            ),
            listening: self.listening@,
            ip: self.nic.ip,
            queued: self.nic.queued(),
        }
    }
}

impl tcp {
    /// Every flow is filed under the key of its own quad, counts its bytes
    /// right, and has a settled send space.
    pub closed spec fn wf(&self) -> bool {
        forall|k: u128| #[trigger]
            self.flow_table@.contains_key(k) ==> self.flow_table@[k].quad.spec_key() == k
                && self.flow_table@[k].wf() && self.flow_table@[k]@.settled()
    }

    /// When the flow of `quad` was created.
    pub closed spec fn started(&self, quad: Quad) -> Instant {
        self.flow_table@[quad.spec_key()].stats.timer
    }

    /// Every flow of `before` is still there, created when it was.
    pub open spec fn keeps_flows_of(&self, before: &tcp) -> bool {
        forall|q: Quad| #[trigger]
            before@.flows.contains_key(q) ==> self@.flows.contains_key(q) && self.started(q)
                == before.started(q)
    }

    /// The picture of a well-formed engine is well formed.
    pub proof fn lemma_view(&self)
        requires
            self.wf(),
        ensures
            self@.wf(),
    {
        assert forall|q: Quad| #[trigger] self@.flows.contains_key(q) implies self@.flows[q].quad
            == q by {
            Quad::lemma_key_injective(self.flow_table@[q.spec_key()].quad, q);
        }
    }

    /// An engine at local address `ip` with no flow, no listening port and
    /// nothing sent.
    pub fn new(ip: u32) -> (engine: Self)
        ensures
            engine.wf(),
            engine@ == (EngineView {
                flows: Map::empty(),
                listening: Set::empty(),
                ip: ip,
                queued: Seq::empty(),
            }),
    {
        let engine = tcp { flow_table: HashMap::new(), listening: HashSet::new(), nic: Interface::new(ip) };
        assert(engine@.flows =~= Map::empty());
        engine
    }

    /// The flow of `quad`, if the table holds one. In a well-formed engine it
    /// is a flow with that quad.
    pub fn flow(&self, quad: &Quad) -> (r: Option<&flow::flow>)
        ensures
            match r {
                Some(f) => self@.flows.contains_key(*quad) && self@.flows[*quad] == f@
                    && f.stats.timer == self.started(*quad) && (self.wf() ==> f.quad == *quad),
                None => !self@.flows.contains_key(*quad),
            },
    {
        proof {
            Quad::lemma_key_injective(self.flow_table@[quad.spec_key()].quad, *quad);
        }
        let k = quad.key();
        self.flow_table.get(&k)
    }

    /// The number of flows in the table.
    pub fn flow_count(&self) -> (n: usize)
        requires
            self.wf(),
        ensures
            n == self@.flows.dom().len(),
    {
        proof {
            let keys = self.flow_table@.dom();
            let quad_at = |k: u128| self.flow_table@[k].quad;
            assert forall|q: Quad| self@.flows.dom().contains(q) implies keys.map(quad_at).contains(
                q,
            ) by {
                Quad::lemma_key_injective(self.flow_table@[q.spec_key()].quad, q);
                assert(keys.contains(q.spec_key()) && quad_at(q.spec_key()) == q);
            }
            assert(keys.map(quad_at) =~= self@.flows.dom());
            assert(injective_on(quad_at, keys));
            lemma_map_size(keys, self@.flows.dom(), quad_at);
        }
        self.flow_table.len()
    }

    /// Whether connections to local port `port` are accepted.
    pub fn is_listening(&self, port: u16) -> (r: bool)
        ensures
            r == self@.listening.contains(port),
    {
        self.listening.contains(&port)
    }

    /// The interface, with the local address and the datagrams that wait for
    /// transmission.
    pub fn nic(&self) -> (nic: &Interface)
        ensures
            nic.ip == self@.ip,
            nic.queued() == self@.queued,
    {
        &self.nic
    }

    /// Hands out the datagrams that wait for transmission, oldest first, and
    /// leaves none waiting.
    pub fn drain(&mut self) -> (out: Vec<Vec<u8>>)
        requires
            old(self).wf(),
        ensures
            final(self).wf(),
            final(self)@ == (EngineView { queued: Seq::empty(), ..old(self)@ }),
            final(self).keeps_flows_of(old(self)),
            out@.map_values(|d: Vec<u8>| d@) == old(self)@.queued,
    {
        let mut out: Vec<Vec<u8>> = Vec::new();
        std::mem::swap(&mut out, &mut self.nic.outbox);
        assert(self.nic.queued() =~= Seq::<Seq<u8>>::empty());
        assert(self@.flows =~= old(self)@.flows);
        out
    }

    /// Files `f`, which handled something and emitted `sent`, under the key of
    /// `quad`.
    fn file(&mut self, Ghost(before): Ghost<EngineView>, quad: Quad, f: flow::flow, Ghost(sent): Ghost<Seq<Seq<u8>>>)
        requires
            f.quad == quad,
            f.wf(),
            f@.settled(),
            forall|k: u128| #[trigger]
                old(self).flow_table@.contains_key(k) && k != quad.spec_key() ==> old(
                    self,
                ).flow_table@[k].quad.spec_key() == k && old(self).flow_table@[k].wf() && old(
                    self,
                ).flow_table@[k]@.settled(),
            forall|q: Quad|
                q != quad ==> (before.flows.contains_key(q) <==> old(self).flow_table@.contains_key(
                    q.spec_key(),
                )),
            forall|q: Quad|
                q != quad && before.flows.contains_key(q) ==> before.flows[q] == old(
                    self,
                ).flow_table@[q.spec_key()]@,
            before.listening == old(self).listening@,
            before.ip == old(self).nic.ip,
            old(self).nic.queued() == before.queued + sent,
        ensures
            final(self).wf(),
            final(self)@ == before.put(quad, f@, sent),
            final(self).started(quad) == f.stats.timer,
            forall|q: Quad| q != quad ==> final(self).started(q) == old(self).started(q),
    {
        let k = quad.key();
        self.flow_table.insert(k, f);
        proof {
            assert forall|q: Quad| q != quad implies q.spec_key() != k by {
                Quad::lemma_key_injective(q, quad);
            }
            assert(self@.flows =~= before.put(quad, f@, sent).flows);
        }
    }

    /// Hands a segment to the flow of its quad, or to the passive open.
    /// `iph` and `tcph` are the segment's headers and `data` its payload.
    pub fn dispatch(&mut self, iph: Ipv4Header, tcph: TcpHeader, data: &[u8])
        requires
            old(self).wf(),
        ensures
            final(self).wf(),
            final(self)@ == old(self)@.deliver(iph, tcph, data@),
            final(self).keeps_flows_of(old(self)),
    {
        let q = Quad::of(&iph, &tcph);
        let k = q.key();
        let ghost before = self@;
        proof {
            assert forall|other: Quad| other != q implies other.spec_key() != k by {
                Quad::lemma_key_injective(other, q);
            }
        }
        match self.flow_table.remove(&k) {
            Some(mut f) => {
                // a segment for a known quad
                proof {
                    Quad::lemma_key_injective(f.quad, q);
                }
                let ghost was = f@;
                match f.state {
                    State::SynRcvd => {
                        f.SynRcvd_handler(&mut self.nic, tcph, data);
                    },
                    State::Estab => {
                        f.Estab_handler(&mut self.nic, tcph, data);
                    },
                    State::CloseWait => {
                        f.CloseWait_handler();
                    },
                    State::LastAck => {
                        f.LastAck_handler(&mut self.nic, tcph);
                    },
                    State::TimeWait => {
                        f.TimeWait_handler();
                    },
                    State::FinWait1 => {
                        f.FinWait1_handler();
                    },
                    State::FinWait2 => {
                        f.FinWait2_handler();
                    },
                    State::Closed => {
                        f.Closed_handler();
                    },
                    State::SynSent => {
                        f.SynSent_handler(&mut self.nic, tcph);
                    },
                }
                proof {
                    assert(f@ == was.on_segment(tcph, data@).flow);
                    assert(before.queued + Seq::<Seq<u8>>::empty() =~= before.queued);
                    FlowView::lemma_on_segment_keeps(was, tcph, data@);
                }
                self.file(Ghost(before), q, f, Ghost(was.on_segment(tcph, data@).sent));
            },
            None => {
                // a segment for an unknown quad
                assert(self@.flows =~= before.flows);
                proof {
                    lemma_passive_open(iph, tcph);
                }
                if self.listening.contains(&q.dst.1) {
                    if let Some(new_f) = flow::flow::passive_three_way_handshake(&mut self.nic, iph, tcph) {
                        self.file(Ghost(before), q, new_f, Ghost(passive_open(iph, tcph).unwrap().sent));
                    }
                }
            },
        }
    }

    /// Takes the first `nbytes` bytes of `buf` as one frame from the wire.
    /// A frame that is no readable TCP segment over IPv4 is dropped.
    pub fn action(&mut self, buf: &[u8], nbytes: usize)
        requires
            old(self).wf(),
            nbytes <= buf@.len(),
        ensures
            final(self).wf(),
            final(self)@ == old(self)@.receive(buf@.subrange(0, nbytes as int)),
            final(self).keeps_flows_of(old(self)),
    {
        let frame = slice_subrange(buf, 0, nbytes);
        match read_segment(frame) {
            Ok((iph, tcph, idata)) => {
                self.dispatch(iph, tcph, slice_subrange(frame, idata, nbytes));
            },
            Err(_) => {
                // not a TCP segment
            },
        }
    }

    /// Carries out a command. `Read` and `Write` are reserved and must not be
    /// given.
    pub fn control(&mut self, message: control_message)
        requires
            old(self).wf(),
            message is Bind || message is Connect,
        ensures
            final(self).wf(),
            final(self)@ == old(self)@.command(message),
            final(self).keeps_flows_of(old(self)),
    {
        let ghost before = self@;
        match message {
            control_message::Bind(port) => {
                self.listening.insert(port);
                assert(self@.flows =~= before.flows);
            },
            control_message::Connect(src_port, dst_ip, dst_port) => {
                let q = Quad { dst: (self.nic.ip, src_port), src: (dst_ip, dst_port) };
                let k = q.key();
                if self.flow_table.contains_key(&k) {
                    // the flow exists already
                } else {
                    // create a flow
                    if let Some(new_f) = flow::flow::active_three_way_handshake(&mut self.nic, &q) {
                        proof {
                            assert forall|other: Quad| other != q implies other.spec_key() != k by {
                                Quad::lemma_key_injective(other, q);
                            }
                            lemma_active_open(q);
                        }
                        self.file(Ghost(before), q, new_f, Ghost(active_open(q).sent));
                    }
                }
            },
            control_message::Read => {},
            control_message::Write => {},
        }
    }
}

} // verus!
