use vstd::prelude::*;

use crate::channel::{lemma_index_of_unique, spec_index_of, ChannelRegistry, ChannelSpec};
use crate::errors::{ChannelError, NetError, TransportError};
use crate::framing::{decode_frame, encode_frame, spec_decode, spec_encode};
use crate::link::{eligible, has_datagram, link_eligible, Link, TransportKind};

verus! {

/// One frame the session routed to one link; the driver loop transmits
/// it over that link's socket.
pub struct OutboundFrame {
    /// The link the frame is addressed to.
    pub link_id: u64,
    /// The encoded wire envelope.
    pub bytes: Vec<u8>,
}

/// The listen addresses a server session offers, one per transport; at
/// least one must be set. Omitted transports are simply not offered.
pub struct ListenConfig {
    /// Address of the connection-oriented native listener.
    pub native_stream_addr: Option<String>,
    /// Address of the connectionless native listener.
    pub native_datagram_addr: Option<String>,
    /// Address of the bridge's signaling listener.
    pub bridge_control_addr: Option<String>,
    /// Address advertised to browser peers for the data channel.
    pub bridge_data_addr: Option<String>,
}

/// The addresses a client session dials: the peer's stream or bridge
/// address, and optionally its datagram address for unreliable delivery.
pub struct ConnectConfig {
    /// The peer's native-stream or bridge address.
    pub addr: String,
    /// The peer's datagram address, when unreliable delivery is wanted.
    pub datagram_addr: Option<String>,
}

/// Whether a listen configuration names at least one address, none of
/// them empty.
pub open spec fn listen_config_valid(c: ListenConfig) -> bool {
    &&& {
        ||| c.native_stream_addr is Some
        ||| c.native_datagram_addr is Some
        ||| c.bridge_control_addr is Some
        ||| c.bridge_data_addr is Some
    }
    &&& (c.native_stream_addr matches Some(a) ==> a@.len() > 0)
    &&& (c.native_datagram_addr matches Some(a) ==> a@.len() > 0)
    &&& (c.bridge_control_addr matches Some(a) ==> a@.len() > 0)
    &&& (c.bridge_data_addr matches Some(a) ==> a@.len() > 0)
}

/// Whether a connect configuration names a non-empty peer address, and a
/// non-empty datagram address where one is given.
pub open spec fn connect_config_valid(c: ConnectConfig) -> bool {
    &&& c.addr@.len() > 0
    &&& (c.datagram_addr matches Some(a) ==> a@.len() > 0)
}

/// The oldest entry of a full inbox is evicted to admit a new one;
/// an inbox below its capacity simply grows.
pub open spec fn push_bounded(inbox: Seq<Seq<u8>>, msg: Seq<u8>, cap: nat) -> Seq<Seq<u8>> {
    if inbox.len() < cap {
        inbox.push(msg)
    } else {
        inbox.skip(1).push(msg)
    }
}

/// The frames a broadcast appends: one per link of `links` that is
/// eligible for `mode`, in link order, each carrying `wire`.
pub open spec fn route(links: Seq<Link>, mode: crate::channel::ReliabilityMode, has_dg: bool, wire: Seq<u8>) -> Seq<(u64, Seq<u8>)>
    decreases links.len(),
{
    if links.len() == 0 {
        Seq::empty()
    } else {
        route(links.drop_last(), mode, has_dg, wire) + if eligible(links.last().kind, mode, has_dg) {
            seq![(links.last().id, wire)]
        } else {
            Seq::empty()
        }
    }
}

/// Whether `links` holds a link with id `id`.
pub open spec fn has_link(links: Seq<Link>, id: u64) -> bool {
    exists|i: int| 0 <= i < links.len() && links[i].id == id
}

/// The index of the link with id `id`; meaningful only when
/// `has_link(links, id)` holds and link ids are unique.
pub open spec fn link_index_of(links: Seq<Link>, id: u64) -> int {
    choose|i: int| 0 <= i < links.len() && links[i].id == id
}

/// A peer session: the channel registry, one inbox per registered
/// channel, the live set of links, and the frames routed but not yet
/// handed to the driver for transmission.
///
/// The session performs no I/O of its own. The driver loop adds a link
/// when an accept or connect completes, feeds each received envelope to
/// `handle_incoming`, transmits what `take_outbound` yields, and reports
/// fatal send errors so the offending link leaves the live set.
pub struct Session {
    /// The channels this session may use; closed once links may exist.
    pub registry: ChannelRegistry,
    /// Per-channel inboxes, parallel to the registry's declarations.
    pub inboxes: Vec<Vec<Vec<u8>>>,
    /// The live set of links, in establishment order.
    pub links: Vec<Link>,
    /// Routed frames awaiting transmission by the driver.
    pub outbox: Vec<OutboundFrame>,
    /// The id the next established link will get.
    pub next_link_id: u64,
    /// Whether this session was created as a listener.
    pub is_server: bool,
    /// How many ticks the driver has begun.
    pub tick: u64,
}

impl Session {
    /// The payloads pending in the inbox at position `i`, oldest first.
    pub open spec fn inbox_at(self, i: int) -> Seq<Seq<u8>> {
        self.inboxes@[i]@.map_values(|m: Vec<u8>| m@)
    }

    /// The routed frames awaiting transmission, as (link id, bytes) pairs.
    pub open spec fn outbox_view(self) -> Seq<(u64, Seq<u8>)> {
        self.outbox@.map_values(|f: OutboundFrame| (f.link_id, f.bytes@))
    }

    /// The number of registered channels.
    pub open spec fn channel_count(self) -> nat {
        self.registry.specs().len()
    }

    /// Whether a channel with id `id` is registered.
    pub open spec fn is_registered(self, id: u32) -> bool {
        self.registry.is_registered(id)
    }

    /// The declaration of the channel with id `id`.
    pub open spec fn spec_of(self, id: u32) -> ChannelSpec {
        self.registry.spec_of(id)
    }

    /// The position of the channel with id `id` in the registry.
    pub open spec fn index_of(self, id: u32) -> int {
        spec_index_of(self.registry.specs(), id)
    }

    /// Whether the session began establishing links; the registry is
    /// closed from that point on.
    pub open spec fn started(self) -> bool {
        self.registry.is_closed()
    }

    /// Registry ids unique and limits valid, one inbox per channel, each
    /// inbox within its channel's capacity, link ids unique and below the
    /// next id to hand out.
    pub open spec fn wf(self) -> bool {
        &&& self.registry.wf()
        &&& self.inboxes@.len() == self.channel_count()
        &&& forall|i: int|
            0 <= i < self.inboxes@.len() ==> (#[trigger] self.inboxes@[i])@.len()
                <= self.registry.specs()[i].message_buffer_count
        &&& forall|i: int, j: int|
            0 <= i < j < self.links@.len() ==> (#[trigger] self.links@[i].id) != (
            #[trigger] self.links@[j].id)
        &&& forall|i: int| 0 <= i < self.links@.len() ==> #[trigger] self.links@[i].id < self.next_link_id
    }

    /// No payload is pending on any channel, as right after setup.
    pub open spec fn no_pending_messages(self) -> bool {
        forall|i: int| 0 <= i < self.inboxes@.len() ==> #[trigger] self.inbox_at(i).len() == 0
    }

    /// The batch a drain of channel `id` yields: the pending payloads of
    /// that channel, oldest first.
    pub open spec fn drain_result(self, id: u32) -> Seq<Seq<u8>> {
        self.inbox_at(self.index_of(id))
    }

    /// How a drain of channel `id` changes the session: that channel's
    /// inbox is emptied and everything else is kept.
    pub open spec fn drained(pre: Session, post: Session, id: u32) -> bool {
        &&& post.registry == pre.registry
        &&& post.links == pre.links
        &&& post.outbox == pre.outbox
        &&& post.next_link_id == pre.next_link_id
        &&& post.is_server == pre.is_server
        &&& post.tick == pre.tick
        &&& post.inboxes@.len() == pre.inboxes@.len()
        &&& forall|j: int|
            0 <= j < pre.inboxes@.len() && j != pre.index_of(id) ==> #[trigger] post.inbox_at(j)
                == pre.inbox_at(j)
        &&& post.inbox_at(pre.index_of(id)) == Seq::<Seq<u8>>::empty()
    }

    /// A session with no channels, no links and nothing buffered.
    fn empty_session(is_server: bool) -> (r: Session)
        ensures
            r.wf(),
            r.registry.specs() == Seq::<ChannelSpec>::empty(),
            !r.started(),
            r.inboxes@.len() == 0,
            r.links@.len() == 0,
            r.outbox@.len() == 0,
            r.next_link_id == 0,
            r.is_server == is_server,
            r.tick == 0,
    {
        Session {
            registry: ChannelRegistry::new(),
            inboxes: Vec::new(),
            links: Vec::new(),
            outbox: Vec::new(),
            next_link_id: 0,
            is_server,
            tick: 0,
        }
    }

    /// A session that will listen for peers.
    pub fn new_server() -> (r: Session)
        ensures
            r.wf(),
            r.registry.specs() == Seq::<ChannelSpec>::empty(),
            !r.started(),
            r.inboxes@.len() == 0,
            r.links@.len() == 0,
            r.outbox@.len() == 0,
            r.next_link_id == 0,
            r.is_server,
            r.tick == 0,
    {
        Session::empty_session(true)
    }

    /// A session that will connect to a listening peer.
    pub fn new_client() -> (r: Session)
        ensures
            r.wf(),
            r.registry.specs() == Seq::<ChannelSpec>::empty(),
            !r.started(),
            r.inboxes@.len() == 0,
            r.links@.len() == 0,
            r.outbox@.len() == 0,
            r.next_link_id == 0,
            !r.is_server,
            r.tick == 0,
    {
        Session::empty_session(false)
    }

    /// Register one channel and allocate its inbox. Fails with
    /// `RegistryClosed` once the session began establishing links,
    /// `InvalidBufferSize` for a zero or over-ceiling limit, and
    /// `DuplicateChannel` for a taken id; the session is unchanged on
    /// every failure.
    pub fn register(&mut self, spec: ChannelSpec) -> (r: Result<(), ChannelError>)
        requires
            old(self).wf(),
        ensures
            final(self).wf(),
            final(self).links == old(self).links,
            final(self).outbox == old(self).outbox,
            final(self).started() == old(self).started(),
            final(self).is_server == old(self).is_server,
            final(self).tick == old(self).tick,
            final(self).next_link_id == old(self).next_link_id,
            old(self).started() ==> {
                &&& r == Err::<(), ChannelError>(ChannelError::RegistryClosed)
                &&& final(self).registry.specs() == old(self).registry.specs()
                &&& final(self).inboxes == old(self).inboxes
            },
            !old(self).started() && !spec.valid_sizes() ==> {
                &&& r == Err::<(), ChannelError>(ChannelError::InvalidBufferSize)
                &&& final(self).registry.specs() == old(self).registry.specs()
                &&& final(self).inboxes == old(self).inboxes
            },
            !old(self).started() && spec.valid_sizes() && old(self).is_registered(spec.channel_id)
                ==> {
                &&& r == Err::<(), ChannelError>(ChannelError::DuplicateChannel)
                &&& final(self).registry.specs() == old(self).registry.specs()
                &&& final(self).inboxes == old(self).inboxes
            },
            !old(self).started() && spec.valid_sizes() && !old(self).is_registered(spec.channel_id)
                ==> {
                &&& r == Ok::<(), ChannelError>(())
                &&& final(self).registry.specs() == old(self).registry.specs().push(spec)
                &&& final(self).inboxes@.len() == old(self).inboxes@.len() + 1
                &&& forall|j: int|
                    0 <= j < old(self).inboxes@.len() ==> #[trigger] final(self).inbox_at(j) == old(
                        self,
                    ).inbox_at(j)
                &&& final(self).inbox_at(old(self).inboxes@.len() as int) == Seq::<Seq<u8>>::empty()
            },
    {
        let r = self.registry.register(spec);
        if r.is_ok() {
            self.inboxes.push(Vec::new());
            proof {
                assert(self.inbox_at(old(self).inboxes@.len() as int) =~= Seq::<Seq<u8>>::empty());
                assert forall|j: int| 0 <= j < old(self).inboxes@.len() implies #[trigger] self
                    .inbox_at(j) == old(self).inbox_at(j) by {
                    assert(self.inboxes@[j] == old(self).inboxes@[j]);
                }
            }
        }
        r
    }

    /// Begin listening: validate the configuration and close the
    /// registry. The driver binds the configured addresses after this
    /// returns `Ok`; a bind failure is its to surface as `AddressInUse`.
    pub fn listen(&mut self, config: &ListenConfig) -> (r: Result<(), TransportError>)
        requires
            old(self).wf(),
        ensures
            final(self).wf(),
            final(self).registry.specs() == old(self).registry.specs(),
            final(self).inboxes == old(self).inboxes,
            final(self).links == old(self).links,
            final(self).outbox == old(self).outbox,
            final(self).is_server == old(self).is_server,
            final(self).tick == old(self).tick,
            final(self).next_link_id == old(self).next_link_id,
            !listen_config_valid(*config) ==> {
                &&& r == Err::<(), TransportError>(TransportError::InvalidAddress)
                &&& final(self).started() == old(self).started()
            },
            listen_config_valid(*config) ==> {
                &&& r == Ok::<(), TransportError>(())
                &&& final(self).started()
            },
    {
        if !Session::listen_config_ok(config) {
            return Err(TransportError::InvalidAddress);
        }
        self.registry.close();
        Ok(())
    }

    /// Decide `listen_config_valid`.
    fn listen_config_ok(config: &ListenConfig) -> (r: bool)
        ensures
            r == listen_config_valid(*config),
    {
        let mut any: bool = false;
        let mut all_nonempty: bool = true;
        match &config.native_stream_addr {
            Some(a) => {
                any = true;
                if a.as_str().is_empty() {
                    all_nonempty = false;
                }
            },
            None => {},
        }
        match &config.native_datagram_addr {
            Some(a) => {
                any = true;
                if a.as_str().is_empty() {
                    all_nonempty = false;
                }
            },
            None => {},
        }
        match &config.bridge_control_addr {
            Some(a) => {
                any = true;
                if a.as_str().is_empty() {
                    all_nonempty = false;
                }
            },
            None => {},
        }
        match &config.bridge_data_addr {
            Some(a) => {
                any = true;
                if a.as_str().is_empty() {
                    all_nonempty = false;
                }
            },
            None => {},
        }
        any && all_nonempty
    }

    /// Begin connecting: validate the configuration and close the
    /// registry. The driver dials the address after this returns `Ok`;
    /// a dial failure is its to surface as `Unreachable`, `Timeout` or
    /// `HandshakeFailed`, and on success it adds the established link.
    pub fn connect(&mut self, config: &ConnectConfig) -> (r: Result<(), TransportError>)
        requires
            old(self).wf(),
        ensures
            final(self).wf(),
            final(self).registry.specs() == old(self).registry.specs(),
            final(self).inboxes == old(self).inboxes,
            final(self).links == old(self).links,
            final(self).outbox == old(self).outbox,
            final(self).is_server == old(self).is_server,
            final(self).tick == old(self).tick,
            final(self).next_link_id == old(self).next_link_id,
            !connect_config_valid(*config) ==> {
                &&& r == Err::<(), TransportError>(TransportError::InvalidAddress)
                &&& final(self).started() == old(self).started()
            },
            connect_config_valid(*config) ==> {
                &&& r == Ok::<(), TransportError>(())
                &&& final(self).started()
            },
    {
        let mut valid: bool = !config.addr.as_str().is_empty();
        match &config.datagram_addr {
            Some(a) => {
                if a.as_str().is_empty() {
                    valid = false;
                }
            },
            None => {},
        }
        if !valid {
            return Err(TransportError::InvalidAddress);
        }
        self.registry.close();
        Ok(())
    }

    /// Record a link the driver established (an accepted or completed
    /// connection) and return its session-unique id.
    pub fn add_link(&mut self, kind: TransportKind) -> (r: u64)
        requires
            old(self).wf(),
            old(self).next_link_id < u64::MAX,
        ensures
            final(self).wf(),
            r == old(self).next_link_id,
            final(self).links@ == old(self).links@.push(Link { id: r, kind }),
            final(self).next_link_id == old(self).next_link_id + 1,
            final(self).registry == old(self).registry,
            final(self).inboxes == old(self).inboxes,
            final(self).outbox == old(self).outbox,
            final(self).is_server == old(self).is_server,
            final(self).tick == old(self).tick,
    {
        let id = self.next_link_id;
        self.links.push(Link { id, kind });
        self.next_link_id = id + 1;
        id
    }

    /// The number of live links.
    pub fn link_count(&self) -> (r: usize)
        ensures
            r == self.links@.len(),
    {
        self.links.len()
    }

    /// How many ticks the driver has begun.
    pub fn tick_count(&self) -> (r: u64)
        ensures
            r == self.tick,
    {
        self.tick
    }

    /// Begin one driver tick and return its number. The driver calls
    /// this, then feeds every received envelope to `handle_incoming`,
    /// before the application broadcasts or drains.
    pub fn begin_tick(&mut self) -> (r: u64)
        requires
            old(self).wf(),
            old(self).tick < u64::MAX,
        ensures
            final(self).wf(),
            final(self).tick == old(self).tick + 1,
            r == final(self).tick,
            final(self).registry == old(self).registry,
            final(self).inboxes == old(self).inboxes,
            final(self).links == old(self).links,
            final(self).outbox == old(self).outbox,
            final(self).is_server == old(self).is_server,
            final(self).next_link_id == old(self).next_link_id,
    {
        self.tick = self.tick + 1;
        self.tick
    }

    /// Decide `has_datagram` for the live set.
    fn has_datagram_link(&self) -> (r: bool)
        ensures
            r == has_datagram(self.links@),
    {
        let n = self.links.len();
        let mut i: usize = 0;
        while i < n
            invariant
                n == self.links@.len(),
                i <= n,
                forall|j: int|
                    0 <= j < i ==> !((#[trigger] self.links@[j]).kind
                        == TransportKind::NativeDatagram || self.links@[j].kind
                        == TransportKind::WebBridge),
            decreases n - i,
        {
            match self.links[i].kind {
                TransportKind::NativeDatagram => return true,
                TransportKind::WebBridge => return true,
                TransportKind::NativeStream => {},
            }
            i += 1;
        }
        false
    }

    /// Broadcast one payload on a channel: encode it once and route the
    /// envelope to every live link whose transport is eligible for the
    /// channel's reliability mode, in link order. Fails with
    /// `UnregisteredChannel` for an unknown id and `PayloadTooLarge` for
    /// a payload over the channel's configured maximum; on failure no
    /// frame is routed. With no eligible link the broadcast succeeds as
    /// a no-op: best-effort delivery allows silence.
    pub fn broadcast(&mut self, payload: &Vec<u8>, channel_id: u32) -> (r: Result<(), NetError>)
        requires
            old(self).wf(),
        ensures
            final(self).wf(),
            final(self).registry == old(self).registry,
            final(self).inboxes == old(self).inboxes,
            final(self).links == old(self).links,
            final(self).is_server == old(self).is_server,
            final(self).tick == old(self).tick,
            final(self).next_link_id == old(self).next_link_id,
            !old(self).is_registered(channel_id) ==> {
                &&& r == Err::<(), NetError>(NetError::UnregisteredChannel)
                &&& final(self).outbox == old(self).outbox
            },
            old(self).is_registered(channel_id) && payload@.len() > old(self).spec_of(
                channel_id,
            ).packet_buffer_count ==> {
                &&& r == Err::<(), NetError>(NetError::PayloadTooLarge)
                &&& final(self).outbox == old(self).outbox
            },
            old(self).is_registered(channel_id) && payload@.len() <= old(self).spec_of(
                channel_id,
            ).packet_buffer_count ==> {
                &&& r == Ok::<(), NetError>(())
                &&& final(self).outbox_view() == old(self).outbox_view() + route(
                    old(self).links@,
                    old(self).spec_of(channel_id).mode,
                    has_datagram(old(self).links@),
                    spec_encode(channel_id, payload@),
                )
            },
    {
        let idx = match self.registry.find_index(channel_id) {
            None => return Err(NetError::UnregisteredChannel),
            Some(i) => i,
        };
        proof {
            lemma_index_of_unique(self.registry.specs(), channel_id, idx as int);
        }
        let cspec = self.registry.specs[idx];
        if payload.len() > cspec.packet_buffer_count {
            return Err(NetError::PayloadTooLarge);
        }
        let wire = match encode_frame(channel_id, payload, cspec.packet_buffer_count) {
            Ok(w) => w,
            Err(_) => return Err(NetError::PayloadTooLarge),
        };
        let has_dg = self.has_datagram_link();
        let n = self.links.len();
        let mut k: usize = 0;
        while k < n
            invariant
                old(self).wf(),
                self.registry == old(self).registry,
                self.inboxes == old(self).inboxes,
                self.links == old(self).links,
                self.is_server == old(self).is_server,
                self.tick == old(self).tick,
                self.next_link_id == old(self).next_link_id,
                n == self.links@.len(),
                k <= n,
                wire@ == spec_encode(channel_id, payload@),
                has_dg == has_datagram(old(self).links@),
                self.outbox_view() == old(self).outbox_view() + route(
                    old(self).links@.take(k as int),
                    cspec.mode,
                    has_dg,
                    wire@,
                ),
            decreases n - k,
        {
            let ghost prev_view = self.outbox_view();
            let l = self.links[k];
            if link_eligible(l.kind, cspec.mode, has_dg) {
                let bytes = wire.clone();
                proof {
                    assert(bytes@ =~= wire@);
                }
                self.outbox.push(OutboundFrame { link_id: l.id, bytes });
                proof {
                    assert(self.outbox_view() =~= prev_view.push((l.id, wire@)));
                }
            }
            proof {
                let lk = old(self).links@;
                assert(lk.take(k as int + 1).drop_last() =~= lk.take(k as int));
                assert(lk.take(k as int + 1).last() == lk[k as int]);
                assert(self.outbox_view() =~= old(self).outbox_view() + route(
                    lk.take(k as int + 1),
                    cspec.mode,
                    has_dg,
                    wire@,
                ));
            }
            k += 1;
        }
        proof {
            assert(old(self).links@.take(n as int) =~= old(self).links@);
        }
        Ok(())
    }

    /// Accept one received wire envelope: decode it, check it against
    /// the registry, and append its payload to the channel's inbox,
    /// evicting the oldest pending payload when the inbox is at its
    /// channel's capacity. A malformed envelope, an unknown channel id
    /// or an over-size payload drops the single frame and changes
    /// nothing; reception never tears a link down.
    pub fn handle_incoming(&mut self, bytes: &Vec<u8>)
        requires
            old(self).wf(),
        ensures
            final(self).wf(),
            final(self).registry == old(self).registry,
            final(self).links == old(self).links,
            final(self).outbox == old(self).outbox,
            final(self).is_server == old(self).is_server,
            final(self).tick == old(self).tick,
            final(self).next_link_id == old(self).next_link_id,
            final(self).inboxes@.len() == old(self).inboxes@.len(),
            match spec_decode(bytes@) {
                Option::None => final(self).inboxes == old(self).inboxes,
                Option::Some(cp) => if old(self).is_registered(cp.0) && cp.1.len() <= old(
                    self,
                ).spec_of(cp.0).packet_buffer_count {
                    &&& forall|j: int|
                        0 <= j < old(self).inboxes@.len() && j != old(self).index_of(cp.0)
                            ==> #[trigger] final(self).inbox_at(j) == old(self).inbox_at(j)
                    &&& final(self).inbox_at(old(self).index_of(cp.0)) == push_bounded(
                        old(self).inbox_at(old(self).index_of(cp.0)),
                        cp.1,
                        old(self).spec_of(cp.0).message_buffer_count as nat,
                    )
                } else {
                    final(self).inboxes == old(self).inboxes
                },
            },
    {
        let decoded = match decode_frame(bytes, &self.registry) {
            Err(_) => return,
            Ok(cp) => cp,
        };
        let c = decoded.0;
        let payload = decoded.1;
        let idx = match self.registry.find_index(c) {
            None => return,
            Some(i) => i,
        };
        proof {
            lemma_index_of_unique(self.registry.specs(), c, idx as int);
        }
        let cspec = self.registry.specs[idx];
        if payload.len() > cspec.packet_buffer_count {
            return;
        }
        let ghost pre = *self;
        if self.inboxes[idx].len() >= cspec.message_buffer_count {
            self.inboxes[idx].remove(0);
        }
        self.inboxes[idx].push(payload);
        proof {
            assert forall|j: int|
                0 <= j < old(self).inboxes@.len() && j != idx as int implies #[trigger] self
                .inbox_at(j) == old(self).inbox_at(j) by {
                assert(self.inboxes@[j] == old(self).inboxes@[j]);
            }
            let cap = cspec.message_buffer_count as nat;
            if pre.inboxes@[idx as int]@.len() >= cap {
                assert(self.inboxes@[idx as int]@ =~= pre.inboxes@[idx as int]@.skip(1).push(
                    payload,
                ));
                assert(self.inbox_at(idx as int) =~= pre.inbox_at(idx as int).skip(1).push(
                    payload@,
                ));
            } else {
                assert(self.inbox_at(idx as int) =~= pre.inbox_at(idx as int).push(payload@));
            }
        }
    }

    /// Return and clear the batch pending on a channel: the payloads
    /// received and kept since the previous drain, oldest first. Fails
    /// with `UnregisteredChannel` for an unknown id. Draining again
    /// without an intervening delivery yields the empty batch; that is
    /// not an error.
    pub fn drain(&mut self, channel_id: u32) -> (r: Result<Vec<Vec<u8>>, NetError>)
        requires
            old(self).wf(),
        ensures
            final(self).wf(),
            !old(self).is_registered(channel_id) ==> {
                &&& r == Err::<Vec<Vec<u8>>, NetError>(NetError::UnregisteredChannel)
                &&& *final(self) == *old(self)
            },
            old(self).is_registered(channel_id) ==> {
                &&& r matches Ok(batch) && batch@.map_values(|m: Vec<u8>| m@) == old(
                    self,
                ).drain_result(channel_id)
                &&& Session::drained(*old(self), *final(self), channel_id)
            },
    {
        let idx = match self.registry.find_index(channel_id) {
            None => return Err(NetError::UnregisteredChannel),
            Some(i) => i,
        };
        proof {
            lemma_index_of_unique(self.registry.specs(), channel_id, idx as int);
        }
        let mut taken: Vec<Vec<u8>> = Vec::new();
        core::mem::swap(&mut taken, &mut self.inboxes[idx]);
        proof {
            assert(self.inbox_at(idx as int) =~= Seq::<Seq<u8>>::empty());
            assert forall|j: int|
                0 <= j < old(self).inboxes@.len() && j != idx as int implies #[trigger] self
                .inbox_at(j) == old(self).inbox_at(j) by {
                assert(self.inboxes@[j] == old(self).inboxes@[j]);
            }
        }
        Ok(taken)
    }

    /// Hand the routed frames to the driver for transmission and clear
    /// the outbox. The driver sends each frame on its link and reports
    /// fatal outcomes through `report_send_error`.
    pub fn take_outbound(&mut self) -> (r: Vec<OutboundFrame>)
        requires
            old(self).wf(),
        ensures
            final(self).wf(),
            r@ == old(self).outbox@,
            final(self).outbox@.len() == 0,
            final(self).registry == old(self).registry,
            final(self).inboxes == old(self).inboxes,
            final(self).links == old(self).links,
            final(self).is_server == old(self).is_server,
            final(self).tick == old(self).tick,
            final(self).next_link_id == old(self).next_link_id,
    {
        let mut out: Vec<OutboundFrame> = Vec::new();
        core::mem::swap(&mut out, &mut self.outbox);
        out
    }

    /// Record the outcome the driver saw when transmitting on a link. A
    /// fatal error removes the link from the live set: later broadcasts
    /// skip it and the error is not raised again. A non-fatal outcome
    /// (a silently dropped datagram) changes nothing.
    pub fn report_send_error(&mut self, link_id: u64, fatal: bool)
        requires
            old(self).wf(),
        ensures
            final(self).wf(),
            final(self).registry == old(self).registry,
            final(self).inboxes == old(self).inboxes,
            final(self).outbox == old(self).outbox,
            final(self).is_server == old(self).is_server,
            final(self).tick == old(self).tick,
            final(self).next_link_id == old(self).next_link_id,
            !fatal || !has_link(old(self).links@, link_id) ==> final(self).links@ == old(
                self,
            ).links@,
            fatal && has_link(old(self).links@, link_id) ==> final(self).links@ == old(
                self,
            ).links@.remove(link_index_of(old(self).links@, link_id)),
            fatal ==> !has_link(final(self).links@, link_id),
    {
        if !fatal {
            return;
        }
        let n = self.links.len();
        let mut i: usize = 0;
        while i < n
            invariant
                fatal,
                *self == *old(self),
                old(self).wf(),
                n == self.links@.len(),
                i <= n,
                forall|j: int| 0 <= j < i ==> self.links@[j].id != link_id,
            decreases n - i,
        {
            if self.links[i].id == link_id {
                proof {
                    lemma_link_index_unique(self.links@, link_id, i as int);
                    assert(has_link(old(self).links@, link_id));
                }
                self.links.remove(i);
                proof {
                    assert forall|k: int|
                        0 <= k < self.links@.len() implies #[trigger] self.links@[k].id
                        != link_id by {
                        if k < i {
                            assert(self.links@[k] == old(self).links@[k]);
                        } else {
                            assert(self.links@[k] == old(self).links@[k + 1]);
                        }
                    }
                }
                return;
            }
            i += 1;
        }
    }
}

/// Law: on a session with no payload pending on any channel — as right
/// after `new_server` or `new_client` and any run of registrations,
/// before any link delivered anything — a drain of any registered
/// channel yields the empty batch.
pub proof fn lemma_quiescent_drain_empty(s: Session, channel_id: u32)
    requires
        s.wf(),
        s.no_pending_messages(),
        s.is_registered(channel_id),
    ensures
        s.drain_result(channel_id) == Seq::<Seq<u8>>::empty(),
{
    let idx = s.index_of(channel_id);
    assert(0 <= idx < s.registry.specs().len());
    assert(s.inbox_at(idx).len() == 0);
    assert(s.drain_result(channel_id) =~= Seq::<Seq<u8>>::empty());
}

/// Law: drains are idempotent. Once a drain of a channel took its
/// pending batch, a second drain with no intervening delivery finds the
/// channel still registered and yields the empty batch.
pub proof fn lemma_drain_idempotent(pre: Session, post: Session, channel_id: u32)
    requires
        pre.wf(),
        pre.is_registered(channel_id),
        Session::drained(pre, post, channel_id),
    ensures
        post.is_registered(channel_id),
        post.drain_result(channel_id) == Seq::<Seq<u8>>::empty(),
{
    assert(post.registry == pre.registry);
    assert(post.index_of(channel_id) == pre.index_of(channel_id));
}

/// The inbox a run of deliveries leaves: each message of `msgs` in turn
/// is admitted with `push_bounded`, oldest-first eviction at capacity.
pub open spec fn fill_inbox(inbox: Seq<Seq<u8>>, msgs: Seq<Seq<u8>>, cap: nat) -> Seq<Seq<u8>>
    decreases msgs.len(),
{
    if msgs.len() == 0 {
        inbox
    } else {
        fill_inbox(push_bounded(inbox, msgs[0], cap), msgs.skip(1), cap)
    }
}

/// A run of bounded deliveries keeps the newest messages: starting from
/// any inbox within capacity, what remains is the last `cap` entries of
/// the inbox followed by the delivered messages.
pub proof fn lemma_fill_inbox(inbox: Seq<Seq<u8>>, msgs: Seq<Seq<u8>>, cap: nat)
    requires
        1 <= cap,
        inbox.len() <= cap,
    ensures
        fill_inbox(inbox, msgs, cap) == if inbox.len() + msgs.len() <= cap {
            inbox + msgs
        } else {
            (inbox + msgs).skip(inbox.len() + msgs.len() - cap)
        },
    decreases msgs.len(),
{
    if msgs.len() == 0 {
        assert(inbox + msgs =~= inbox);
    } else {
        let nb = push_bounded(inbox, msgs[0], cap);
        lemma_fill_inbox(nb, msgs.skip(1), cap);
        if inbox.len() < cap {
            assert(nb + msgs.skip(1) =~= inbox + msgs);
            if inbox.len() + msgs.len() > cap {
                assert(fill_inbox(nb, msgs.skip(1), cap) == (nb + msgs.skip(1)).skip(
                    nb.len() + msgs.skip(1).len() - cap,
                ));
                assert(nb.len() + msgs.skip(1).len() - cap == inbox.len() + msgs.len() - cap);
            }
        } else {
            assert(inbox.len() == cap);
            assert(nb =~= inbox.skip(1).push(msgs[0]));
            assert(nb.len() == cap);
            assert(nb + msgs.skip(1) =~= (inbox + msgs).skip(1));
            if msgs.len() == 1 {
                assert(fill_inbox(nb, msgs.skip(1), cap) == nb + msgs.skip(1));
                assert(inbox.len() + msgs.len() - cap == 1);
            } else {
                assert(fill_inbox(nb, msgs.skip(1), cap) == (nb + msgs.skip(1)).skip(
                    msgs.len() - 1,
                ));
                assert((inbox + msgs).skip(1).skip(msgs.len() - 1) =~= (inbox + msgs).skip(
                    msgs.len() as int,
                ));
                assert(inbox.len() + msgs.len() - cap == msgs.len());
            }
        }
    }
}

/// Law: delivering more messages than a channel's message buffer count
/// before a drain leaves exactly that many pending, the newest ones,
/// with the oldest evicted first.
pub proof fn lemma_bounded_inbox_evicts_oldest(msgs: Seq<Seq<u8>>, cap: nat)
    requires
        1 <= cap < msgs.len(),
    ensures
        fill_inbox(Seq::empty(), msgs, cap).len() == cap,
        fill_inbox(Seq::empty(), msgs, cap) == msgs.skip(msgs.len() - cap),
{
    lemma_fill_inbox(Seq::empty(), msgs, cap);
    assert(Seq::<Seq<u8>>::empty() + msgs =~= msgs);
}

/// With unique link ids, any index whose link carries `id` is the index
/// that `link_index_of` picks.
pub proof fn lemma_link_index_unique(links: Seq<Link>, id: u64, i: int)
    requires
        forall|a: int, b: int|
            0 <= a < b < links.len() ==> (#[trigger] links[a].id) != (#[trigger] links[b].id),
        0 <= i < links.len(),
        links[i].id == id,
    ensures
        link_index_of(links, id) == i,
        has_link(links, id),
{
    let j = link_index_of(links, id);
    assert(0 <= j < links.len() && links[j].id == id);
    if i < j {
        assert(links[i].id != links[j].id);
    } else if j < i {
        assert(links[j].id != links[i].id);
    }
}

} // verus!
