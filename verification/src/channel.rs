use vstd::prelude::*;

use crate::errors::ChannelError;

verus! {

/// Ceiling on the per-channel buffer limits: a message-count or byte-size
/// limit above this is rejected at registration.
pub const MAX_BUFFER_LIMIT: usize = 1048576;

/// Delivery guarantee of a logical message channel.
#[derive(Clone, Copy, Debug, PartialEq, Eq, Structural)]
pub enum ReliabilityMode {
    /// Ordered, retransmitted delivery over a stream-capable link.
    Reliable,
    /// Best-effort delivery; messages may be dropped silently.
    Unreliable,
}

/// Declaration of one logical message channel, registered once at session
/// setup and immutable afterwards.
#[derive(Clone, Copy, Debug, PartialEq, Eq, Structural)]
pub struct ChannelSpec {
    /// Identifier of the channel, unique within a session.
    pub channel_id: u32,
    /// Delivery guarantee for messages sent on this channel.
    pub mode: ReliabilityMode,
    /// Greatest number of undrained messages kept for this channel; once
    /// full, the oldest message is evicted to admit a new one.
    pub message_buffer_count: usize,
    /// Greatest payload size in bytes accepted for one message.
    pub packet_buffer_count: usize,
}

impl ChannelSpec {
    /// Both buffer limits are positive and within the ceiling.
    pub open spec fn valid_sizes(self) -> bool {
        &&& 1 <= self.message_buffer_count <= MAX_BUFFER_LIMIT
        &&& 1 <= self.packet_buffer_count <= MAX_BUFFER_LIMIT
    }
}

/// Whether `specs` holds an entry with id `id`.
pub open spec fn spec_has_id(specs: Seq<ChannelSpec>, id: u32) -> bool {
    exists|i: int| 0 <= i < specs.len() && specs[i].channel_id == id
}

/// The index of the entry with id `id`; meaningful only when
/// `spec_has_id(specs, id)` holds and ids are unique.
pub open spec fn spec_index_of(specs: Seq<ChannelSpec>, id: u32) -> int {
    choose|i: int| 0 <= i < specs.len() && specs[i].channel_id == id
}

/// No two entries share a channel id.
pub open spec fn unique_ids(specs: Seq<ChannelSpec>) -> bool {
    forall|i: int, j: int|
        0 <= i < j < specs.len() ==> specs[i].channel_id != specs[j].channel_id
}

/// With unique ids, any index whose entry carries `id` is the index that
/// `spec_index_of` picks.
pub proof fn lemma_index_of_unique(specs: Seq<ChannelSpec>, id: u32, i: int)
    requires
        unique_ids(specs),
        0 <= i < specs.len(),
        specs[i].channel_id == id,
    ensures
        spec_index_of(specs, id) == i,
{
    let j = spec_index_of(specs, id);
    assert(0 <= j < specs.len() && specs[j].channel_id == id);
    if i < j {
        assert(specs[i].channel_id != specs[j].channel_id);
    } else if j < i {
        assert(specs[j].channel_id != specs[i].channel_id);
    }
}

/// The set of channels a session may use: declared before any link is
/// established, immutable afterwards.
pub struct ChannelRegistry {
    /// The registered declarations, in registration order.
    pub specs: Vec<ChannelSpec>,
    /// Whether the registry stopped accepting registrations.
    pub closed: bool,
}

impl ChannelRegistry {
    /// The registered channel declarations, in registration order.
    pub open spec fn specs(self) -> Seq<ChannelSpec> {
        self.specs@
    }

    /// Whether the registry stopped accepting registrations.
    pub open spec fn is_closed(self) -> bool {
        self.closed
    }

    /// Registered ids are unique and every entry has valid buffer limits.
    pub open spec fn wf(self) -> bool {
        &&& unique_ids(self.specs())
        &&& forall|i: int| 0 <= i < self.specs().len() ==> self.specs()[i].valid_sizes()
    }

    /// Whether a channel with id `id` is registered.
    pub open spec fn is_registered(self, id: u32) -> bool {
        spec_has_id(self.specs(), id)
    }

    /// The declaration of the channel with id `id`.
    pub open spec fn spec_of(self, id: u32) -> ChannelSpec {
        self.specs()[spec_index_of(self.specs(), id)]
    }

    /// An empty, open registry.
    pub fn new() -> (r: ChannelRegistry)
        ensures
            r.wf(),
            r.specs() == Seq::<ChannelSpec>::empty(),
            !r.is_closed(),
    {
        ChannelRegistry { specs: Vec::new(), closed: false }
    }

    /// The number of registered channels.
    pub fn len(&self) -> (r: usize)
        ensures
            r == self.specs().len(),
    {
        self.specs.len()
    }

    /// The position of the channel with id `id`, if it is registered.
    pub fn find_index(&self, id: u32) -> (r: Option<usize>)
        ensures
            match r {
                Some(i) => i < self.specs().len() && self.specs()[i as int].channel_id == id,
                None => !self.is_registered(id),
            },
    {
        let n = self.specs.len();
        let mut i: usize = 0;
        while i < n
            invariant
                n == self.specs().len(),
                i <= n,
                forall|j: int| 0 <= j < i ==> self.specs()[j].channel_id != id,
            decreases n - i,
        {
            if self.specs[i].channel_id == id {
                return Some(i);
            }
            i += 1;
        }
        None
    }

    /// Stop accepting registrations; called when the session begins
    /// establishing links.
    pub fn close(&mut self)
        ensures
            final(self).specs == old(self).specs,
            final(self).is_closed(),
    {
        self.closed = true;
    }

    /// Register one channel declaration. Fails with `RegistryClosed` after
    /// the registry closed, `InvalidBufferSize` when a limit is zero or
    /// over the ceiling, and `DuplicateChannel` when the id is taken; on
    /// success the declaration is appended.
    pub fn register(&mut self, spec: ChannelSpec) -> (r: Result<(), ChannelError>)
        requires
            old(self).wf(),
        ensures
            final(self).wf(),
            final(self).is_closed() == old(self).is_closed(),
            old(self).is_closed() ==> {
                &&& r == Err::<(), ChannelError>(ChannelError::RegistryClosed)
                &&& final(self).specs() == old(self).specs()
            },
            !old(self).is_closed() && !spec.valid_sizes() ==> {
                &&& r == Err::<(), ChannelError>(ChannelError::InvalidBufferSize)
                &&& final(self).specs() == old(self).specs()
            },
            !old(self).is_closed() && spec.valid_sizes() && old(self).is_registered(spec.channel_id)
                ==> {
                &&& r == Err::<(), ChannelError>(ChannelError::DuplicateChannel)
                &&& final(self).specs() == old(self).specs()
            },
            !old(self).is_closed() && spec.valid_sizes() && !old(self).is_registered(spec.channel_id)
                ==> {
                &&& r == Ok::<(), ChannelError>(())
                &&& final(self).specs() == old(self).specs().push(spec)
            },
    {
        if self.closed {
            return Err(ChannelError::RegistryClosed);
        }
        if spec.message_buffer_count == 0 || spec.message_buffer_count > MAX_BUFFER_LIMIT
            || spec.packet_buffer_count == 0 || spec.packet_buffer_count > MAX_BUFFER_LIMIT {
            return Err(ChannelError::InvalidBufferSize);
        }
        if self.find_index(spec.channel_id).is_some() {
            return Err(ChannelError::DuplicateChannel);
        }
        self.specs.push(spec);
        Ok(())
    }
}

} // verus!
