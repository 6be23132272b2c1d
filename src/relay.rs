use vstd::prelude::*;

use crate::ids::{
    decimal, lemma_decimal, parse_nonzero_u64, parse_room_name, room_name, VirtualChannelId,
};
use crate::registry::{without_owner, ChannelView, VirtualChannel, VirtualChannels};

verus! {

/// Why an operation of the relay was refused.
#[derive(Clone, Copy, Debug, PartialEq, Eq, Structural)]
pub enum RelayError {
    /// The request could not be decoded.
    Malformed,
    /// No virtual channel matches the id that the request resolves to.
    NotFound,
    /// The channel exists, but the caller is not on its allow-list.
    Forbidden,
    /// An unexpected failure; its detail stays on the server.
    Internal,
}

impl RelayError {
    /// The text that the caller is sent.
    pub fn message(&self) -> (r: &'static str)
        ensures
            *self == RelayError::Malformed ==> r@ == "malformed request"@,
            *self == RelayError::NotFound ==> r@ == "virtual channel not found"@,
            *self == RelayError::Forbidden ==> r@ == "not allowed to view channel"@,
            *self == RelayError::Internal ==> r@ == "internal error"@,
    {
        match self {
            RelayError::Malformed => "malformed request",
            RelayError::NotFound => "virtual channel not found",
            RelayError::Forbidden => "not allowed to view channel",
            RelayError::Internal => "internal error",
        }
    }
}

/// The acknowledgement of one operation.
#[derive(Clone, Copy, Debug, PartialEq, Eq, Structural)]
pub enum Ack {
    Accepted,
    Refused(RelayError),
}

/// What the caller's session does in the transport after an operation.
#[derive(Debug)]
pub enum RoomAction {
    /// Nothing.
    Stay,
    /// Joins the named room.
    Join(String),
    /// Leaves the named room.
    Leave(String),
    /// Sends the event to every session in the named room, the sender included.
    Broadcast(String),
}

/// The result of one operation: the acknowledgement, the room action, and a
/// snapshot of the source channel to send to the caller alone.
#[derive(Debug)]
pub struct Outcome {
    pub ack: Ack,
    pub room: RoomAction,
    pub snapshot: Option<String>,
}

/// A request to create (or replace) the caller's virtual channel of a source channel.
pub struct CreateVirtualChannelRequest {
    pub channel_id: u64,
    /// The source channel's current state, as serialized text.
    pub channel_data: String,
    pub allowed_user_ids: Vec<u64>,
}

/// The id that `caller`'s operations on `channel_id` resolve to.
pub open spec fn own_id(caller: u64, channel_id: u64) -> VirtualChannelId {
    VirtualChannelId { channel_id, owner_id: caller }
}

/// The acknowledgement of `listen_to_channel`.
pub open spec fn listen_ack(m: Map<VirtualChannelId, ChannelView>, caller: u64, id: VirtualChannelId) -> Ack {
    if !m.contains_key(id) {
        Ack::Refused(RelayError::NotFound)
    } else if !m[id].allowed.contains(caller) {
        Ack::Refused(RelayError::Forbidden)
    } else {
        Ack::Accepted
    }
}

/// The acknowledgement of operations that only the owner may make
/// (`delete_virtual_channel`, `broadcast_event_in_channel`).
pub open spec fn owner_ack(m: Map<VirtualChannelId, ChannelView>, caller: u64, channel_id: u64) -> Ack {
    if m.contains_key(own_id(caller, channel_id)) {
        Ack::Accepted
    } else {
        Ack::Refused(RelayError::NotFound)
    }
}

/// The registry after `create_virtual_channel`.
pub open spec fn after_create(
    m: Map<VirtualChannelId, ChannelView>,
    caller: u64,
    channel_id: u64,
    channel: ChannelView,
) -> Map<VirtualChannelId, ChannelView> {
    m.insert(own_id(caller, channel_id), channel)
}

/// The registry after `delete_virtual_channel`.
pub open spec fn after_delete(m: Map<VirtualChannelId, ChannelView>, caller: u64, channel_id: u64) -> Map<
    VirtualChannelId,
    ChannelView,
> {
    m.remove(own_id(caller, channel_id))
}

/// The view of a channel created from `req`.
pub open spec fn requested_view(req: CreateVirtualChannelRequest) -> ChannelView {
    ChannelView { allowed: req.allowed_user_ids@.to_set(), data: req.channel_data@ }
}

/// Whether `action` joins the room named `name`.
pub open spec fn joins(action: RoomAction, name: Seq<char>) -> bool {
    action is Join && action->Join_0@ == name
}

/// Creates the caller's virtual channel of `req.channel_id`, replacing any
/// earlier one, and joins the caller to its room.
pub fn create_virtual_channel(
    registry: &mut VirtualChannels,
    caller: u64,
    req: CreateVirtualChannelRequest,
) -> (r: Outcome)
    requires
        old(registry).wf(),
    ensures
        final(registry).wf(),
        final(registry)@ == after_create(old(registry)@, caller, req.channel_id, requested_view(req)),
        r.ack == Ack::Accepted,
        joins(r.room, room_name(caller, req.channel_id)),
        r.snapshot is None,
{
    let id = VirtualChannelId { channel_id: req.channel_id, owner_id: caller };
    let room = id.to_string();
    registry.add(
        VirtualChannel { id, channel_data: req.channel_data, allowed_user_ids: req.allowed_user_ids },
    );
    Outcome { ack: Ack::Accepted, room: RoomAction::Join(room), snapshot: None }
}

/// Deletes the caller's virtual channel of `channel_id`, and takes the
/// caller out of its room.
pub fn delete_virtual_channel(registry: &mut VirtualChannels, caller: u64, channel_id: u64) -> (r: Outcome)
    requires
        old(registry).wf(),
    ensures
        final(registry).wf(),
        final(registry)@ == after_delete(old(registry)@, caller, channel_id),
        r.ack == owner_ack(old(registry)@, caller, channel_id),
        r.ack == Ack::Accepted ==> r.room is Leave && r.room->Leave_0@ == room_name(caller, channel_id),
        r.ack != Ack::Accepted ==> r.room is Stay,
        r.snapshot is None,
{
    let id = VirtualChannelId::from((caller, channel_id));
    if registry.get(&id).is_none() {
        proof {
            assert(registry@.remove(id) =~= registry@);
        }
        return Outcome { ack: Ack::Refused(RelayError::NotFound), room: RoomAction::Stay, snapshot: None };
    }
    let room = id.to_string();
    registry.remove(&id);
    Outcome { ack: Ack::Accepted, room: RoomAction::Leave(room), snapshot: None }
}

/// Joins the caller to the room of the channel `id`, where the channel
/// exists and its allow-list holds the caller; on success the caller is also
/// sent the channel's snapshot.
pub fn listen_to_channel(registry: &VirtualChannels, caller: u64, id: VirtualChannelId) -> (r: Outcome)
    requires
        registry.wf(),
    ensures
        r.ack == listen_ack(registry@, caller, id),
        r.ack == Ack::Accepted ==> joins(r.room, room_name(id.owner_id, id.channel_id)) && r.snapshot is Some
            && r.snapshot->0@ == registry@[id].data,
        r.ack != Ack::Accepted ==> r.room is Stay && r.snapshot is None,
{
    match registry.get(&id) {
        None => Outcome { ack: Ack::Refused(RelayError::NotFound), room: RoomAction::Stay, snapshot: None },
        Some(channel) => {
            if !channel.is_allowed(caller) {
                return Outcome {
                    ack: Ack::Refused(RelayError::Forbidden),
                    room: RoomAction::Stay,
                    snapshot: None,
                };
            }
            let snapshot = channel.channel_data.clone();
            Outcome { ack: Ack::Accepted, room: RoomAction::Join(id.to_string()), snapshot: Some(snapshot) }
        },
    }
}

/// Sends an event to the room of the caller's virtual channel of `channel_id`.
pub fn broadcast_event_in_channel(registry: &VirtualChannels, caller: u64, channel_id: u64) -> (r: Outcome)
    requires
        registry.wf(),
    ensures
        r.ack == owner_ack(registry@, caller, channel_id),
        r.ack == Ack::Accepted ==> r.room is Broadcast && r.room->Broadcast_0@ == room_name(caller, channel_id),
        r.ack != Ack::Accepted ==> r.room is Stay,
        r.snapshot is None,
{
    let id = VirtualChannelId::from((caller, channel_id));
    match registry.get(&id) {
        None => Outcome { ack: Ack::Refused(RelayError::NotFound), room: RoomAction::Stay, snapshot: None },
        Some(_) => Outcome { ack: Ack::Accepted, room: RoomAction::Broadcast(id.to_string()), snapshot: None },
    }
}

/// Revokes every virtual channel that the disconnected caller owns.
pub fn on_disconnect(registry: &mut VirtualChannels, caller: u64)
    requires
        old(registry).wf(),
    ensures
        final(registry).wf(),
        final(registry)@ == without_owner(old(registry)@, caller),
{
    registry.remove_from_user(caller);
}

/// A channel created with `subscriber` on its allow-list may be listened to
/// by that subscriber, through the same room that the owner broadcasts to.
pub proof fn lemma_create_then_listen(
    m: Map<VirtualChannelId, ChannelView>,
    owner: u64,
    channel_id: u64,
    channel: ChannelView,
    subscriber: u64,
)
    requires
        channel.allowed.contains(subscriber),
    ensures
        listen_ack(after_create(m, owner, channel_id, channel), subscriber, own_id(owner, channel_id))
            == Ack::Accepted,
        owner_ack(after_create(m, owner, channel_id, channel), owner, channel_id) == Ack::Accepted,
{
}

/// An identity missing from a channel's allow-list is refused with `Forbidden`.
pub proof fn lemma_listen_needs_allow_list(
    m: Map<VirtualChannelId, ChannelView>,
    owner: u64,
    channel_id: u64,
    channel: ChannelView,
    stranger: u64,
)
    requires
        !channel.allowed.contains(stranger),
    ensures
        listen_ack(after_create(m, owner, channel_id, channel), stranger, own_id(owner, channel_id))
            == Ack::Refused(RelayError::Forbidden),
{
}

/// After its owner disconnects, listening to any of the owner's channels
/// gives `NotFound`.
pub proof fn lemma_disconnect_revokes(
    m: Map<VirtualChannelId, ChannelView>,
    owner: u64,
    channel_id: u64,
    caller: u64,
)
    ensures
        listen_ack(without_owner(m, owner), caller, own_id(owner, channel_id)) == Ack::Refused(
            RelayError::NotFound,
        ),
{
}

/// A second disconnect of the same identity changes nothing, and channels
/// of other owners survive a disconnect unchanged.
pub proof fn lemma_disconnect_idempotent(m: Map<VirtualChannelId, ChannelView>, owner: u64, id: VirtualChannelId)
    ensures
        without_owner(without_owner(m, owner), owner) == without_owner(m, owner),
        id.owner_id != owner && m.contains_key(id) ==> without_owner(m, owner).contains_key(id)
            && without_owner(m, owner)[id] == m[id],
{
    assert(without_owner(without_owner(m, owner), owner) =~= without_owner(m, owner));
}

/// Deleting a channel that the caller does not own (because it belongs to
/// someone else or does not exist) gives `NotFound` and changes nothing.
pub proof fn lemma_delete_needs_own_channel(
    m: Map<VirtualChannelId, ChannelView>,
    caller: u64,
    channel_id: u64,
)
    requires
        !m.contains_key(own_id(caller, channel_id)),
    ensures
        owner_ack(m, caller, channel_id) == Ack::Refused(RelayError::NotFound),
        after_delete(m, caller, channel_id) == m,
{
    assert(m.remove(own_id(caller, channel_id)) =~= m);
}

/// The owner deletes an existing channel with `Ok`, after which listening to
/// it gives `NotFound`.
pub proof fn lemma_delete_by_owner_revokes(
    m: Map<VirtualChannelId, ChannelView>,
    owner: u64,
    channel_id: u64,
    caller: u64,
)
    requires
        m.contains_key(own_id(owner, channel_id)),
    ensures
        owner_ack(m, owner, channel_id) == Ack::Accepted,
        listen_ack(after_delete(m, owner, channel_id), caller, own_id(owner, channel_id))
            == Ack::Refused(RelayError::NotFound),
{
}

/// The registry after a channel has been created under each of `ids`, in
/// order, the `i`-th with the view `channels[i]`.
pub open spec fn after_creates(
    m: Map<VirtualChannelId, ChannelView>,
    ids: Seq<VirtualChannelId>,
    channels: Seq<ChannelView>,
) -> Map<VirtualChannelId, ChannelView>
    decreases ids.len(),
{
    if ids.len() == 0 || channels.len() == 0 {
        m
    } else {
        after_creates(m, ids.drop_last(), channels.drop_last()).insert(ids.last(), channels.last())
    }
}

/// Creations under pairwise distinct ids, starting from an empty registry,
/// leave exactly one entry each: none is lost.
pub proof fn lemma_distinct_creates_all_kept(ids: Seq<VirtualChannelId>, channels: Seq<ChannelView>)
    requires
        ids.no_duplicates(),
        ids.len() == channels.len(),
    ensures
        after_creates(Map::empty(), ids, channels).dom().finite(),
        after_creates(Map::empty(), ids, channels).dom().len() == ids.len(),
        forall|i: int| 0 <= i < ids.len() ==> after_creates(Map::empty(), ids, channels).contains_key(#[trigger] ids[i]),
    decreases ids.len(),
{
    if ids.len() > 0 {
        let front = ids.drop_last();
        assert(front.no_duplicates());
        lemma_distinct_creates_all_kept(front, channels.drop_last());
        let before = after_creates(Map::empty(), front, channels.drop_last());
        assert(!before.contains_key(ids.last())) by {
            if before.contains_key(ids.last()) {
                lemma_creates_keys(Map::empty(), front, channels.drop_last(), ids.last());
                let j = choose|j: int| 0 <= j < front.len() && front[j] == ids.last();
                assert(ids[j] == ids[ids.len() - 1]);
            }
        }
        assert forall|i: int| 0 <= i < ids.len() implies after_creates(Map::empty(), ids, channels).contains_key(#[trigger] ids[i]) by {
            if i < ids.len() - 1 {
                assert(front[i] == ids[i]);
            }
        }
    }
}

proof fn lemma_creates_keys(
    m: Map<VirtualChannelId, ChannelView>,
    ids: Seq<VirtualChannelId>,
    channels: Seq<ChannelView>,
    k: VirtualChannelId,
)
    requires
        ids.len() == channels.len(),
        after_creates(m, ids, channels).contains_key(k),
    ensures
        m.contains_key(k) || exists|j: int| 0 <= j < ids.len() && ids[j] == k,
    decreases ids.len(),
{
    if ids.len() > 0 && k != ids.last() {
        lemma_creates_keys(m, ids.drop_last(), channels.drop_last(), k);
        if !m.contains_key(k) {
            let j = choose|j: int| 0 <= j < ids.len() - 1 && ids.drop_last()[j] == k;
            assert(ids[j] == k);
        }
    } else if ids.len() > 0 {
        assert(ids[ids.len() - 1] == k);
    }
}

/// A room name reads back as the id it was made from, for every id whose
/// owner and source channel are non-zero.
pub proof fn lemma_room_name_round_trip(id: VirtualChannelId)
    requires
        id.owner_id != 0,
        id.channel_id != 0,
    ensures
        parse_room_name(room_name(id.owner_id, id.channel_id)) == Some(id),
{
    let a = decimal(id.owner_id as nat);
    let b = decimal(id.channel_id as nat);
    lemma_parse_decimal(id.owner_id);
    lemma_parse_decimal(id.channel_id);
    lemma_decimal(id.owner_id as nat);
    assert(!a.contains(';')) by {
        if a.contains(';') {
            let k = choose|k: int| 0 <= k < a.len() && a[k] == ';';
            assert(crate::ids::is_digit(a[k]));
        }
    }
    crate::ids::lemma_separator_split(a, b);
    let s = room_name(id.owner_id, id.channel_id);
    assert(s.take(a.len() as int) =~= a);
    assert(s.skip(a.len() as int + 1) =~= b);
}

proof fn lemma_parse_decimal(n: u64)
    requires
        n != 0,
    ensures
        parse_nonzero_u64(decimal(n as nat)) == Some(n),
{
    lemma_decimal(n as nat);
    let s = decimal(n as nat);
    assert(crate::ids::is_digit(s[0]));
}

} // verus!
