use vstd::prelude::*;

use crate::ids::VirtualChannelId;

verus! {

/// What the registry knows of one virtual channel: who may listen to it, and
/// the snapshot of its source channel that a new listener is sent.
pub struct ChannelView {
    pub allowed: Set<u64>,
    pub data: Seq<char>,
}

/// One authorization scope: an owner, a source channel, and the identities
/// allowed to listen to it.
pub struct VirtualChannel {
    pub id: VirtualChannelId,
    /// The source channel's current state, as serialized text.
    pub channel_data: String,
    pub allowed_user_ids: Vec<u64>,
}

impl View for VirtualChannel {
    type V = ChannelView;

    open spec fn view(&self) -> ChannelView {
        ChannelView { allowed: self.allowed_user_ids@.to_set(), data: self.channel_data@ }
    }
}

impl VirtualChannel {
    /// Whether `user_id` is on the channel's allow-list.
    pub fn is_allowed(&self, user_id: u64) -> (r: bool)
        ensures
            r == self@.allowed.contains(user_id),
    {
        let mut i: usize = 0;
        while i < self.allowed_user_ids.len()
            invariant
                i <= self.allowed_user_ids@.len(),
                forall|j: int| 0 <= j < i ==> self.allowed_user_ids@[j] != user_id,
            decreases self.allowed_user_ids@.len() - i,
        {
            if self.allowed_user_ids[i] == user_id {
                assert(self.allowed_user_ids@.contains(user_id));
                return true;
            }
            i += 1;
        }
        false
    }
}

/// The map that a sequence of channels with distinct ids stands for.
pub open spec fn channel_map(s: Seq<VirtualChannel>) -> Map<VirtualChannelId, ChannelView> {
    Map::new(
        |k: VirtualChannelId| exists|i: int| 0 <= i < s.len() && s[i].id == k,
        |k: VirtualChannelId| s[choose|i: int| 0 <= i < s.len() && s[i].id == k]@,
    )
}

/// No two channels of `s` share an id.
pub open spec fn distinct_ids(s: Seq<VirtualChannel>) -> bool {
    forall|i: int, j: int| 0 <= i < s.len() && 0 <= j < s.len() && i != j ==> s[i].id != s[j].id
}

/// `m` without the entries whose id is owned by `owner_id`.
pub open spec fn without_owner(
    m: Map<VirtualChannelId, ChannelView>,
    owner_id: u64,
) -> Map<VirtualChannelId, ChannelView> {
    Map::new(|k: VirtualChannelId| m.contains_key(k) && k.owner_id != owner_id, |k| m[k])
}

proof fn lemma_channel_at(s: Seq<VirtualChannel>, i: int)
    requires
        distinct_ids(s),
        0 <= i < s.len(),
    ensures
        channel_map(s).contains_key(s[i].id),
        channel_map(s)[s[i].id] == s[i]@,
{
    let k = s[i].id;
    assert(channel_map(s).dom().contains(k));
    let j = choose|j: int| 0 <= j < s.len() && s[j].id == k;
    assert(j == i);
}

proof fn lemma_channel_map_eq(s: Seq<VirtualChannel>, m: Map<VirtualChannelId, ChannelView>)
    requires
        distinct_ids(s),
        forall|i: int|
            0 <= i < s.len() ==> m.contains_key(#[trigger] s[i].id) && m[s[i].id] == s[i]@,
        forall|k: VirtualChannelId|
            m.contains_key(k) ==> exists|i: int| 0 <= i < s.len() && #[trigger] s[i].id == k,
    ensures
        channel_map(s) == m,
{
    assert forall|k: VirtualChannelId| #[trigger] channel_map(s).contains_key(k) implies m.contains_key(
        k,
    ) && channel_map(s)[k] == m[k] by {
        let i = choose|i: int| 0 <= i < s.len() && s[i].id == k;
        lemma_channel_at(s, i);
    }
    assert forall|k: VirtualChannelId| m.contains_key(k) implies #[trigger] channel_map(
        s,
    ).contains_key(k) by {
        let i = choose|i: int| 0 <= i < s.len() && #[trigger] s[i].id == k;
        lemma_channel_at(s, i);
    }
    assert(channel_map(s) =~= m);
}

/// The registry of active virtual channels, at most one per id.
pub struct VirtualChannels {
    channels: Vec<VirtualChannel>,
}

impl View for VirtualChannels {
    type V = Map<VirtualChannelId, ChannelView>;

    closed spec fn view(&self) -> Map<VirtualChannelId, ChannelView> {
        channel_map(self.channels@)
    }
}

impl Default for VirtualChannels {
    /// An empty registry.
    fn default() -> (r: VirtualChannels)
        ensures
            r.wf(),
            r@ == Map::<VirtualChannelId, ChannelView>::empty(),
    {
        VirtualChannels::new()
    }
}

impl VirtualChannels {
    /// The registry's invariant: ids are unique.
    pub closed spec fn wf(&self) -> bool {
        distinct_ids(self.channels@)
    }

    /// An empty registry.
    pub fn new() -> (r: VirtualChannels)
        ensures
            r.wf(),
            r@ == Map::<VirtualChannelId, ChannelView>::empty(),
    {
        let r = VirtualChannels { channels: Vec::new() };
        assert(r@ =~= Map::<VirtualChannelId, ChannelView>::empty());
        r
    }

    fn position(&self, id: &VirtualChannelId) -> (r: Option<usize>)
        requires
            self.wf(),
        ensures
            match r {
                Some(i) => i < self.channels@.len() && self.channels@[i as int].id == *id,
                None => !self@.contains_key(*id),
            },
    {
        let mut i: usize = 0;
        while i < self.channels.len()
            invariant
                i <= self.channels@.len(),
                forall|j: int| 0 <= j < i ==> self.channels@[j].id != *id,
            decreases self.channels@.len() - i,
        {
            if self.channels[i].id == *id {
                return Some(i);
            }
            i += 1;
        }
        None
    }

    /// The channel registered under `id`, if any.
    pub fn get(&self, id: &VirtualChannelId) -> (r: Option<&VirtualChannel>)
        requires
            self.wf(),
        ensures
            match r {
                Some(c) => self@.contains_key(*id) && c.id == *id && c@ == self@[*id],
                None => !self@.contains_key(*id),
            },
    {
        match self.position(id) {
            Some(i) => {
                proof {
                    lemma_channel_at(self.channels@, i as int);
                }
                Some(&self.channels[i])
            },
            None => None,
        }
    }

    /// The number of registered channels.
    pub fn len(&self) -> (r: usize)
        requires
            self.wf(),
        ensures
            self@.dom().finite(),
            r == self@.dom().len(),
    {
        let ghost ids = self.channels@.map_values(|c: VirtualChannel| c.id);
        proof {
            assert(ids.no_duplicates());
            assert forall|k: VirtualChannelId| #[trigger] self@.dom().contains(k) <==> ids.to_set().contains(k) by {
                if self@.dom().contains(k) {
                    let i = choose|i: int| 0 <= i < self.channels@.len() && self.channels@[i].id == k;
                    assert(ids[i] == k);
                }
                if ids.to_set().contains(k) {
                    let i = choose|i: int| 0 <= i < ids.len() && ids[i] == k;
                    assert(self.channels@[i].id == k);
                }
            }
            assert(self@.dom() =~= ids.to_set());
            ids.unique_seq_to_set();
        }
        self.channels.len()
    }

    /// Inserts `channel` under its id, replacing any channel registered there.
    pub fn add(&mut self, channel: VirtualChannel)
        requires
            old(self).wf(),
        ensures
            final(self).wf(),
            final(self)@ == old(self)@.insert(channel.id, channel@),
    {
        let ghost old_s = self.channels@;
        let ghost m = old(self)@.insert(channel.id, channel@);
        let ghost key = channel.id;
        let ghost cv = channel@;
        match self.position(&channel.id) {
            Some(i) => {
                self.channels.set(i, channel);
                proof {
                    let s = self.channels@;
                    assert(distinct_ids(s));
                    assert forall|j: int| 0 <= j < s.len() implies m.contains_key(
                        #[trigger] s[j].id,
                    ) && m[s[j].id] == s[j]@ by {
                        if j != i {
                            lemma_channel_at(old_s, j);
                        }
                    }
                    assert forall|k: VirtualChannelId| m.contains_key(k) implies exists|j: int|
                        0 <= j < s.len() && #[trigger] s[j].id == k by {
                        if k != key {
                            let j = choose|j: int| 0 <= j < old_s.len() && old_s[j].id == k;
                            assert(s[j].id == k);
                        } else {
                            assert(s[i as int].id == k);
                        }
                    }
                    lemma_channel_map_eq(s, m);
                }
            },
            None => {
                self.channels.push(channel);
                proof {
                    let s = self.channels@;
                    let n = old_s.len() as int;
                    assert forall|a: int, b: int|
                        0 <= a < s.len() && 0 <= b < s.len() && a != b implies s[a].id != s[b].id by {
                        if a == n {
                            assert(old(self)@.contains_key(s[b].id)) by {
                                lemma_channel_at(old_s, b);
                            }
                        } else if b == n {
                            assert(old(self)@.contains_key(s[a].id)) by {
                                lemma_channel_at(old_s, a);
                            }
                        }
                    }
                    assert forall|j: int| 0 <= j < s.len() implies m.contains_key(
                        #[trigger] s[j].id,
                    ) && m[s[j].id] == s[j]@ by {
                        if j != n {
                            lemma_channel_at(old_s, j);
                        }
                    }
                    assert forall|k: VirtualChannelId| m.contains_key(k) implies exists|j: int|
                        0 <= j < s.len() && #[trigger] s[j].id == k by {
                        if k != key {
                            let j = choose|j: int| 0 <= j < old_s.len() && old_s[j].id == k;
                            assert(s[j].id == k);
                        } else {
                            assert(s[n].id == k);
                        }
                    }
                    lemma_channel_map_eq(s, m);
                }
            },
        }
    }

    /// Removes the channel registered under `id`, if any.
    pub fn remove(&mut self, id: &VirtualChannelId)
        requires
            old(self).wf(),
        ensures
            final(self).wf(),
            final(self)@ == old(self)@.remove(*id),
    {
        let ghost old_s = self.channels@;
        let ghost m = old(self)@.remove(*id);
        match self.position(id) {
            Some(i) => {
                self.channels.remove(i);
                proof {
                    let s = self.channels@;
                    assert forall|j: int| 0 <= j < s.len() implies m.contains_key(
                        #[trigger] s[j].id,
                    ) && m[s[j].id] == s[j]@ by {
                        if j < i {
                            lemma_channel_at(old_s, j);
                            assert(s[j] == old_s[j]);
                        } else {
                            lemma_channel_at(old_s, j + 1);
                            assert(s[j] == old_s[j + 1]);
                        }
                    }
                    assert forall|k: VirtualChannelId| m.contains_key(k) implies exists|j: int|
                        0 <= j < s.len() && #[trigger] s[j].id == k by {
                        let j = choose|j: int| 0 <= j < old_s.len() && old_s[j].id == k;
                        if j < i {
                            assert(s[j].id == k);
                        } else {
                            assert(s[j - 1].id == k);
                        }
                    }
                    lemma_channel_map_eq(s, m);
                }
            },
            None => {
                assert(self@ =~= m);
            },
        }
    }

    /// The ids of the channels owned by `owner_id`.
    fn ids_owned_by(&self, owner_id: u64) -> (r: Vec<VirtualChannelId>)
        requires
            self.wf(),
        ensures
            forall|k: VirtualChannelId| #[trigger] r@.contains(k) ==> self@.contains_key(k) && k.owner_id == owner_id,
            forall|k: VirtualChannelId| self@.contains_key(k) && k.owner_id == owner_id ==> #[trigger] r@.contains(k),
    {
        let mut ids: Vec<VirtualChannelId> = Vec::new();
        let mut i: usize = 0;
        while i < self.channels.len()
            invariant
                self.wf(),
                i <= self.channels@.len(),
                forall|k: VirtualChannelId| #[trigger] ids@.contains(k) ==> self@.contains_key(k) && k.owner_id == owner_id,
                forall|j: int| 0 <= j < i && self.channels@[j].id.owner_id == owner_id ==> ids@.contains(#[trigger] self.channels@[j].id),
            decreases self.channels@.len() - i,
        {
            let id = self.channels[i].id;
            if id.owner_id == owner_id {
                proof {
                    lemma_channel_at(self.channels@, i as int);
                }
                let ghost before = ids@;
                ids.push(id);
                proof {
                    assert forall|k: VirtualChannelId| #[trigger] ids@.contains(k) implies before.contains(k) || k == id by {
                        let j = choose|j: int| 0 <= j < ids@.len() && ids@[j] == k;
                        if j < before.len() {
                            assert(before[j] == k);
                        }
                    }
                    assert(ids@[before.len() as int] == id);
                    assert forall|j: int| 0 <= j <= i && self.channels@[j].id.owner_id == owner_id implies ids@.contains(#[trigger] self.channels@[j].id) by {
                        if j < i {
                            let a = choose|a: int| 0 <= a < before.len() && before[a] == self.channels@[j].id;
                            assert(ids@[a] == before[a]);
                        }
                    }
                }
            }
            i += 1;
        }
        proof {
            assert forall|k: VirtualChannelId| self@.contains_key(k) && k.owner_id == owner_id implies #[trigger] ids@.contains(k) by {
                let j = choose|j: int| 0 <= j < self.channels@.len() && self.channels@[j].id == k;
            }
        }
        ids
    }

    /// Removes every channel owned by `owner_id`.
    pub fn remove_from_user(&mut self, owner_id: u64)
        requires
            old(self).wf(),
        ensures
            final(self).wf(),
            final(self)@ == without_owner(old(self)@, owner_id),
    {
        let ids = self.ids_owned_by(owner_id);
        let ghost m0 = self@;
        let mut i: usize = 0;
        while i < ids.len()
            invariant
                self.wf(),
                i <= ids@.len(),
                self@ == Map::new(
                    |k: VirtualChannelId| m0.contains_key(k) && !ids@.take(i as int).contains(k),
                    |k: VirtualChannelId| m0[k],
                ),
            decreases ids@.len() - i,
        {
            let ghost before = self@;
            self.remove(&ids[i]);
            proof {
                let next = ids@.take(i + 1);
                assert(next =~= ids@.take(i as int).push(ids@[i as int]));
                assert forall|k: VirtualChannelId| next.contains(k) <==> (ids@.take(i as int).contains(k) || k == ids@[i as int]) by {
                    if next.contains(k) {
                        let j = choose|j: int| 0 <= j < next.len() && next[j] == k;
                        if j < i {
                            assert(ids@.take(i as int)[j] == k);
                        }
                    }
                    if ids@.take(i as int).contains(k) {
                        let j = choose|j: int| 0 <= j < i && ids@.take(i as int)[j] == k;
                        assert(next[j] == k);
                    }
                    if k == ids@[i as int] {
                        assert(next[i as int] == k);
                    }
                }
                assert(self@ =~= Map::new(
                    |k: VirtualChannelId| m0.contains_key(k) && !next.contains(k),
                    |k: VirtualChannelId| m0[k],
                ));
            }
            i += 1;
        }
        proof {
            assert(ids@.take(ids@.len() as int) =~= ids@);
            assert(self@ =~= without_owner(m0, owner_id));
        }
    }
}

} // verus!
