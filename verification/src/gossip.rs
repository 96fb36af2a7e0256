//! The gossip index: every announcement the node knows, grouped by channel.

use vstd::prelude::*;
use std::collections::HashMap;
use crate::channel::{GossipRecord, ShortChannelId};

verus! {

broadcast use vstd::std_specs::hash::group_hash_axioms;

/// The announcements among `records` that are about channel `id`, in the
/// order in which they were listed.
pub open spec fn records_about(records: Seq<GossipRecord>, id: u64) -> Seq<GossipRecord> {
    records.filter(|r: GossipRecord| r.short_channel_id.value == id)
}

pub open spec fn is_announced(records: Seq<GossipRecord>, id: u64) -> bool {
    exists|i: int| 0 <= i < records.len() && (#[trigger] records[i]).short_channel_id.value == id
}

/// The index of `records`: each announced channel with all its
/// announcements, duplicates included.
pub open spec fn gossip_index(records: Seq<GossipRecord>) -> Map<u64, Seq<GossipRecord>> {
    Map::new(|id: u64| is_announced(records, id), |id: u64| records_about(records, id))
}

/// What the index holds for `id`: its announcements, none if the channel is
/// not in the index.
pub open spec fn announcements(index: Map<u64, Seq<GossipRecord>>, id: u64) -> Seq<GossipRecord> {
    if index.contains_key(id) {
        index[id]
    } else {
        Seq::empty()
    }
}

/// Channel announcements by short channel identifier.
pub struct GossipIndex {
    map: HashMap<u64, Vec<GossipRecord>>,
}

impl View for GossipIndex {
    type V = Map<u64, Seq<GossipRecord>>;

    closed spec fn view(&self) -> Map<u64, Seq<GossipRecord>> {
        self.map@.map_values(|v: Vec<GossipRecord>| v@)
    }
}

impl GossipIndex {
    pub fn new() -> (index: GossipIndex)
        ensures
            index@ == Map::<u64, Seq<GossipRecord>>::empty(),
    {
        let index = GossipIndex { map: HashMap::new() };
        index
    }

    /// The number of channels in the index.
    pub fn len(&self) -> (n: usize)
        ensures
            self@.dom().finite(),
            n == self@.dom().len(),
    {
        assert(self@.dom() =~= self.map@.dom());
        self.map.len()
    }

    /// The announcements of channel `id`.
    pub fn get(&self, id: ShortChannelId) -> (r: Option<&Vec<GossipRecord>>)
        ensures
            match r {
                Some(v) => self@.contains_key(id.value) && v@ == self@[id.value],
                None => !self@.contains_key(id.value),
            },
    {
        let key = id.value;
        self.map.get(&key)
    }

    /// Files one more announcement under its channel.
    pub fn add(&mut self, record: GossipRecord)
        ensures
            final(self)@ == old(self)@.insert(
                record.short_channel_id.value,
                announcements(old(self)@, record.short_channel_id.value).push(record),
            ),
    {
        let key = record.short_channel_id.value;
        let mut list = match self.map.remove(&key) {
            Some(list) => list,
            None => Vec::new(),
        };
        list.push(record);
        self.map.insert(key, list);
    }
}

/// Adding a record to the listed ones adds it to the index.
proof fn lemma_index_grows(records: Seq<GossipRecord>, record: GossipRecord)
    ensures
        gossip_index(records.push(record)) == gossip_index(records).insert(
            record.short_channel_id.value,
            announcements(gossip_index(records), record.short_channel_id.value).push(record),
        ),
{
    let key = record.short_channel_id.value;
    let grown = records.push(record);
    let left = gossip_index(grown);
    let right = gossip_index(records).insert(
        key,
        announcements(gossip_index(records), key).push(record),
    );
    reveal(Seq::filter);
    assert(grown.drop_last() =~= records);
    assert forall|id: u64| left.contains_key(id) <==> right.contains_key(id) by {
        if is_announced(records, id) {
            let i = choose|i: int|
                0 <= i < records.len() && (#[trigger] records[i]).short_channel_id.value == id;
            assert(grown[i].short_channel_id.value == id);
        }
        if is_announced(grown, id) && id != key {
            let i = choose|i: int|
                0 <= i < grown.len() && (#[trigger] grown[i]).short_channel_id.value == id;
            assert(records[i].short_channel_id.value == id);
        }
        if id == key {
            assert(grown[records.len() as int].short_channel_id.value == id);
        }
    }
    assert forall|id: u64| left.contains_key(id) implies left[id] == right[id] by {
        if id == key {
            if !is_announced(records, id) {
                lemma_no_records_about(records, id);
            }
        }
    }
    assert(left =~= right);
}

proof fn lemma_no_records_about(records: Seq<GossipRecord>, id: u64)
    requires
        !is_announced(records, id),
    ensures
        records_about(records, id) == Seq::<GossipRecord>::empty(),
    decreases records.len(),
{
    reveal(Seq::filter);
    if records.len() > 0 {
        let rest = records.drop_last();
        assert(records.last().short_channel_id.value != id) by {
            assert(records[records.len() - 1].short_channel_id.value != id);
        }
        assert forall|i: int| 0 <= i < rest.len() implies (#[trigger] rest[i]).short_channel_id.value
            != id by {
            assert(records[i].short_channel_id.value != id);
        }
        lemma_no_records_about(rest, id);
    }
}

/// Groups all channel announcements by short channel identifier. Nothing is
/// filtered out and the announcements of a channel keep their order.
pub fn get_gossip_map(channels: &Vec<GossipRecord>) -> (index: GossipIndex)
    ensures
        index@ == gossip_index(channels@),
{
    let mut index = GossipIndex::new();
    let mut i: usize = 0;
    while i < channels.len()
        invariant
            i <= channels.len(),
            index@ == gossip_index(channels@.take(i as int)),
        decreases channels.len() - i,
    {
        proof {
            lemma_index_grows(channels@.take(i as int), channels@[i as int]);
            assert(channels@.take(i as int).push(channels@[i as int]) =~= channels@.take(i + 1));
        }
        index.add(channels[i]);
        i += 1;
    }
    proof {
        assert(channels@.take(channels.len() as int) =~= channels@);
    }
    index
}

} // verus!
