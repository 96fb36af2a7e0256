use vitality::channel::{GossipRecord, ShortChannelId};
use vitality::gossip::{get_gossip_map, GossipIndex};

fn rec(id: u64, active: bool, public: bool) -> GossipRecord {
    GossipRecord { short_channel_id: ShortChannelId::from_u64(id), active, public }
}

#[test]
fn index_groups_by_channel_and_keeps_duplicates() {
    let records = vec![
        rec(1, true, true),
        rec(2, false, true),
        rec(1, false, false),
        rec(3, true, false),
        rec(1, true, true),
    ];
    let index = get_gossip_map(&records);
    assert_eq!(index.len(), 3);
    assert_eq!(
        index.get(ShortChannelId::from_u64(1)),
        Some(&vec![rec(1, true, true), rec(1, false, false), rec(1, true, true)])
    );
    assert_eq!(index.get(ShortChannelId::from_u64(2)), Some(&vec![rec(2, false, true)]));
    assert_eq!(index.get(ShortChannelId::from_u64(3)), Some(&vec![rec(3, true, false)]));
    assert_eq!(index.get(ShortChannelId::from_u64(4)), None);
}

#[test]
fn empty_listing_gives_empty_index() {
    let index = get_gossip_map(&Vec::new());
    assert_eq!(index.len(), 0);
    assert_eq!(index.get(ShortChannelId::from_u64(0)), None);
}

#[test]
fn add_files_a_record_under_its_channel() {
    let mut index = GossipIndex::new();
    index.add(rec(9, true, false));
    index.add(rec(9, false, false));
    assert_eq!(index.len(), 1);
    assert_eq!(
        index.get(ShortChannelId::from_u64(9)),
        Some(&vec![rec(9, true, false), rec(9, false, false)])
    );
}
