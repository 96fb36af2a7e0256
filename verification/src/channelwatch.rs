//! The health inspector: the anomaly rules applied to every open channel.

use vstd::prelude::*;
use crate::channel::{is_inspected, GossipRecord, Htlc, PeerChannel, ShortChannelId};
use crate::gossip::{announcements, GossipIndex};
use crate::report::{
    lemma_record_all_keeps_form, lemma_record_all_split, record_all, update_slackers,
    well_formed, Event, PeerEntry, SlackerReport,
};
use crate::structs::Config;
use crate::text::{
    append_texts, concat2, concat3, contains, decimal, decimal_text, is_substring, join,
    join_text, lowercase_of, push_text, str_eq, to_lowercase, views_of,
};

verus! {

pub open spec fn error_status_text(line: Seq<char>) -> Seq<char> {
    "Found peer with error in status but not in closing state. Status: "@ + line
}

pub open spec fn fee_status_text(line: Seq<char>) -> Seq<char> {
    "Can't agree on fee. Status: "@ + line
}

pub open spec fn htlc_status_text(line: Seq<char>) -> Seq<char> {
    "Status: "@ + line
}

pub open spec fn lost_state_text() -> Seq<char> {
    "Lost state. Status: we are fallen behind i.e. lost some channel state"@
}

pub open spec fn disconnected_text(lines: Seq<Seq<char>>) -> Seq<char> {
    "Found disconnected peer that does not want to reconnect. Status instead is: "@ + join_text(
        lines,
        "\n"@,
    )
}

/// How a finding names a channel: by its short channel identifier, or by a
/// fixed word while it has none.
pub open spec fn channel_label(id: Option<ShortChannelId>) -> Seq<char> {
    match id {
        Some(id) => id.text(),
        None => "(unannounced)"@,
    }
}

pub open spec fn expiring_htlc_text(label: Seq<char>, blocks: nat) -> Seq<char> {
    "Found channel "@ + label + " with close to expiry htlc: "@ + decimal_text(blocks)
        + " blocks"@
}

pub open spec fn one_sided_text(label: Seq<char>) -> Seq<char> {
    "Found connected channel "@ + label + " with one-sided gossip"@
}

pub open spec fn inactive_text(label: Seq<char>) -> Seq<char> {
    "Found connected channel "@ + label + " with inactive gossip"@
}

pub open spec fn non_public_text(label: Seq<char>) -> Seq<char> {
    "Found public channel "@ + label + " with non-public gossip"@
}

pub open spec fn no_gossip_text(label: Seq<char>) -> Seq<char> {
    "Found channel "@ + label + " with no gossip"@
}

/// Writes the label of a channel.
pub fn label_of(id: Option<ShortChannelId>) -> (r: String)
    ensures
        r@ == channel_label(id),
{
    match id {
        Some(id) => id.to_text(),
        None => String::from_str("(unannounced)"),
    }
}

/// The findings that one status line gives, `lowered` being the line in
/// lower case: one for `error`, and with `detail` one each for `update_fee`
/// and `htlc`.
pub open spec fn line_findings(line: Seq<char>, lowered: Seq<char>, detail: bool) -> Seq<
    Seq<char>,
> {
    (if is_substring("error"@, lowered) {
        seq![error_status_text(line)]
    } else {
        Seq::empty()
    }) + (if detail && is_substring("update_fee"@, lowered) {
        seq![fee_status_text(line)]
    } else {
        Seq::empty()
    }) + (if detail && is_substring("htlc"@, lowered) {
        seq![htlc_status_text(line)]
    } else {
        Seq::empty()
    })
}

/// Whether a lowercased status line says that the node will reconnect by
/// itself.
pub open spec fn asks_reconnect(lowered: Seq<char>) -> bool {
    is_substring("will attempt reconnect"@, lowered)
}

/// The findings of all status lines, line by line.
pub open spec fn lines_findings(lines: Seq<Seq<char>>, detail: bool) -> Seq<Seq<char>>
    decreases lines.len(),
{
    if lines.len() == 0 {
        Seq::empty()
    } else {
        lines_findings(lines.drop_last(), detail) + line_findings(
            lines.last(),
            lowercase_of(lines.last()),
            detail,
        )
    }
}

pub open spec fn any_asks_reconnect(lines: Seq<Seq<char>>) -> bool {
    exists|i: int| 0 <= i < lines.len() && asks_reconnect(lowercase_of(#[trigger] lines[i]))
}

/// Status-line rule and disconnection rule. With the status watch off
/// neither speaks. Otherwise every line is scanned, with gossip-level detail
/// a lost channel state is reported too, and a peer that is disconnected,
/// does not announce a reconnect and gave no finding so far is reported with
/// all its status lines.
pub open spec fn status_findings(chan: PeerChannel, config: Config) -> Seq<Seq<char>> {
    if !config.watch_channels {
        Seq::empty()
    } else {
        let lines = views_of(chan.status@);
        let specific = lines_findings(lines, config.watch_gossip) + (if config.watch_gossip
            && chan.lost_state {
            seq![lost_state_text()]
        } else {
            Seq::empty()
        });
        if !chan.peer_connected && !any_asks_reconnect(lines) && specific.len() == 0 {
            seq![disconnected_text(lines)]
        } else {
            specific
        }
    }
}

/// Applies the status-line rule to one line whose lowercase form is
/// `lowered`.
pub fn status_line_findings(line: &str, lowered: &str, detail: bool) -> (found: Vec<String>)
    ensures
        views_of(found@) == line_findings(line@, lowered@, detail),
{
    let mut found: Vec<String> = Vec::new();
    if contains(lowered, "error") {
        push_text(
            &mut found,
            concat2("Found peer with error in status but not in closing state. Status: ", line),
        );
    }
    if detail && contains(lowered, "update_fee") {
        push_text(&mut found, concat2("Can't agree on fee. Status: ", line));
    }
    if detail && contains(lowered, "htlc") {
        push_text(&mut found, concat2("Status: ", line));
    }
    found
}

/// A line announces a reconnect among the first `i + 1` lines exactly when
/// one among the first `i` does or line `i` does.
proof fn lemma_reconnect_seen(lines: Seq<Seq<char>>, i: int)
    requires
        0 <= i < lines.len(),
    ensures
        any_asks_reconnect(lines.take(i + 1)) <==> any_asks_reconnect(lines.take(i))
            || asks_reconnect(lowercase_of(lines[i])),
{
    let shorter = lines.take(i);
    let longer = lines.take(i + 1);
    if any_asks_reconnect(shorter) {
        let k = choose|k: int|
            0 <= k < shorter.len() && asks_reconnect(lowercase_of(#[trigger] shorter[k]));
        assert(longer[k] == shorter[k]);
    }
    if asks_reconnect(lowercase_of(lines[i])) {
        assert(longer[i] == lines[i]);
    }
    if any_asks_reconnect(longer) {
        let k = choose|k: int|
            0 <= k < longer.len() && asks_reconnect(lowercase_of(#[trigger] longer[k]));
        if k < i {
            assert(shorter[k] == longer[k]);
        }
    }
}

/// Applies the status-line rule and the disconnection rule to a channel.
pub fn channel_status_findings(chan: &PeerChannel, config: &Config) -> (found: Vec<String>)
    ensures
        views_of(found@) == status_findings(*chan, *config),
{
    let mut found: Vec<String> = Vec::new();
    if !config.watch_channels {
        return found;
    }
    let ghost lines = views_of(chan.status@);
    let mut contained_reconnect = false;
    let mut i: usize = 0;
    while i < chan.status.len()
        invariant
            i <= chan.status.len(),
            lines == views_of(chan.status@),
            views_of(found@) == lines_findings(lines.take(i as int), config.watch_gossip),
            contained_reconnect == any_asks_reconnect(lines.take(i as int)),
        decreases chan.status.len() - i,
    {
        let line = chan.status[i].as_str();
        let lowered = to_lowercase(line);
        let more = status_line_findings(line, lowered.as_str(), config.watch_gossip);
        proof {
            let next = lines.take(i + 1);
            assert(next.drop_last() =~= lines.take(i as int));
            assert(next.last() == line@);
            lemma_reconnect_seen(lines, i as int);
        }
        append_texts(&mut found, more);
        if contains(lowered.as_str(), "will attempt reconnect") {
            contained_reconnect = true;
        }
        i += 1;
    }
    assert(lines.take(chan.status.len() as int) =~= lines);
    if config.watch_gossip && chan.lost_state {
        push_text(
            &mut found,
            String::from_str(
                "Lost state. Status: we are fallen behind i.e. lost some channel state",
            ),
        );
    }
    if !chan.peer_connected && !contained_reconnect && found.len() == 0 {
        let block = join(&chan.status, "\n");
        push_text(
            &mut found,
            concat2(
                "Found disconnected peer that does not want to reconnect. Status instead is: ",
                block.as_str(),
            ),
        );
    }
    found
}

/// Blocks left until `expiry`, zero once it has passed.
pub open spec fn blocks_left(expiry: u32, height: u32) -> nat {
    if expiry > height {
        (expiry - height) as nat
    } else {
        0
    }
}

/// An HTLC is expiring when fewer than `threshold` blocks are left, an
/// expired one always.
pub open spec fn is_expiring(htlc: Htlc, height: u32, threshold: u32) -> bool {
    htlc.expiry - height < threshold
}

/// One finding for each expiring HTLC, in the order of the HTLCs.
pub open spec fn htlc_findings(label: Seq<char>, htlcs: Seq<Htlc>, height: u32, threshold: u32) -> Seq<
    Seq<char>,
> {
    htlcs.filter(|h: Htlc| is_expiring(h, height, threshold)).map_values(
        |h: Htlc| expiring_htlc_text(label, blocks_left(h.expiry, height)),
    )
}

/// Expiring-HTLC rule: off while the threshold is zero.
pub open spec fn expiry_findings(chan: PeerChannel, config: Config, height: u32) -> Seq<Seq<char>> {
    if config.expiring_htlcs > 0 {
        htlc_findings(
            channel_label(chan.short_channel_id),
            chan.htlcs@,
            height,
            config.expiring_htlcs,
        )
    } else {
        Seq::empty()
    }
}

/// Applies the expiring-HTLC rule to a channel.
pub fn channel_expiry_findings(chan: &PeerChannel, config: &Config, current_blockheight: u32) -> (found:
    Vec<String>)
    ensures
        views_of(found@) == expiry_findings(*chan, *config, current_blockheight),
{
    let mut found: Vec<String> = Vec::new();
    let threshold = config.expiring_htlcs;
    if threshold == 0 {
        return found;
    }
    let label = label_of(chan.short_channel_id);
    let ghost htlcs = chan.htlcs@;
    let mut i: usize = 0;
    proof {
        reveal(Seq::filter);
    }
    while i < chan.htlcs.len()
        invariant
            i <= chan.htlcs.len(),
            htlcs == chan.htlcs@,
            threshold > 0,
            views_of(found@) == htlc_findings(
                label@,
                htlcs.take(i as int),
                current_blockheight,
                threshold,
            ),
        decreases chan.htlcs.len() - i,
    {
        let expiry = chan.htlcs[i].expiry;
        let left: u32 = if expiry > current_blockheight {
            expiry - current_blockheight
        } else {
            0
        };
        proof {
            reveal(Seq::filter);
            assert(htlcs.take(i + 1).drop_last() =~= htlcs.take(i as int));
        }
        if left < threshold {
            let mut text = concat3(
                "Found channel ",
                label.as_str(),
                " with close to expiry htlc: ",
            );
            text.append(decimal(left as u64).as_str());
            text.append(" blocks");
            push_text(&mut found, text);
        }
        i += 1;
    }
    assert(htlcs.take(chan.htlcs.len() as int) =~= htlcs);
    found
}

/// The number of channels that the gossip index must exceed on `network`
/// before the gossip rule may speak: many on the production network, few on
/// test networks. A regression network has no floor.
pub open spec fn gossip_floor(network: Seq<char>) -> Option<nat> {
    if network == "regtest"@ {
        None
    } else if network == "bitcoin"@ {
        Some(20_000)
    } else {
        Some(100)
    }
}

/// The index is warm when it holds more channels than the floor of its
/// network, and always where there is no floor.
pub open spec fn is_warm(index: Map<u64, Seq<GossipRecord>>, network: Seq<char>) -> bool {
    match gossip_floor(network) {
        Some(floor) => index.dom().len() > floor,
        None => true,
    }
}

/// The findings that one announcement gives: one if it is inactive, one if
/// it is not public although the channel is.
pub open spec fn record_findings(label: Seq<char>, private: bool, record: GossipRecord) -> Seq<
    Seq<char>,
> {
    (if !record.active {
        seq![inactive_text(label)]
    } else {
        Seq::empty()
    }) + (if !private && !record.public {
        seq![non_public_text(label)]
    } else {
        Seq::empty()
    })
}

pub open spec fn records_findings(label: Seq<char>, private: bool, records: Seq<GossipRecord>) -> Seq<
    Seq<char>,
>
    decreases records.len(),
{
    if records.len() == 0 {
        Seq::empty()
    } else {
        records_findings(label, private, records.drop_last()) + record_findings(
            label,
            private,
            records.last(),
        )
    }
}

/// What the announcements of a channel give: a channel without any has no
/// gossip, one with a single announcement has one-sided gossip, and with
/// more each announcement is judged by itself.
pub open spec fn announcement_findings(
    label: Seq<char>,
    private: bool,
    records: Seq<GossipRecord>,
) -> Seq<Seq<char>> {
    if records.len() == 0 {
        seq![no_gossip_text(label)]
    } else if records.len() == 1 {
        seq![one_sided_text(label)]
    } else {
        records_findings(label, private, records)
    }
}

/// Gossip-consistency rule: speaks only with the gossip watch on, an index
/// at hand, the peer connected, the index warm and the channel identified.
pub open spec fn gossip_findings(
    chan: PeerChannel,
    config: Config,
    network: Seq<char>,
    gossip: Option<Map<u64, Seq<GossipRecord>>>,
) -> Seq<Seq<char>> {
    match (gossip, chan.short_channel_id) {
        (Some(index), Some(id)) => if config.watch_gossip && chan.peer_connected && is_warm(
            index,
            network,
        ) {
            announcement_findings(id.text(), chan.private, announcements(index, id.value))
        } else {
            Seq::empty()
        },
        _ => Seq::empty(),
    }
}

/// The view of an index that may be missing.
pub open spec fn index_view(gossip: Option<GossipIndex>) -> Option<Map<u64, Seq<GossipRecord>>> {
    match gossip {
        Some(index) => Some(index@),
        None => None,
    }
}

/// The floor of the gossip index on `network`, if it has one.
pub fn network_gossip_floor(network: &str) -> (floor: Option<usize>)
    ensures
        match floor {
            Some(n) => gossip_floor(network@) == Some(n as nat),
            None => gossip_floor(network@) is None,
        },
{
    if str_eq(network, "regtest") {
        None
    } else if str_eq(network, "bitcoin") {
        Some(20_000)
    } else {
        Some(100)
    }
}

/// Judges the announcements found for a channel.
pub fn judge_announcements(label: &str, private: bool, records: &Vec<GossipRecord>) -> (found: Vec<
    String,
>)
    ensures
        views_of(found@) == announcement_findings(label@, private, records@),
{
    let mut found: Vec<String> = Vec::new();
    if records.len() == 0 {
        push_text(&mut found, concat3("Found channel ", label, " with no gossip"));
        return found;
    }
    if records.len() == 1 {
        push_text(&mut found, concat3("Found connected channel ", label, " with one-sided gossip"));
        return found;
    }
    let mut i: usize = 0;
    while i < records.len()
        invariant
            i <= records.len(),
            views_of(found@) == records_findings(label@, private, records@.take(i as int)),
        decreases records.len() - i,
    {
        proof {
            let next = records@.take(i + 1);
            assert(next.drop_last() =~= records@.take(i as int));
        }
        if !records[i].active {
            push_text(
                &mut found,
                concat3("Found connected channel ", label, " with inactive gossip"),
            );
        }
        if !private && !records[i].public {
            push_text(
                &mut found,
                concat3("Found public channel ", label, " with non-public gossip"),
            );
        }
        i += 1;
    }
    assert(records@.take(records.len() as int) =~= records@);
    found
}

/// Applies the gossip-consistency rule to a channel.
pub fn channel_gossip_findings(
    chan: &PeerChannel,
    config: &Config,
    network: &str,
    gossip: &Option<GossipIndex>,
) -> (found: Vec<String>)
    ensures
        views_of(found@) == gossip_findings(*chan, *config, network@, index_view(*gossip)),
{
    let none: Vec<String> = Vec::new();
    match (gossip, chan.short_channel_id) {
        (Some(index), Some(id)) => {
            if !config.watch_gossip || !chan.peer_connected {
                return none;
            }
            match network_gossip_floor(network) {
                Some(floor) => {
                    if index.len() <= floor {
                        return none;
                    }
                },
                None => {},
            }
            let label = id.to_text();
            let absent: Vec<GossipRecord> = Vec::new();
            match index.get(id) {
                Some(records) => judge_announcements(label.as_str(), chan.private, records),
                None => judge_announcements(label.as_str(), chan.private, &absent),
            }
        },
        _ => none,
    }
}

/// Everything the rules find on one channel: nothing unless the channel is
/// in normal operation or waiting for a splice, else the findings of the
/// status, expiry and gossip rules in this order.
pub open spec fn channel_findings(
    chan: PeerChannel,
    config: Config,
    height: u32,
    network: Seq<char>,
    gossip: Option<Map<u64, Seq<GossipRecord>>>,
) -> Seq<Seq<char>> {
    if is_inspected(chan.state) {
        status_findings(chan, config) + expiry_findings(chan, config, height) + gossip_findings(
            chan,
            config,
            network,
            gossip,
        )
    } else {
        Seq::empty()
    }
}

/// Applies all rules to one channel.
pub fn inspect_channel(
    chan: &PeerChannel,
    config: &Config,
    current_blockheight: u32,
    network: &str,
    gossip: &Option<GossipIndex>,
) -> (found: Vec<String>)
    ensures
        views_of(found@) == channel_findings(
            *chan,
            *config,
            current_blockheight,
            network@,
            index_view(*gossip),
        ),
{
    if !chan.is_inspected() {
        let none: Vec<String> = Vec::new();
        return none;
    }
    let mut found = channel_status_findings(chan, config);
    append_texts(&mut found, channel_expiry_findings(chan, config, current_blockheight));
    append_texts(&mut found, channel_gossip_findings(chan, config, network, gossip));
    found
}

/// The findings of one channel, each with the channel's peer.
pub open spec fn channel_events(
    chan: PeerChannel,
    config: Config,
    height: u32,
    network: Seq<char>,
    gossip: Option<Map<u64, Seq<GossipRecord>>>,
) -> Seq<Event> {
    channel_findings(chan, config, height, network, gossip).map_values(
        |text: Seq<char>| Event { peer: chan.peer_id@, text },
    )
}

/// The findings of a whole snapshot in order of discovery: channel by
/// channel, and within a channel rule by rule.
pub open spec fn inspection_events(
    channels: Seq<PeerChannel>,
    config: Config,
    height: u32,
    network: Seq<char>,
    gossip: Option<Map<u64, Seq<GossipRecord>>>,
) -> Seq<Event>
    decreases channels.len(),
{
    if channels.len() == 0 {
        Seq::empty()
    } else {
        inspection_events(channels.drop_last(), config, height, network, gossip) + channel_events(
            channels.last(),
            config,
            height,
            network,
            gossip,
        )
    }
}

/// The report of one inspection pass over a snapshot.
pub open spec fn inspection(
    channels: Seq<PeerChannel>,
    config: Config,
    height: u32,
    network: Seq<char>,
    gossip: Option<Map<u64, Seq<GossipRecord>>>,
) -> Seq<PeerEntry> {
    record_all(Seq::empty(), inspection_events(channels, config, height, network, gossip))
}

/// Inspects every channel of the snapshot and adds what the rules find to
/// `peer_slackers`, under the channel's peer and in order of discovery.
pub fn check_slackers(
    channels: &Vec<PeerChannel>,
    config: &Config,
    peer_slackers: &mut SlackerReport,
    current_blockheight: u32,
    network: &str,
    gossip: &Option<GossipIndex>,
)
    ensures
        final(peer_slackers)@ == record_all(
            old(peer_slackers)@,
            inspection_events(
                channels@,
                *config,
                current_blockheight,
                network@,
                index_view(*gossip),
            ),
        ),
{
    let ghost start = peer_slackers@;
    let ghost index = index_view(*gossip);
    let mut i: usize = 0;
    while i < channels.len()
        invariant
            i <= channels.len(),
            index == index_view(*gossip),
            peer_slackers@ == record_all(
                start,
                inspection_events(
                    channels@.take(i as int),
                    *config,
                    current_blockheight,
                    network@,
                    index,
                ),
            ),
        decreases channels.len() - i,
    {
        let chan = &channels[i];
        let found = inspect_channel(chan, config, current_blockheight, network, gossip);
        let ghost earlier = inspection_events(
            channels@.take(i as int),
            *config,
            current_blockheight,
            network@,
            index,
        );
        let ghost events = channel_events(*chan, *config, current_blockheight, network@, index);
        let mut j: usize = 0;
        while j < found.len()
            invariant
                j <= found.len(),
                events.len() == found.len(),
                forall|k: int|
                    0 <= k < events.len() ==> (#[trigger] events[k]) == (Event {
                        peer: chan.peer_id@,
                        text: found@[k]@,
                    }),
                peer_slackers@ == record_all(record_all(start, earlier), events.take(j as int)),
            decreases found.len() - j,
        {
            proof {
                assert(events.take(j + 1).drop_last() =~= events.take(j as int));
            }
            update_slackers(peer_slackers, chan.peer_id.clone(), found[j].clone());
            j += 1;
        }
        proof {
            assert(events.take(found.len() as int) =~= events);
            lemma_record_all_split(start, earlier, events);
            assert(channels@.take(i + 1).drop_last() =~= channels@.take(i as int));
        }
        i += 1;
    }
    proof {
        assert(channels@.take(channels.len() as int) =~= channels@);
    }
}

/// One inspection pass: a fresh report of everything the rules find on the
/// snapshot.
pub fn inspect(
    channels: &Vec<PeerChannel>,
    config: &Config,
    current_blockheight: u32,
    network: &str,
    gossip: &Option<GossipIndex>,
) -> (report: SlackerReport)
    ensures
        report@ == inspection(
            channels@,
            *config,
            current_blockheight,
            network@,
            index_view(*gossip),
        ),
{
    let mut report = SlackerReport::new();
    check_slackers(channels, config, &mut report, current_blockheight, network, gossip);
    report
}

/// A channel that is neither in normal operation nor waiting for a splice
/// gives no finding, whatever its other fields hold.
pub proof fn law_state_filter(
    chan: PeerChannel,
    config: Config,
    height: u32,
    network: Seq<char>,
    gossip: Option<Map<u64, Seq<GossipRecord>>>,
)
    requires
        !is_inspected(chan.state),
    ensures
        channel_findings(chan, config, height, network, gossip) == Seq::<Seq<char>>::empty(),
        channel_events(chan, config, height, network, gossip) == Seq::<Event>::empty(),
{
}

/// A snapshot without a channel in normal operation or waiting for a splice
/// gives an empty report.
pub proof fn law_state_filter_snapshot(
    channels: Seq<PeerChannel>,
    config: Config,
    height: u32,
    network: Seq<char>,
    gossip: Option<Map<u64, Seq<GossipRecord>>>,
)
    requires
        forall|i: int| 0 <= i < channels.len() ==> !is_inspected((#[trigger] channels[i]).state),
    ensures
        inspection_events(channels, config, height, network, gossip) == Seq::<Event>::empty(),
        inspection(channels, config, height, network, gossip) == Seq::<PeerEntry>::empty(),
    decreases channels.len(),
{
    if channels.len() > 0 {
        let rest = channels.drop_last();
        assert forall|i: int| 0 <= i < rest.len() implies !is_inspected(
            (#[trigger] rest[i]).state,
        ) by {}
        law_state_filter_snapshot(rest, config, height, network, gossip);
        law_state_filter(channels.last(), config, height, network, gossip);
    }
}

/// With the expiry watch on, the rule gives exactly one finding for each
/// HTLC with fewer blocks left than the threshold, in their order and each
/// naming the blocks left, and none for any other HTLC.
pub proof fn law_one_finding_per_expiring_htlc(chan: PeerChannel, config: Config, height: u32)
    requires
        config.expiring_htlcs > 0,
    ensures
        ({
            let expiring = chan.htlcs@.filter(
                |h: Htlc| h.expiry - height < config.expiring_htlcs,
            );
            let found = expiry_findings(chan, config, height);
            &&& found.len() == expiring.len()
            &&& forall|k: int|
                0 <= k < found.len() ==> #[trigger] found[k] == expiring_htlc_text(
                    channel_label(chan.short_channel_id),
                    blocks_left(expiring[k].expiry, height),
                )
        }),
        (forall|i: int|
            0 <= i < chan.htlcs@.len() ==> (#[trigger] chan.htlcs@[i]).expiry - height
                >= config.expiring_htlcs) ==> expiry_findings(chan, config, height).len() == 0,
{
    let pred = |h: Htlc| is_expiring(h, height, config.expiring_htlcs);
    let plain = |h: Htlc| h.expiry - height < config.expiring_htlcs;
    assert(pred =~= plain);
    if forall|i: int|
        0 <= i < chan.htlcs@.len() ==> (#[trigger] chan.htlcs@[i]).expiry - height
            >= config.expiring_htlcs {
        lemma_nothing_passes(chan.htlcs@, pred);
    }
}

/// A filter that no element passes leaves nothing.
proof fn lemma_nothing_passes(htlcs: Seq<Htlc>, pred: spec_fn(Htlc) -> bool)
    requires
        forall|i: int| 0 <= i < htlcs.len() ==> !pred(#[trigger] htlcs[i]),
    ensures
        htlcs.filter(pred) == Seq::<Htlc>::empty(),
    decreases htlcs.len(),
{
    reveal(Seq::filter);
    if htlcs.len() > 0 {
        let rest = htlcs.drop_last();
        assert forall|i: int| 0 <= i < rest.len() implies !pred(#[trigger] rest[i]) by {
            assert(rest[i] == htlcs[i]);
        }
        assert(!pred(htlcs[htlcs.len() - 1]));
        lemma_nothing_passes(rest, pred);
    }
}

/// While the gossip index does not hold more channels than the floor of
/// its network, the gossip rule gives no finding, whatever the index holds.
pub proof fn law_cold_index_is_silent(
    chan: PeerChannel,
    config: Config,
    network: Seq<char>,
    index: Map<u64, Seq<GossipRecord>>,
)
    requires
        gossip_floor(network) matches Some(floor) && index.dom().len() <= floor,
    ensures
        gossip_findings(chan, config, network, Some(index)) == Seq::<Seq<char>>::empty(),
{
}

/// What the gossip rule gives once it speaks: for a channel without
/// announcements exactly the finding of no gossip, for one announcement
/// exactly the finding of one-sided gossip, and for two announcements one
/// finding for each violated property of each announcement.
pub proof fn law_gossip_cases(
    chan: PeerChannel,
    config: Config,
    network: Seq<char>,
    index: Map<u64, Seq<GossipRecord>>,
)
    requires
        config.watch_gossip,
        chan.peer_connected,
        is_warm(index, network),
        chan.short_channel_id is Some,
    ensures
        ({
            let id = chan.short_channel_id->0;
            let label = id.text();
            let records = announcements(index, id.value);
            let found = gossip_findings(chan, config, network, Some(index));
            &&& records.len() == 0 ==> found == seq![no_gossip_text(label)]
            &&& records.len() == 1 ==> found == seq![one_sided_text(label)]
            &&& records.len() == 2 ==> found == record_findings(label, chan.private, records[0])
                + record_findings(label, chan.private, records[1])
            &&& forall|r: GossipRecord|
                (#[trigger] record_findings(label, chan.private, r)).len() == (if !r.active {
                    1nat
                } else {
                    0nat
                }) + (if !chan.private && !r.public {
                    1nat
                } else {
                    0nat
                })
        }),
{
    let id = chan.short_channel_id->0;
    let label = id.text();
    let records = announcements(index, id.value);
    if records.len() == 2 {
        let first = records.drop_last();
        assert(records_findings(label, chan.private, first.drop_last()) =~= Seq::<
            Seq<char>,
        >::empty());
        assert(records_findings(label, chan.private, first) =~= record_findings(
            label,
            chan.private,
            records[0],
        ));
    }
}

/// The report of a pass is empty exactly when the rules found nothing, and
/// it never holds a peer twice or a peer without a finding.
pub proof fn law_report_empty_iff_nothing_found(
    channels: Seq<PeerChannel>,
    config: Config,
    height: u32,
    network: Seq<char>,
    gossip: Option<Map<u64, Seq<GossipRecord>>>,
)
    ensures
        inspection(channels, config, height, network, gossip).len() == 0 <==> inspection_events(
            channels,
            config,
            height,
            network,
            gossip,
        ).len() == 0,
        well_formed(inspection(channels, config, height, network, gossip)),
{
    lemma_record_all_keeps_form(
        Seq::empty(),
        inspection_events(channels, config, height, network, gossip),
    );
}

} // verus!
