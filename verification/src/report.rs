//! The report of one inspection pass: findings per peer, in order of
//! discovery.

use vstd::prelude::*;
use crate::text::{str_eq, views_of};

verus! {

/// The findings collected for one peer.
pub struct PeerEntry {
    pub peer: Seq<char>,
    pub findings: Seq<Seq<char>>,
}

/// A finding together with the peer it is about.
pub struct Event {
    pub peer: Seq<char>,
    pub text: Seq<char>,
}

pub open spec fn has_peer(report: Seq<PeerEntry>, peer: Seq<char>) -> bool {
    exists|i: int| 0 <= i < report.len() && (#[trigger] report[i]).peer == peer
}

/// The findings of `peer`, empty when the report does not hold the peer.
pub open spec fn findings_of(report: Seq<PeerEntry>, peer: Seq<char>) -> Seq<Seq<char>>
    decreases report.len(),
{
    if report.len() == 0 {
        Seq::empty()
    } else if report[0].peer == peer {
        report[0].findings
    } else {
        findings_of(report.drop_first(), peer)
    }
}

/// The report after one more finding for `peer`: appended to the peer's
/// findings if the peer is already there, else a new last entry.
pub open spec fn record(report: Seq<PeerEntry>, peer: Seq<char>, text: Seq<char>) -> Seq<
    PeerEntry,
>
    decreases report.len(),
{
    if report.len() == 0 {
        seq![PeerEntry { peer, findings: seq![text] }]
    } else if report[0].peer == peer {
        report.update(0, PeerEntry { peer, findings: report[0].findings.push(text) })
    } else {
        seq![report[0]] + record(report.drop_first(), peer, text)
    }
}

/// The report after all of `events`, one after the other.
pub open spec fn record_all(report: Seq<PeerEntry>, events: Seq<Event>) -> Seq<PeerEntry>
    decreases events.len(),
{
    if events.len() == 0 {
        report
    } else {
        record(record_all(report, events.drop_last()), events.last().peer, events.last().text)
    }
}

/// No peer has two entries and every entry holds a finding.
pub open spec fn well_formed(report: Seq<PeerEntry>) -> bool {
    &&& forall|i: int, j: int|
        0 <= i < j < report.len() ==> (#[trigger] report[i]).peer != (#[trigger] report[j]).peer
    &&& forall|i: int| 0 <= i < report.len() ==> (#[trigger] report[i]).findings.len() > 0
}

/// Where `record` puts the finding when the first `at` entries are other
/// peers.
pub proof fn lemma_record_at(report: Seq<PeerEntry>, peer: Seq<char>, text: Seq<char>, at: int)
    requires
        0 <= at <= report.len(),
        forall|k: int| 0 <= k < at ==> (#[trigger] report[k]).peer != peer,
        at < report.len() ==> report[at].peer == peer,
    ensures
        at < report.len() ==> record(report, peer, text) == report.update(
            at,
            PeerEntry { peer, findings: report[at].findings.push(text) },
        ),
        at == report.len() ==> record(report, peer, text) == report.push(
            PeerEntry { peer, findings: seq![text] },
        ),
    decreases at,
{
    if at > 0 {
        let rest = report.drop_first();
        assert forall|k: int| 0 <= k < at - 1 implies (#[trigger] rest[k]).peer != peer by {}
        lemma_record_at(rest, peer, text, at - 1);
    }
}

/// `record` keeps the peers distinct and every entry non-empty, keeps the
/// peers that were there in their places, and holds `peer` afterwards.
pub proof fn lemma_record_keeps_form(report: Seq<PeerEntry>, peer: Seq<char>, text: Seq<char>)
    requires
        well_formed(report),
    ensures
        well_formed(record(report, peer, text)),
        has_peer(record(report, peer, text), peer),
        record(report, peer, text).len() == if has_peer(report, peer) {
            report.len()
        } else {
            report.len() + 1
        },
        forall|i: int|
            0 <= i < report.len() ==> (#[trigger] record(report, peer, text)[i]).peer
                == report[i].peer,
{
    let at = first_position(report, peer, 0);
    lemma_first_position(report, peer, 0);
    lemma_record_at(report, peer, text, at);
    let after = record(report, peer, text);
    if at < report.len() {
        assert(after[at].peer == peer);
    } else {
        assert(after[report.len() as int].peer == peer);
        assert forall|i: int, j: int| 0 <= i < j < after.len() implies (#[trigger] after[i]).peer
            != (#[trigger] after[j]).peer by {}
    }
}

proof fn lemma_first_position(report: Seq<PeerEntry>, peer: Seq<char>, from: int)
    requires
        0 <= from <= report.len(),
    ensures
        from <= first_position(report, peer, from) <= report.len(),
        forall|k: int|
            from <= k < first_position(report, peer, from) ==> (#[trigger] report[k]).peer != peer,
        first_position(report, peer, from) < report.len() ==> report[first_position(
            report,
            peer,
            from,
        )].peer == peer,
    decreases report.len() - from,
{
    if from < report.len() && report[from].peer != peer {
        lemma_first_position(report, peer, from + 1);
    }
}

/// The first position from `from` on at which `peer` stands, or the length
/// of the report.
pub open spec fn first_position(report: Seq<PeerEntry>, peer: Seq<char>, from: int) -> int
    decreases report.len() - from,
{
    if from < 0 || from >= report.len() {
        report.len() as int
    } else if report[from].peer == peer {
        from
    } else {
        first_position(report, peer, from + 1)
    }
}

/// Recording two runs of events one after the other is recording their
/// concatenation.
pub proof fn lemma_record_all_split(report: Seq<PeerEntry>, first: Seq<Event>, second: Seq<Event>)
    ensures
        record_all(report, first + second) == record_all(record_all(report, first), second),
    decreases second.len(),
{
    if second.len() > 0 {
        assert((first + second).drop_last() =~= first + second.drop_last());
        lemma_record_all_split(report, first, second.drop_last());
    }
}

/// Recording keeps a report well formed, and a report that took a finding
/// is not empty.
pub proof fn lemma_record_all_keeps_form(report: Seq<PeerEntry>, events: Seq<Event>)
    requires
        well_formed(report),
    ensures
        well_formed(record_all(report, events)),
        events.len() == 0 ==> record_all(report, events) == report,
        events.len() > 0 ==> record_all(report, events).len() > 0,
    decreases events.len(),
{
    if events.len() > 0 {
        lemma_record_all_keeps_form(report, events.drop_last());
        lemma_record_keeps_form(
            record_all(report, events.drop_last()),
            events.last().peer,
            events.last().text,
        );
    }
}

/// A finding is only ever appended: recording one for `peer` puts it after
/// the findings that `peer` had, and leaves the findings of every other peer
/// as they were.
pub proof fn law_findings_only_grow(
    report: Seq<PeerEntry>,
    peer: Seq<char>,
    text: Seq<char>,
    other: Seq<char>,
)
    ensures
        findings_of(record(report, peer, text), peer) == findings_of(report, peer).push(text),
        other != peer ==> findings_of(record(report, peer, text), other) == findings_of(
            report,
            other,
        ),
    decreases report.len(),
{
    let after = record(report, peer, text);
    if report.len() == 0 {
        assert(after.drop_first() =~= report);
    } else if report[0].peer == peer {
        assert(after.drop_first() =~= report.drop_first());
    } else {
        let rest = record(report.drop_first(), peer, text);
        let after = seq![report[0]] + rest;
        assert(after.drop_first() =~= rest);
        law_findings_only_grow(report.drop_first(), peer, text, other);
    }
}

/// The findings of one peer, as the report stores them.
pub struct PeerFindings {
    pub peer: String,
    pub findings: Vec<String>,
}

impl View for PeerFindings {
    type V = PeerEntry;

    open spec fn view(&self) -> PeerEntry {
        PeerEntry { peer: self.peer@, findings: self.findings@.map_values(|s: String| s@) }
    }
}

/// Findings per peer. Peers stand in the order in which their first finding
/// was made, the findings of a peer in the order of discovery; nothing is
/// ever removed or merged.
pub struct SlackerReport {
    entries: Vec<PeerFindings>,
}

impl View for SlackerReport {
    type V = Seq<PeerEntry>;

    closed spec fn view(&self) -> Seq<PeerEntry> {
        self.entries@.map_values(|e: PeerFindings| e@)
    }
}

impl SlackerReport {
    #[verifier::type_invariant]
    closed spec fn inv(self) -> bool {
        well_formed(self@)
    }

    pub fn new() -> (report: SlackerReport)
        ensures
            report@ == Seq::<PeerEntry>::empty(),
    {
        SlackerReport { entries: Vec::new() }
    }

    pub fn len(&self) -> (n: usize)
        ensures
            n == self@.len(),
    {
        self.entries.len()
    }

    pub fn is_empty(&self) -> (r: bool)
        ensures
            r == (self@.len() == 0),
    {
        self.entries.len() == 0
    }

    /// A copy of the findings of `peer`, empty when the report does not
    /// hold the peer.
    pub fn findings_for(&self, peer: &str) -> (found: Vec<String>)
        ensures
            views_of(found@) == findings_of(self@, peer@),
    {
        let ghost report = self@;
        let mut i: usize = 0;
        proof {
            assert(report.skip(0) =~= report);
        }
        while i < self.entries.len()
            invariant
                i <= self.entries.len(),
                report == self@,
                findings_of(report, peer@) == findings_of(report.skip(i as int), peer@),
            decreases self.entries.len() - i,
        {
            proof {
                assert(report.skip(i as int).drop_first() =~= report.skip(i + 1));
            }
            if str_eq(self.entries[i].peer.as_str(), peer) {
                let mut found: Vec<String> = Vec::new();
                let mut j: usize = 0;
                let stored = &self.entries[i].findings;
                while j < stored.len()
                    invariant
                        j <= stored.len(),
                        found@.len() == j,
                        forall|k: int| 0 <= k < j ==> (#[trigger] found@[k])@ == stored@[k]@,
                    decreases stored.len() - j,
                {
                    found.push(stored[j].clone());
                    j += 1;
                }
                return found;
            }
            i += 1;
        }
        let found: Vec<String> = Vec::new();
        found
    }

    /// The entry at position `index`.
    pub fn entry(&self, index: usize) -> (e: &PeerFindings)
        requires
            index < self@.len(),
        ensures
            e@ == self@[index as int],
    {
        &self.entries[index]
    }
}

/// Adds `status` to the findings of `peer_id`.
pub fn update_slackers(peer_slackers: &mut SlackerReport, peer_id: String, status: String)
    ensures
        final(peer_slackers)@ == record(old(peer_slackers)@, peer_id@, status@),
        well_formed(final(peer_slackers)@),
{
    let mut taken = SlackerReport::new();
    core::mem::swap(peer_slackers, &mut taken);
    proof {
        use_type_invariant(&taken);
    }
    let ghost before = taken@;
    let mut entries = taken.entries;
    let mut i: usize = 0;
    let mut found = false;
    while i < entries.len() && !found
        invariant
            i <= entries.len(),
            entries@.map_values(|e: PeerFindings| e@) == before,
            forall|k: int| 0 <= k < i ==> (#[trigger] before[k]).peer != peer_id@,
            found ==> i < entries.len() && before[i as int].peer == peer_id@,
        decreases entries.len() - i + if found { 0int } else { 1int },
    {
        if str_eq(entries[i].peer.as_str(), peer_id.as_str()) {
            found = true;
        } else {
            i += 1;
        }
    }
    proof {
        lemma_record_at(before, peer_id@, status@, i as int);
        lemma_record_keeps_form(before, peer_id@, status@);
    }
    if i < entries.len() {
        entries[i].findings.push(status);
        proof {
            let grown = entries@[i as int];
            assert(grown@.findings =~= before[i as int].findings.push(status@));
            assert(entries@.map_values(|e: PeerFindings| e@) =~= before.update(
                i as int,
                PeerEntry { peer: peer_id@, findings: before[i as int].findings.push(status@) },
            ));
        }
    } else {
        let mut findings: Vec<String> = Vec::new();
        findings.push(status);
        let added = PeerFindings { peer: peer_id, findings };
        proof {
            assert(added@.findings =~= seq![status@]);
        }
        entries.push(added);
        proof {
            assert(entries@.map_values(|e: PeerFindings| e@) =~= before.push(
                PeerEntry { peer: peer_id@, findings: seq![status@] },
            ));
        }
    }
    *peer_slackers = SlackerReport { entries };
}

} // verus!
