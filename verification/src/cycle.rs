//! One health check cycle as a state machine: inspect, remediate, inspect
//! again, report what is left. The machine decides; its driver performs the
//! action it is handed and comes back with the event that this produced.

use vstd::prelude::*;
use crate::channel::{live_connected, peer_is_connected, PeerChannel};
use crate::channelwatch::{index_view, inspect, inspection};
use crate::gossip::GossipIndex;
use crate::notify::{channel_error, channel_report, report_body, Alert, NodeAlias};
use crate::report::{
    findings_of, has_peer, law_findings_only_grow, lemma_record_keeps_form, record,
    update_slackers, well_formed, PeerEntry, SlackerReport,
};
use crate::structs::Config;
use crate::text::{concat2, lowercase_of};
use crate::util::{boolean_word, parse_boolean};

verus! {

/// Seconds to let the node settle after the forced disconnects.
pub const DISCONNECT_SETTLE_SECS: u64 = 10;

/// Seconds to let the channels come back after the reconnects.
pub const RECONNECT_SETTLE_SECS: u64 = 30;

/// What the node reported at one moment.
pub struct Snapshot {
    pub channels: Vec<PeerChannel>,
    pub blockheight: u32,
    pub network: String,
    pub aliases: Vec<NodeAlias>,
    /// The gossip index, where the driver was asked to fetch it.
    pub gossip: Option<GossipIndex>,
}

impl Snapshot {
    /// What one inspection pass finds on this snapshot.
    pub open spec fn findings(self, config: Config) -> Seq<PeerEntry> {
        inspection(
            self.channels@,
            config,
            self.blockheight,
            self.network@,
            index_view(self.gossip),
        )
    }
}

/// Where a cycle stands.
#[derive(Clone, Copy, Debug, PartialEq, Eq, Structural)]
pub enum Phase {
    /// Not started.
    Idle,
    /// Waiting for the first snapshot.
    FirstFetch,
    /// Waiting for the outcome of a disconnect.
    Disconnecting,
    /// Waiting for the pause after the disconnects.
    SettlingDisconnect,
    /// Waiting for the outcome of a reconnect.
    Connecting,
    /// Waiting for the pause after the reconnects.
    SettlingConnect,
    /// Waiting for the second snapshot.
    SecondFetch,
    /// Waiting for the alert to be handed to the sinks.
    Notifying,
    /// Nothing more to do.
    Finished,
}

/// What the driver reports back.
pub enum CycleEvent {
    /// The cycle is to begin.
    Started,
    /// The node's state was fetched.
    Fetched(Snapshot),
    /// A disconnect or reconnect came back, with the node's message if it was
    /// rejected.
    Completed(Option<String>),
    /// The pause is over.
    Slept,
    /// The alert was handed to the sinks.
    Notified,
}

/// What the driver is to do next.
pub enum CycleAction {
    /// Fetch the node's state, with the gossip index if asked for.
    Fetch { with_gossip: bool },
    /// Force a disconnect from the peer.
    Disconnect(String),
    /// Ask the node to connect to the peer, leaving the address to the node.
    Connect(String),
    /// Pause for so many seconds.
    Sleep(u64),
    /// Send the alert through the sinks named.
    Notify { alert: Alert, by_mail: bool, by_telegram: bool },
    /// The cycle is over.
    Finish,
}

/// An action with its texts as sequences of characters.
pub enum ActionView {
    Fetch { with_gossip: bool },
    Disconnect(Seq<char>),
    Connect(Seq<char>),
    Sleep(nat),
    Notify { subject: Seq<char>, body: Seq<char>, by_mail: bool, by_telegram: bool },
    Finish,
}

impl View for CycleAction {
    type V = ActionView;

    open spec fn view(&self) -> ActionView {
        match *self {
            CycleAction::Fetch { with_gossip } => ActionView::Fetch { with_gossip },
            CycleAction::Disconnect(peer) => ActionView::Disconnect(peer@),
            CycleAction::Connect(peer) => ActionView::Connect(peer@),
            CycleAction::Sleep(seconds) => ActionView::Sleep(seconds as nat),
            CycleAction::Notify { alert, by_mail, by_telegram } => ActionView::Notify {
                subject: alert.subject@,
                body: alert.body@,
                by_mail,
                by_telegram,
            },
            CycleAction::Finish => ActionView::Finish,
        }
    }
}

/// The state of a cycle: its phase, the report of the first pass with what
/// the remediation noted, the entry that the pending disconnect or reconnect
/// is about, and the channels of the first snapshot.
pub struct CycleState {
    pub phase: Phase,
    pub cursor: nat,
    pub report: Seq<PeerEntry>,
    pub live: Seq<PeerChannel>,
}

/// The first entry from `from` on whose peer the snapshot marks as
/// connected, or the length of the report.
pub open spec fn first_connected(report: Seq<PeerEntry>, live: Seq<PeerChannel>, from: int) -> int
    decreases report.len() - from,
{
    if from < 0 || from >= report.len() {
        report.len() as int
    } else if live_connected(live, report[from].peer) == Some(true) {
        from
    } else {
        first_connected(report, live, from + 1)
    }
}

/// The state `s` in another phase and at another entry.
pub open spec fn moved(s: CycleState, phase: Phase, cursor: int) -> CycleState {
    CycleState { phase, cursor: cursor as nat, report: s.report, live: s.live }
}

/// The cycle ends.
pub open spec fn finish(s: CycleState) -> (CycleState, ActionView) {
    (moved(s, Phase::Finished, 0), ActionView::Finish)
}

/// Goes on with the disconnects from entry `from` on: the next connected
/// peer is disconnected; when there is none left, the node gets its pause.
pub open spec fn continue_disconnects(s: CycleState, from: int) -> (CycleState, ActionView) {
    let at = first_connected(s.report, s.live, from);
    if at < s.report.len() {
        (moved(s, Phase::Disconnecting, at), ActionView::Disconnect(s.report[at].peer))
    } else {
        (
            moved(s, Phase::SettlingDisconnect, 0),
            ActionView::Sleep(DISCONNECT_SETTLE_SECS as nat),
        )
    }
}

/// Goes on with the reconnects from entry `from` on: every peer of the
/// report gets one; after the last, the node gets its pause.
pub open spec fn continue_reconnects(s: CycleState, from: int) -> (CycleState, ActionView) {
    if 0 <= from < s.report.len() {
        (moved(s, Phase::Connecting, from), ActionView::Connect(s.report[from].peer))
    } else {
        (moved(s, Phase::SettlingConnect, 0), ActionView::Sleep(RECONNECT_SETTLE_SECS as nat))
    }
}

/// After the first pass: an empty report ends the cycle. Otherwise the
/// connected peers of the report are disconnected one by one; when none is
/// connected, no disconnect is tried, the pause is skipped and the reconnects
/// begin.
pub open spec fn after_first_pass(report: Seq<PeerEntry>, live: Seq<PeerChannel>) -> (
    CycleState,
    ActionView,
) {
    let s = CycleState { phase: Phase::FirstFetch, cursor: 0, report, live };
    if report.len() == 0 {
        finish(s)
    } else if first_connected(report, live, 0) < report.len() {
        continue_disconnects(s, 0)
    } else {
        continue_reconnects(s, 0)
    }
}

/// The report after the outcome of a remediation step for the entry at the
/// cursor: a failure is noted as one more finding of that peer.
pub open spec fn noted(s: CycleState, prefix: Seq<char>, failure: Option<String>) -> CycleState {
    match failure {
        Some(message) => CycleState {
            phase: s.phase,
            cursor: s.cursor,
            report: record(s.report, s.report[s.cursor as int].peer, prefix + message@),
            live: s.live,
        },
        None => s,
    }
}

/// After the second pass: an alert if and only if findings remain.
pub open spec fn after_second_pass(config: Config, s: CycleState, snapshot: Snapshot) -> (
    CycleState,
    ActionView,
) {
    let second = snapshot.findings(config);
    if second.len() == 0 {
        finish(s)
    } else {
        (
            moved(s, Phase::Notifying, 0),
            ActionView::Notify {
                subject: "Channel check report\n"@,
                body: report_body(s.report, second, snapshot.aliases@),
                by_mail: config.send_mail,
                by_telegram: config.send_telegram,
            },
        )
    }
}

/// The transition function of the cycle. An event that the phase does not
/// wait for ends the cycle.
pub open spec fn next(config: Config, s: CycleState, event: CycleEvent) -> (
    CycleState,
    ActionView,
) {
    match (s.phase, event) {
        (Phase::Idle, CycleEvent::Started) => (
            moved(s, Phase::FirstFetch, 0),
            ActionView::Fetch { with_gossip: config.watch_gossip },
        ),
        (Phase::FirstFetch, CycleEvent::Fetched(snapshot)) => after_first_pass(
            snapshot.findings(config),
            snapshot.channels@,
        ),
        (Phase::Disconnecting, CycleEvent::Completed(failure)) => if s.cursor < s.report.len() {
            continue_disconnects(noted(s, "Could not disconnect: "@, failure), (s.cursor + 1) as int)
        } else {
            finish(s)
        },
        (Phase::SettlingDisconnect, CycleEvent::Slept) => continue_reconnects(s, 0),
        (Phase::Connecting, CycleEvent::Completed(failure)) => if s.cursor < s.report.len() {
            continue_reconnects(noted(s, "Could not connect: "@, failure), (s.cursor + 1) as int)
        } else {
            finish(s)
        },
        (Phase::SettlingConnect, CycleEvent::Slept) => (
            moved(s, Phase::SecondFetch, 0),
            ActionView::Fetch { with_gossip: config.watch_gossip },
        ),
        (Phase::SecondFetch, CycleEvent::Fetched(snapshot)) => after_second_pass(
            config,
            s,
            snapshot,
        ),
        _ => finish(s),
    }
}

/// A health check cycle in progress.
pub struct Cycle {
    phase: Phase,
    cursor: usize,
    config: Config,
    report: SlackerReport,
    live: Vec<PeerChannel>,
}

impl View for Cycle {
    type V = CycleState;

    closed spec fn view(&self) -> CycleState {
        CycleState {
            phase: self.phase,
            cursor: self.cursor as nat,
            report: self.report@,
            live: self.live@,
        }
    }
}

impl Cycle {
    /// The configuration snapshot that the cycle works on.
    pub closed spec fn config(&self) -> Config {
        self.config
    }

    /// A cycle that has not begun, on a configuration snapshot of its own.
    pub fn new(config: Config) -> (cycle: Cycle)
        ensures
            cycle.config() == config,
            cycle@ == (CycleState {
                phase: Phase::Idle,
                cursor: 0,
                report: Seq::empty(),
                live: Seq::empty(),
            }),
    {
        Cycle {
            phase: Phase::Idle,
            cursor: 0,
            config,
            report: SlackerReport::new(),
            live: Vec::new(),
        }
    }

    pub fn phase(&self) -> (phase: Phase)
        ensures
            phase == self@.phase,
    {
        self.phase
    }

    /// The report of the first pass, with what the remediation noted so far.
    pub fn report(&self) -> (report: &SlackerReport)
        ensures
            report@ == self@.report,
    {
        &self.report
    }

    fn finish(&mut self) -> (action: CycleAction)
        ensures
            (final(self)@, action@) == finish(old(self)@),
            final(self).config() == old(self).config(),
    {
        self.phase = Phase::Finished;
        self.cursor = 0;
        CycleAction::Finish
    }

    fn continue_disconnects(&mut self, from: usize) -> (action: CycleAction)
        ensures
            (final(self)@, action@) == continue_disconnects(old(self)@, from as int),
            final(self).config() == old(self).config(),
    {
        let n = self.report.len();
        let mut at: usize = from;
        while at < n
            invariant
                n == self.report@.len(),
                *self == *old(self),
                from <= at,
                first_connected(self.report@, self.live@, from as int) == first_connected(
                    self.report@,
                    self.live@,
                    at as int,
                ),
            decreases n - at,
        {
            let peer = self.report.entry(at).peer.as_str();
            match peer_is_connected(&self.live, peer) {
                Some(true) => {
                    let target = self.report.entry(at).peer.clone();
                    self.phase = Phase::Disconnecting;
                    self.cursor = at;
                    return CycleAction::Disconnect(target);
                },
                _ => {},
            }
            at += 1;
        }
        self.phase = Phase::SettlingDisconnect;
        self.cursor = 0;
        CycleAction::Sleep(DISCONNECT_SETTLE_SECS)
    }

    fn continue_reconnects(&mut self, from: usize) -> (action: CycleAction)
        ensures
            (final(self)@, action@) == continue_reconnects(old(self)@, from as int),
            final(self).config() == old(self).config(),
    {
        if from < self.report.len() {
            let target = self.report.entry(from).peer.clone();
            self.phase = Phase::Connecting;
            self.cursor = from;
            CycleAction::Connect(target)
        } else {
            self.phase = Phase::SettlingConnect;
            self.cursor = 0;
            CycleAction::Sleep(RECONNECT_SETTLE_SECS)
        }
    }

    /// Notes a rejected remediation step with the peer at the cursor.
    fn note(&mut self, prefix: &str, failure: Option<String>)
        requires
            old(self)@.cursor < old(self)@.report.len(),
        ensures
            final(self)@ == noted(old(self)@, prefix@, failure),
            final(self).config() == old(self).config(),
    {
        match failure {
            Some(message) => {
                let peer = self.report.entry(self.cursor).peer.clone();
                update_slackers(&mut self.report, peer, concat2(prefix, message.as_str()));
            },
            None => {},
        }
    }

    /// Takes the event that the last action produced and decides what is to
    /// be done next.
    pub fn step(&mut self, event: CycleEvent) -> (action: CycleAction)
        ensures
            (final(self)@, action@) == next(old(self).config(), old(self)@, event),
            final(self).config() == old(self).config(),
    {
        match (self.phase, event) {
            (Phase::Idle, CycleEvent::Started) => {
                self.phase = Phase::FirstFetch;
                self.cursor = 0;
                CycleAction::Fetch { with_gossip: self.config.watch_gossip }
            },
            (Phase::FirstFetch, CycleEvent::Fetched(snapshot)) => {
                let report = inspect(
                    &snapshot.channels,
                    &self.config,
                    snapshot.blockheight,
                    snapshot.network.as_str(),
                    &snapshot.gossip,
                );
                self.report = report;
                self.live = snapshot.channels;
                self.cursor = 0;
                if self.report.len() == 0 {
                    self.finish()
                } else {
                    let connected = self.first_connected();
                    if connected {
                        self.continue_disconnects(0)
                    } else {
                        self.continue_reconnects(0)
                    }
                }
            },
            (Phase::Disconnecting, CycleEvent::Completed(failure)) => {
                if self.cursor < self.report.len() {
                    let from = self.cursor + 1;
                    self.note("Could not disconnect: ", failure);
                    self.continue_disconnects(from)
                } else {
                    self.finish()
                }
            },
            (Phase::SettlingDisconnect, CycleEvent::Slept) => self.continue_reconnects(0),
            (Phase::Connecting, CycleEvent::Completed(failure)) => {
                if self.cursor < self.report.len() {
                    let from = self.cursor + 1;
                    self.note("Could not connect: ", failure);
                    self.continue_reconnects(from)
                } else {
                    self.finish()
                }
            },
            (Phase::SettlingConnect, CycleEvent::Slept) => {
                self.phase = Phase::SecondFetch;
                self.cursor = 0;
                CycleAction::Fetch { with_gossip: self.config.watch_gossip }
            },
            (Phase::SecondFetch, CycleEvent::Fetched(snapshot)) => {
                let second = inspect(
                    &snapshot.channels,
                    &self.config,
                    snapshot.blockheight,
                    snapshot.network.as_str(),
                    &snapshot.gossip,
                );
                if second.len() == 0 {
                    self.finish()
                } else {
                    let alert = channel_report(&self.report, &second, &snapshot.aliases);
                    self.phase = Phase::Notifying;
                    self.cursor = 0;
                    CycleAction::Notify {
                        alert,
                        by_mail: self.config.send_mail,
                        by_telegram: self.config.send_telegram,
                    }
                }
            },
            _ => self.finish(),
        }
    }

    /// Whether the snapshot marks any peer of the report as connected.
    fn first_connected(&self) -> (r: bool)
        ensures
            r == (first_connected(self@.report, self@.live, 0) < self@.report.len()),
    {
        let n = self.report.len();
        let mut at: usize = 0;
        while at < n
            invariant
                n == self.report@.len(),
                first_connected(self.report@, self.live@, 0) == first_connected(
                    self.report@,
                    self.live@,
                    at as int,
                ),
            decreases n - at,
        {
            let peer = self.report.entry(at).peer.as_str();
            match peer_is_connected(&self.live, peer) {
                Some(true) => {
                    return true;
                },
                _ => {},
            }
            at += 1;
        }
        false
    }
}

proof fn lemma_first_connected(report: Seq<PeerEntry>, live: Seq<PeerChannel>, from: int)
    requires
        0 <= from,
    ensures
        from <= first_connected(report, live, from) || first_connected(report, live, from)
            == report.len(),
        first_connected(report, live, from) <= report.len(),
        first_connected(report, live, from) < report.len() ==> 0 <= first_connected(
            report,
            live,
            from,
        ) && live_connected(live, report[first_connected(report, live, from)].peer) == Some(true),
    decreases report.len() - from,
{
    if from < report.len() && live_connected(live, report[from].peer) != Some(true) {
        lemma_first_connected(report, live, from + 1);
    }
}

/// Whatever the state and the event: a reconnect is only ever asked for a
/// peer that the report holds, and a disconnect only for a peer that the
/// report holds and that the snapshot marks as connected.
pub proof fn law_remediation_targets(config: Config, s: CycleState, event: CycleEvent)
    ensures
        ({
            let (after, action) = next(config, s, event);
            &&& action matches ActionView::Connect(peer) ==> has_peer(after.report, peer)
            &&& action matches ActionView::Disconnect(peer) ==> has_peer(after.report, peer)
                && live_connected(after.live, peer) == Some(true)
        }),
{
    match next(config, s, event).1 {
        ActionView::Disconnect(_) => {
            match (s.phase, event) {
                (Phase::FirstFetch, CycleEvent::Fetched(snapshot)) => {
                    lemma_first_connected(snapshot.findings(config), snapshot.channels@, 0);
                },
                (Phase::Disconnecting, CycleEvent::Completed(failure)) => {
                    let t = noted(s, "Could not disconnect: "@, failure);
                    lemma_first_connected(t.report, t.live, (s.cursor + 1) as int);
                },
                _ => {},
            }
        },
        _ => {},
    }
}

/// An alert is handed out if and only if the second pass, the one after the
/// remediation, leaves findings.
pub proof fn law_alert_iff_findings_remain(config: Config, s: CycleState, event: CycleEvent)
    ensures
        next(config, s, event).1 is Notify <==> s.phase == Phase::SecondFetch && (match event {
            CycleEvent::Fetched(snapshot) => snapshot.findings(config).len() > 0,
            _ => false,
        }),
{
    match (s.phase, event) {
        (Phase::FirstFetch, CycleEvent::Fetched(snapshot)) => {
            lemma_first_connected(snapshot.findings(config), snapshot.channels@, 0);
        },
        _ => {},
    }
}

/// A first pass without findings ends the cycle at once, and a cycle that
/// has ended asks for nothing any more: no disconnect, no reconnect, no
/// pause, no second pass and no alert.
pub proof fn law_empty_first_pass_skips_remediation(
    config: Config,
    s: CycleState,
    snapshot: Snapshot,
    later: CycleEvent,
)
    requires
        s.phase == Phase::FirstFetch,
        snapshot.findings(config).len() == 0,
    ensures
        next(config, s, CycleEvent::Fetched(snapshot)).1 == ActionView::Finish,
        next(config, s, CycleEvent::Fetched(snapshot)).0.phase == Phase::Finished,
        next(config, next(config, s, CycleEvent::Fetched(snapshot)).0, later).1
            == ActionView::Finish,
        next(config, next(config, s, CycleEvent::Fetched(snapshot)).0, later).0.phase
            == Phase::Finished,
{
}

/// Seconds between the start of the process and the first cycle.
pub const STARTUP_DELAY_SECS: u64 = 600;

/// Seconds between two cycles.
pub const CHECK_INTERVAL_SECS: u64 = 3_600;

/// The pause before the first cycle: the regular one, or none when the
/// `TEST_DEBUG` switch reads as true.
pub open spec fn startup_pause(test_debug: Option<Seq<char>>) -> u64 {
    match test_debug {
        Some(value) => if boolean_word(lowercase_of(value)) == Some(true) {
            0
        } else {
            STARTUP_DELAY_SECS
        },
        None => STARTUP_DELAY_SECS,
    }
}

/// How long the cycle loop waits before its first cycle, given the value of
/// the debug switch if it is set.
pub fn startup_delay(test_debug: Option<&str>) -> (seconds: u64)
    ensures
        seconds == startup_pause(
            match test_debug {
                Some(value) => Some(value@),
                None => None,
            },
        ),
{
    match test_debug {
        Some(value) => match parse_boolean(value) {
            Some(true) => 0,
            _ => STARTUP_DELAY_SECS,
        },
        None => STARTUP_DELAY_SECS,
    }
}

/// What the cycle loop does after a cycle.
pub struct LoopStep {
    /// The alert to send, if the cycle could not be completed.
    pub alert: Option<Alert>,
    /// Seconds to pause before the next cycle.
    pub sleep_secs: u64,
}

/// One turn of the cycle loop: a cycle that failed is reported at once, and
/// the next cycle begins after the regular interval whatever the outcome.
pub fn check_channels_loop(outcome: &Result<(), String>) -> (step: LoopStep)
    ensures
        step.sleep_secs == CHECK_INTERVAL_SECS,
        step.alert is Some <==> outcome is Err,
        step.alert matches Some(alert) ==> outcome matches Err(reason) && alert.subject@
            == "Channel check error"@ && alert.body@ == reason@,
{
    match outcome {
        Ok(_) => LoopStep { alert: None, sleep_secs: CHECK_INTERVAL_SECS },
        Err(reason) => LoopStep {
            alert: Some(channel_error(reason.as_str())),
            sleep_secs: CHECK_INTERVAL_SECS,
        },
    }
}

/// The outcome of a disconnect or reconnect never changes which peers the
/// report holds nor their order: a rejected step adds one finding to the
/// peer it was about, and nothing else changes.
pub proof fn law_remediation_keeps_peers(
    config: Config,
    s: CycleState,
    failure: Option<String>,
    other: Seq<char>,
)
    requires
        s.phase == Phase::Disconnecting || s.phase == Phase::Connecting,
        s.cursor < s.report.len(),
        well_formed(s.report),
    ensures
        ({
            let after = next(config, s, CycleEvent::Completed(failure)).0.report;
            let peer = s.report[s.cursor as int].peer;
            let prefix = if s.phase == Phase::Disconnecting {
                "Could not disconnect: "@
            } else {
                "Could not connect: "@
            };
            &&& well_formed(after)
            &&& after.len() == s.report.len()
            &&& forall|i: int| 0 <= i < after.len() ==> (#[trigger] after[i]).peer == s.report[i].peer
            &&& findings_of(after, peer) == match failure {
                Some(message) => findings_of(s.report, peer).push(prefix + message@),
                None => findings_of(s.report, peer),
            }
            &&& other != peer ==> findings_of(after, other) == findings_of(s.report, other)
        }),
{
    let peer = s.report[s.cursor as int].peer;
    let prefix = if s.phase == Phase::Disconnecting {
        "Could not disconnect: "@
    } else {
        "Could not connect: "@
    };
    match failure {
        Some(message) => {
            lemma_record_keeps_form(s.report, peer, prefix + message@);
            law_findings_only_grow(s.report, peer, prefix + message@, other);
        },
        None => {},
    }
}

} // verus!
