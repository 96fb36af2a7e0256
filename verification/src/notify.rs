//! The alerts that the engine hands to the notification sinks.

use vstd::prelude::*;
use crate::report::{findings_of, PeerEntry, SlackerReport};
use vstd::utf8::{
    decode_utf8, encode_utf8, encode_utf8_decode_utf8, encode_utf8_valid_utf8, is_char_boundary,
    is_char_boundary_start_end_of_seq, valid_utf8,
};
use crate::text::{concat2, concat3, join, join_text, push_text, str_eq, views_of};

verus! {

/// A message for the notification sinks.
pub struct Alert {
    pub subject: String,
    pub body: String,
}

/// The alias under which a node announces itself.
pub struct NodeAlias {
    pub node_id: String,
    pub alias: String,
}

/// The alias of `peer`: that of the last listed node with this identifier.
pub open spec fn alias_of(aliases: Seq<NodeAlias>, peer: Seq<char>) -> Option<Seq<char>>
    decreases aliases.len(),
{
    if aliases.len() == 0 {
        None
    } else if aliases.last().node_id@ == peer {
        Some(aliases.last().alias@)
    } else {
        alias_of(aliases.drop_last(), peer)
    }
}

/// The part of the report body that is about one peer: the peer, its alias
/// in brackets where it is known, a colon, and one finding per line.
pub open spec fn peer_block(
    peer: Seq<char>,
    alias: Option<Seq<char>>,
    findings: Seq<Seq<char>>,
) -> Seq<char> {
    peer + (match alias {
        Some(alias) => "("@ + alias + ")"@,
        None => Seq::empty(),
    }) + ":\n"@ + join_text(findings, "\n"@) + "\n"@
}

/// One block for each peer of the second pass, holding what the first pass
/// and the remediation noted for the peer and then what the second pass
/// found.
pub open spec fn report_blocks(
    first: Seq<PeerEntry>,
    second: Seq<PeerEntry>,
    aliases: Seq<NodeAlias>,
) -> Seq<Seq<char>> {
    Seq::new(
        second.len(),
        |i: int|
            peer_block(
                second[i].peer,
                alias_of(aliases, second[i].peer),
                findings_of(first, second[i].peer) + second[i].findings,
            ),
    )
}

/// The body of the channel report: the blocks with an empty line between
/// them.
pub open spec fn report_body(
    first: Seq<PeerEntry>,
    second: Seq<PeerEntry>,
    aliases: Seq<NodeAlias>,
) -> Seq<char> {
    join_text(report_blocks(first, second, aliases), "\n"@)
}

/// Looks up the alias of `peer`.
pub fn find_alias(aliases: &Vec<NodeAlias>, peer: &str) -> (r: Option<String>)
    ensures
        match r {
            Some(alias) => alias_of(aliases@, peer@) == Some(alias@),
            None => alias_of(aliases@, peer@) is None,
        },
{
    let mut i: usize = aliases.len();
    proof {
        assert(aliases@.take(aliases.len() as int) =~= aliases@);
    }
    while i > 0
        invariant
            i <= aliases.len(),
            alias_of(aliases@, peer@) == alias_of(aliases@.take(i as int), peer@),
        decreases i,
    {
        proof {
            assert(aliases@.take(i as int).drop_last() =~= aliases@.take(i - 1));
        }
        if str_eq(aliases[i - 1].node_id.as_str(), peer) {
            return Some(aliases[i - 1].alias.clone());
        }
        i -= 1;
    }
    None
}

/// Writes the block of one peer.
pub fn write_peer_block(peer: &str, alias: &Option<String>, findings: &Vec<String>) -> (r: String)
    ensures
        r@ == peer_block(
            peer@,
            match *alias {
                Some(a) => Some(a@),
                None => None,
            },
            views_of(findings@),
        ),
{
    let mut r = String::from_str(peer);
    match alias {
        Some(alias) => {
            r.append("(");
            r.append(alias.as_str());
            r.append(")");
        },
        None => {},
    }
    r.append(":\n");
    r.append(join(findings, "\n").as_str());
    r.append("\n");
    r
}

/// The alert of a cycle that still has findings after remediation.
pub fn channel_report(first: &SlackerReport, second: &SlackerReport, aliases: &Vec<NodeAlias>) -> (alert:
    Alert)
    ensures
        alert.subject@ == "Channel check report\n"@,
        alert.body@ == report_body(first@, second@, aliases@),
{
    let mut blocks: Vec<String> = Vec::new();
    let mut i: usize = 0;
    let ghost wanted = report_blocks(first@, second@, aliases@);
    let n = second.len();
    while i < n
        invariant
            i <= n,
            n == second@.len(),
            wanted == report_blocks(first@, second@, aliases@),
            views_of(blocks@) == wanted.take(i as int),
        decreases n - i,
    {
        let entry = second.entry(i);
        let alias = find_alias(aliases, entry.peer.as_str());
        let mut findings = first.findings_for(entry.peer.as_str());
        let mut j: usize = 0;
        let ghost earlier = views_of(findings@);
        while j < entry.findings.len()
            invariant
                j <= entry.findings.len(),
                views_of(findings@) == earlier + views_of(entry.findings@).take(j as int),
            decreases entry.findings.len() - j,
        {
            push_text(&mut findings, entry.findings[j].clone());
            j += 1;
        }
        proof {
            assert(views_of(entry.findings@).take(entry.findings.len() as int) =~= entry@.findings);
        }
        let block = write_peer_block(entry.peer.as_str(), &alias, &findings);
        push_text(&mut blocks, block);
        i += 1;
    }
    proof {
        assert(wanted.take(n as int) =~= wanted);
    }
    Alert { subject: String::from_str("Channel check report\n"), body: join(&blocks, "\n") }
}

/// The alert of a cycle that could not be completed.
pub fn channel_error(message: &str) -> (alert: Alert)
    ensures
        alert.subject@ == "Channel check error"@,
        alert.body@ == message@,
{
    Alert { subject: String::from_str("Channel check error"), body: String::from_str(message) }
}

/// The alert of a reachability probe that keeps failing.
pub fn amboss_error(message: &str) -> (alert: Alert)
    ensures
        alert.subject@ == "Amboss error"@,
        alert.body@ == message@,
{
    Alert { subject: String::from_str("Amboss error"), body: String::from_str(message) }
}

/// The alert of a background task that ended although it never should.
pub fn task_alarm(task: &str, message: &str) -> (alert: Alert)
    ensures
        alert.subject@ == "ALARM: "@ + task@ + " Error"@,
        alert.body@ == message@,
{
    let mut subject = concat2("ALARM: ", task);
    subject.append(" Error");
    Alert { subject, body: String::from_str(message) }
}

/// The alert that a requested test of the sinks sends.
pub fn test_notification() -> (alert: Alert)
    ensures
        alert.subject@ == "Test Notification"@,
        alert.body@ == "This is a test notification sent from vitality"@,
{
    Alert {
        subject: String::from_str("Test Notification"),
        body: String::from_str("This is a test notification sent from vitality"),
    }
}

/// The most bytes that a chat message may have.
pub const TELEGRAM_LIMIT: usize = 4000;

/// The last position up to `limit` at which a character begins or the text
/// ends.
pub open spec fn cut_point(bytes: Seq<u8>, limit: int) -> int
    decreases limit,
{
    if limit <= 0 {
        0
    } else if is_char_boundary(bytes, limit) {
        limit
    } else {
        cut_point(bytes, limit - 1)
    }
}

/// The text of a chat message: subject and body on separate lines, cut
/// after the last character that ends within the limit, counted in bytes of
/// UTF-8.
pub open spec fn telegram_text(subject: Seq<char>, body: Seq<char>) -> Seq<char> {
    let full = subject + "\n"@ + body;
    let bytes = encode_utf8(full);
    if bytes.len() > TELEGRAM_LIMIT {
        decode_utf8(bytes.subrange(0, cut_point(bytes, TELEGRAM_LIMIT as int)))
    } else {
        full
    }
}

/// Writes the chat message for an alert.
pub fn telegram_message(subject: &str, body: &str) -> (r: String)
    ensures
        r@ == telegram_text(subject@, body@),
        encode_utf8(r@).len() <= TELEGRAM_LIMIT,
{
    let message = concat3(subject, "\n", body);
    let text = message.as_str();
    let ghost bytes = encode_utf8(text@);
    proof {
        encode_utf8_valid_utf8(text@);
        is_char_boundary_start_end_of_seq(bytes);
    }
    if text.as_bytes().len() <= TELEGRAM_LIMIT {
        return message;
    }
    let mut cut: usize = TELEGRAM_LIMIT;
    while !text.is_char_boundary(cut)
        invariant
            cut <= TELEGRAM_LIMIT,
            bytes == encode_utf8(text@),
            valid_utf8(bytes),
            is_char_boundary(bytes, 0),
            cut_point(bytes, TELEGRAM_LIMIT as int) == cut_point(bytes, cut as int),
        decreases cut,
    {
        cut -= 1;
    }
    let (head, _) = text.split_at(cut);
    proof {
        encode_utf8_decode_utf8(head@);
    }
    String::from_str(head)
}

} // verus!
