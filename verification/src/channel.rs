//! The per-cycle snapshot of the node's channels and of the gossip about them.

use vstd::prelude::*;
use crate::text::{decimal, decimal_text};

verus! {

/// Compact locator of a funding output: block height, transaction index in
/// the block and output index, packed into 24, 24 and 16 bits.
#[derive(Clone, Copy, Debug, PartialEq, Eq, Structural)]
pub struct ShortChannelId {
    pub value: u64,
}

impl ShortChannelId {
    pub open spec fn block_of(self) -> nat {
        ((self.value as nat) / 0x100_0000_0000) % 0x100_0000
    }

    pub open spec fn txindex_of(self) -> nat {
        ((self.value as nat) / 0x1_0000) % 0x100_0000
    }

    pub open spec fn outnum_of(self) -> nat {
        (self.value as nat) % 0x1_0000
    }

    /// The usual notation: block, transaction index and output index in
    /// decimal, separated by `x`.
    pub open spec fn text(self) -> Seq<char> {
        decimal_text(self.block_of()) + seq!['x'] + decimal_text(self.txindex_of()) + seq!['x']
            + decimal_text(self.outnum_of())
    }

    pub fn from_u64(value: u64) -> (id: ShortChannelId)
        ensures
            id.value == value,
    {
        ShortChannelId { value }
    }

    /// Packs the three coordinates. Block and transaction index must fit 24
    /// bits.
    pub fn from_parts(block: u32, txindex: u32, outnum: u16) -> (id: ShortChannelId)
        requires
            block < 0x100_0000,
            txindex < 0x100_0000,
        ensures
            id.block_of() == block,
            id.txindex_of() == txindex,
            id.outnum_of() == outnum,
            id.value == block * 0x100_0000_0000 + txindex * 0x1_0000 + outnum,
    {
        let value: u64 = (block as u64) * 0x100_0000_0000 + (txindex as u64) * 0x1_0000 + (
        outnum as u64);
        ShortChannelId { value }
    }

    pub fn to_u64(&self) -> (value: u64)
        ensures
            value == self.value,
    {
        self.value
    }

    pub fn block(&self) -> (block: u32)
        ensures
            block == self.block_of(),
    {
        ((self.value / 0x100_0000_0000) % 0x100_0000) as u32
    }

    pub fn txindex(&self) -> (txindex: u32)
        ensures
            txindex == self.txindex_of(),
    {
        ((self.value / 0x1_0000) % 0x100_0000) as u32
    }

    pub fn outnum(&self) -> (outnum: u16)
        ensures
            outnum == self.outnum_of(),
    {
        (self.value % 0x1_0000) as u16
    }

    /// Writes the identifier in its usual notation.
    pub fn to_text(&self) -> (r: String)
        ensures
            r@ == self.text(),
    {
        proof {
            reveal_strlit("x");
        }
        let mut r = decimal(self.block() as u64);
        r.append("x");
        r.append(decimal(self.txindex() as u64).as_str());
        r.append("x");
        r.append(decimal(self.outnum() as u64).as_str());
        r
    }
}

/// Lifecycle state of a channel, as the node reports it.
#[derive(Clone, Copy, Debug, PartialEq, Eq, Structural)]
pub enum ChannelState {
    Openingd,
    ChanneldAwaitingLockin,
    ChanneldNormal,
    ChanneldShuttingDown,
    ClosingdSigexchange,
    ClosingdComplete,
    AwaitingUnilateral,
    FundingSpendSeen,
    Onchain,
    DualopendOpenInit,
    DualopendAwaitingLockin,
    ChanneldAwaitingSplice,
    DualopendOpenCommitted,
    DualopendOpenCommitReady,
}

/// Only channels in normal operation or waiting for a splice are inspected;
/// a channel without a state never is.
pub open spec fn is_inspected(state: Option<ChannelState>) -> bool {
    state == Some(ChannelState::ChanneldNormal) || state == Some(
        ChannelState::ChanneldAwaitingSplice,
    )
}

/// A conditional payment in flight on a channel.
#[derive(Clone, Copy, Debug, PartialEq, Eq, Structural)]
pub struct Htlc {
    /// Block height at which the payment expires.
    pub expiry: u32,
}

/// One directional announcement of a channel in the node's gossip table.
#[derive(Clone, Copy, Debug, PartialEq, Eq, Structural)]
pub struct GossipRecord {
    pub short_channel_id: ShortChannelId,
    pub active: bool,
    pub public: bool,
}

/// What the node reports about one channel to a peer.
#[derive(Clone, Debug)]
pub struct PeerChannel {
    pub peer_id: String,
    /// Absent while the channel has not been announced.
    pub short_channel_id: Option<ShortChannelId>,
    pub state: Option<ChannelState>,
    pub peer_connected: bool,
    pub private: bool,
    /// Diagnostic messages of the node's channel state machine.
    pub status: Vec<String>,
    pub htlcs: Vec<Htlc>,
    pub lost_state: bool,
}

impl PeerChannel {
    pub fn is_inspected(&self) -> (r: bool)
        ensures
            r == is_inspected(self.state),
    {
        match self.state {
            Some(ChannelState::ChanneldNormal) => true,
            Some(ChannelState::ChanneldAwaitingSplice) => true,
            _ => false,
        }
    }
}

/// Whether the snapshot marks `peer` as connected: the flag of the last
/// channel listed for that peer, or nothing when it has no channel.
pub open spec fn live_connected(channels: Seq<PeerChannel>, peer: Seq<char>) -> Option<bool>
    decreases channels.len(),
{
    if channels.len() == 0 {
        None
    } else if channels.last().peer_id@ == peer {
        Some(channels.last().peer_connected)
    } else {
        live_connected(channels.drop_last(), peer)
    }
}

/// Looks `peer` up in the snapshot.
pub fn peer_is_connected(channels: &Vec<PeerChannel>, peer: &str) -> (r: Option<bool>)
    ensures
        r == live_connected(channels@, peer@),
{
    let mut i: usize = channels.len();
    proof {
        assert(channels@.take(channels.len() as int) =~= channels@);
    }
    while i > 0
        invariant
            i <= channels.len(),
            live_connected(channels@, peer@) == live_connected(channels@.take(i as int), peer@),
        decreases i,
    {
        proof {
            assert(channels@.take(i as int).drop_last() =~= channels@.take(i - 1));
        }
        if crate::text::str_eq(channels[i - 1].peer_id.as_str(), peer) {
            return Some(channels[i - 1].peer_connected);
        }
        i -= 1;
    }
    None
}

} // verus!
