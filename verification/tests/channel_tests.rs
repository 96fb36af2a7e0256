use std::str::FromStr;
use vitality::channel::{peer_is_connected, ChannelState, PeerChannel, ShortChannelId};

fn channel(peer: &str, connected: bool) -> PeerChannel {
    PeerChannel {
        peer_id: peer.to_string(),
        short_channel_id: None,
        state: Some(ChannelState::ChanneldNormal),
        peer_connected: connected,
        private: false,
        status: Vec::new(),
        htlcs: Vec::new(),
        lost_state: false,
    }
}

#[test]
fn short_channel_id_coordinates() {
    let id = ShortChannelId::from_parts(700_123, 1_234, 5);
    assert_eq!(id.block(), 700_123);
    assert_eq!(id.txindex(), 1_234);
    assert_eq!(id.outnum(), 5);
    assert_eq!(id.to_u64(), (700_123u64 << 40) | (1_234u64 << 16) | 5);
    assert_eq!(id.to_text(), "700123x1234x5");
    let top = ShortChannelId::from_u64(u64::MAX);
    assert_eq!(top.block(), 0xff_ffff);
    assert_eq!(top.txindex(), 0xff_ffff);
    assert_eq!(top.outnum(), 0xffff);
    assert_eq!(top.to_text(), "16777215x16777215x65535");
    assert_eq!(ShortChannelId::from_u64(0).to_text(), "0x0x0");
}

#[test]
fn short_channel_id_agrees_with_the_rpc_crate() {
    for text in ["0x0x0", "1x2x3", "700123x1234x5", "16777215x16777215x65535", "103x1x0"] {
        let theirs = cln_rpc::primitives::ShortChannelId::from_str(text).unwrap();
        let ours = ShortChannelId::from_u64(theirs.to_u64());
        assert_eq!(ours.to_text(), theirs.to_string());
        assert_eq!(ours.block(), theirs.block());
        assert_eq!(ours.txindex(), theirs.txindex());
        assert_eq!(ours.outnum(), theirs.outnum());
    }
}

#[test]
fn last_listed_channel_of_a_peer_decides_connectivity() {
    let channels = vec![channel("A", true), channel("B", false), channel("A", false)];
    assert_eq!(peer_is_connected(&channels, "A"), Some(false));
    assert_eq!(peer_is_connected(&channels, "B"), Some(false));
    assert_eq!(peer_is_connected(&channels, "C"), None);
    assert_eq!(peer_is_connected(&Vec::new(), "A"), None);
}

#[test]
fn only_normal_and_splicing_channels_are_inspected() {
    let mut chan = channel("A", true);
    assert!(chan.is_inspected());
    chan.state = Some(ChannelState::ChanneldAwaitingSplice);
    assert!(chan.is_inspected());
    chan.state = Some(ChannelState::Onchain);
    assert!(!chan.is_inspected());
    chan.state = None;
    assert!(!chan.is_inspected());
}
