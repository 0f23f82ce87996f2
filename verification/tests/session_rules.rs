use tel::session_store::{
    channel_kind_from_subtype, channels_distinct, check_auth_key, map_peer_info, peer_row, peer_subtype,
    ChannelKind, ChannelState, PeerInfo, PeerKind, StoredUpdates, UpdateState, UpdatesState,
    BROADCAST, GIGAGROUP, MEGAGROUP, USER_BOT, USER_SELF, USER_SELF_BOT,
};

#[test]
fn persists_self_peer_without_libsql() {
    let peer = PeerInfo::User { id: 1, auth: Some(42), bot: Some(false), is_self: Some(true) };
    let row = peer_row(&peer, 1);
    assert_eq!(row.subtype, Some(USER_SELF));
    assert_eq!(map_peer_info(&row, PeerKind::UserSelf, 1), peer);
    assert_eq!(map_peer_info(&row, PeerKind::User, 1), peer);
}

#[test]
fn rejects_invalid_auth_key_size() {
    let row_result = check_auth_key(vec![1_u8; 8]);
    assert!(row_result.is_err());
    assert_eq!(row_result.unwrap_err().message(), "stored auth key must be 256 bytes, got 8");
    assert_eq!(check_auth_key(vec![7_u8; 256]).unwrap().len(), 256);
}

#[test]
fn update_state_upsert_keeps_existing_secondary_state() {
    let mut store = StoredUpdates::new();
    store.apply(UpdateState::Secondary { qts: 7 });
    store.apply(UpdateState::Primary { pts: 1, date: 2, seq: 3 });
    let state = store.updates_state();
    assert_eq!(state.pts, 1);
    assert_eq!(state.qts, 7);
    assert_eq!(state.date, 2);
    assert_eq!(state.seq, 3);
}

#[test]
fn empty_store_reads_zeros() {
    let state = StoredUpdates::new().updates_state();
    assert_eq!((state.pts, state.qts, state.date, state.seq), (0, 0, 0, 0));
    assert!(state.channels.is_empty());
}

#[test]
fn full_update_replaces_and_channel_update_upserts() {
    let mut store = StoredUpdates::new();
    store.apply(UpdateState::Channel { id: 9, pts: 1 });
    store.apply(UpdateState::All(UpdatesState {
        pts: 10,
        qts: 20,
        date: 30,
        seq: 40,
        channels: vec![ChannelState { id: 5, pts: 50 }],
    }));
    store.apply(UpdateState::Channel { id: 5, pts: 51 });
    store.apply(UpdateState::Channel { id: 6, pts: 60 });
    let state = store.updates_state();
    assert_eq!((state.pts, state.qts, state.date, state.seq), (10, 20, 30, 40));
    assert_eq!(
        state.channels,
        vec![ChannelState { id: 5, pts: 51 }, ChannelState { id: 6, pts: 60 }]
    );
}

#[test]
fn primary_and_secondary_commute() {
    let mut a = StoredUpdates::new();
    a.apply(UpdateState::Primary { pts: 1, date: 2, seq: 3 });
    a.apply(UpdateState::Secondary { qts: 4 });
    let mut b = StoredUpdates::new();
    b.apply(UpdateState::Secondary { qts: 4 });
    b.apply(UpdateState::Primary { pts: 1, date: 2, seq: 3 });
    assert_eq!(a.row, b.row);
    assert_eq!(a.row, Some((1, 4, 2, 3)));
}

#[test]
fn packs_peer_subtypes() {
    let user = |bot, is_self| PeerInfo::User { id: 1, auth: None, bot, is_self };
    assert_eq!(peer_subtype(&user(Some(true), Some(true))), Some(USER_SELF_BOT));
    assert_eq!(peer_subtype(&user(Some(true), None)), Some(USER_BOT));
    assert_eq!(peer_subtype(&user(None, Some(true))), Some(USER_SELF));
    assert_eq!(peer_subtype(&user(Some(false), Some(false))), None);
    assert_eq!(peer_subtype(&PeerInfo::Chat { id: 3 }), None);
    let channel = |kind| PeerInfo::Channel { id: 2, auth: Some(1), kind };
    assert_eq!(peer_subtype(&channel(Some(ChannelKind::Megagroup))), Some(MEGAGROUP));
    assert_eq!(peer_subtype(&channel(Some(ChannelKind::Broadcast))), Some(BROADCAST));
    assert_eq!(peer_subtype(&channel(Some(ChannelKind::Gigagroup))), Some(GIGAGROUP));
    assert_eq!(peer_subtype(&channel(None)), None);
}

#[test]
fn reads_channel_kinds_back() {
    assert_eq!(channel_kind_from_subtype(GIGAGROUP), Some(ChannelKind::Gigagroup));
    assert_eq!(channel_kind_from_subtype(BROADCAST), Some(ChannelKind::Broadcast));
    assert_eq!(channel_kind_from_subtype(MEGAGROUP), Some(ChannelKind::Megagroup));
    assert_eq!(channel_kind_from_subtype(1), None);
    for kind in [ChannelKind::Megagroup, ChannelKind::Broadcast, ChannelKind::Gigagroup] {
        let peer = PeerInfo::Channel { id: 77, auth: Some(5), kind: Some(kind) };
        let row = peer_row(&peer, -1000000000077);
        assert_eq!(map_peer_info(&row, PeerKind::Channel, 77), peer);
    }
    let chat = PeerInfo::Chat { id: 4 };
    assert_eq!(map_peer_info(&peer_row(&chat, -4), PeerKind::Chat, 4), chat);
}

#[test]
fn user_without_flags_set_reads_back_without_flags() {
    let peer = PeerInfo::User { id: 3, auth: None, bot: Some(false), is_self: Some(false) };
    let back = map_peer_info(&peer_row(&peer, 3), PeerKind::User, 3);
    assert_eq!(back, PeerInfo::User { id: 3, auth: None, bot: None, is_self: None });
}

#[test]
fn detects_repeated_channels() {
    let c = |id, pts| ChannelState { id, pts };
    assert!(channels_distinct(&vec![]));
    assert!(channels_distinct(&vec![c(1, 1), c(2, 1)]));
    assert!(!channels_distinct(&vec![c(1, 1), c(2, 1), c(1, 3)]));
}

#[test]
fn full_update_reads_back_in_order() {
    let mut store = StoredUpdates::new();
    store.apply(UpdateState::Channel { id: 1, pts: 1 });
    let channels = vec![ChannelState { id: 9, pts: 2 }, ChannelState { id: 3, pts: 4 }];
    store.apply(UpdateState::All(UpdatesState { pts: 5, qts: 6, date: 7, seq: 8, channels: channels.clone() }));
    let state = store.updates_state();
    assert_eq!((state.pts, state.qts, state.date, state.seq), (5, 6, 7, 8));
    assert_eq!(state.channels, channels);
}
