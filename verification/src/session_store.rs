//! The rules of the Telegram session store: how a peer's kind is packed into
//! the stored subtype and read back, and how update-state changes combine.
use vstd::prelude::*;
use vstd::string::*;

use crate::text::{decimal, push_decimal};

verus! {

/// Subtype bit of the logged-in user.
pub const USER_SELF: i64 = 1;

/// Subtype bit of a bot.
pub const USER_BOT: i64 = 2;

/// Subtype of a logged-in bot.
pub const USER_SELF_BOT: i64 = 3;

/// Subtype of a megagroup.
pub const MEGAGROUP: i64 = 4;

/// Subtype of a broadcast channel.
pub const BROADCAST: i64 = 8;

/// Subtype of a gigagroup.
pub const GIGAGROUP: i64 = 12;

/// The kind of a channel.
#[derive(Debug, Clone, Copy, PartialEq, Eq, Structural)]
pub enum ChannelKind {
    Megagroup,
    Broadcast,
    Gigagroup,
}

/// The kind of peer a lookup asks for.
#[derive(Debug, Clone, Copy, PartialEq, Eq, Structural)]
pub enum PeerKind {
    User,
    UserSelf,
    Chat,
    Channel,
}

/// What the session knows of a peer.
#[derive(Debug, Clone, Copy, PartialEq, Eq, Structural)]
pub enum PeerInfo {
    User { id: i64, auth: Option<i64>, bot: Option<bool>, is_self: Option<bool> },
    Chat { id: i64 },
    Channel { id: i64, auth: Option<i64>, kind: Option<ChannelKind> },
}

/// A stored peer row: its access hash and subtype.
#[derive(Debug, Clone, Copy, PartialEq, Eq, Structural)]
pub struct PeerRow {
    pub peer_id: i64,
    pub hash: Option<i64>,
    pub subtype: Option<i64>,
}

/// The subtype stored for a user with these flags (absent flags count as false).
pub open spec fn user_subtype(bot: bool, is_self: bool) -> Option<i64> {
    if bot && is_self {
        Some(USER_SELF_BOT)
    } else if bot {
        Some(USER_BOT)
    } else if is_self {
        Some(USER_SELF)
    } else {
        None
    }
}

/// The subtype stored for a channel of kind `k`.
pub open spec fn channel_subtype(k: ChannelKind) -> i64 {
    match k {
        ChannelKind::Megagroup => MEGAGROUP,
        ChannelKind::Broadcast => BROADCAST,
        ChannelKind::Gigagroup => GIGAGROUP,
    }
}

/// The subtype stored for a peer.
pub open spec fn subtype_of(p: PeerInfo) -> Option<i64> {
    match p {
        PeerInfo::User { bot, is_self, .. } => user_subtype(
            bot.unwrap_or(false),
            is_self.unwrap_or(false),
        ),
        PeerInfo::Chat { .. } => None,
        PeerInfo::Channel { kind, .. } => match kind {
            Some(k) => Some(channel_subtype(k)),
            None => None,
        },
    }
}

/// The subtype stored for `peer`.
pub fn peer_subtype(peer: &PeerInfo) -> (r: Option<i64>)
    ensures
        r == subtype_of(*peer),
{
    match peer {
        PeerInfo::User { bot, is_self, .. } => {
            let b = match bot {
                Some(x) => *x,
                None => false,
            };
            let s = match is_self {
                Some(x) => *x,
                None => false,
            };
            if b && s {
                Some(USER_SELF_BOT)
            } else if b {
                Some(USER_BOT)
            } else if s {
                Some(USER_SELF)
            } else {
                None
            }
        },
        PeerInfo::Chat { .. } => None,
        PeerInfo::Channel { kind, .. } => match kind {
            Some(ChannelKind::Megagroup) => Some(MEGAGROUP),
            Some(ChannelKind::Broadcast) => Some(BROADCAST),
            Some(ChannelKind::Gigagroup) => Some(GIGAGROUP),
            None => None,
        },
    }
}

/// The channel kind a stored subtype denotes.
pub open spec fn kind_of_subtype(subtype: i64) -> Option<ChannelKind> {
    if subtype & GIGAGROUP == GIGAGROUP {
        Some(ChannelKind::Gigagroup)
    } else if subtype & BROADCAST != 0 {
        Some(ChannelKind::Broadcast)
    } else if subtype & MEGAGROUP != 0 {
        Some(ChannelKind::Megagroup)
    } else {
        None
    }
}

/// The channel kind a stored subtype denotes, if any.
pub fn channel_kind_from_subtype(subtype: i64) -> (r: Option<ChannelKind>)
    ensures
        r == kind_of_subtype(subtype),
{
    if subtype & GIGAGROUP == GIGAGROUP {
        Some(ChannelKind::Gigagroup)
    } else if subtype & BROADCAST != 0 {
        Some(ChannelKind::Broadcast)
    } else if subtype & MEGAGROUP != 0 {
        Some(ChannelKind::Megagroup)
    } else {
        None
    }
}

/// The peer a stored row gives back for a lookup of kind `kind` whose bare
/// id is `bare_id`.
pub open spec fn peer_of_row(row: PeerRow, kind: PeerKind, bare_id: i64) -> PeerInfo {
    match kind {
        PeerKind::User | PeerKind::UserSelf => PeerInfo::User {
            id: row.peer_id,
            auth: row.hash,
            bot: match row.subtype {
                Some(s) => Some(s & USER_BOT != 0),
                None => None,
            },
            is_self: match row.subtype {
                Some(s) => Some(s & USER_SELF != 0),
                None => None,
            },
        },
        PeerKind::Chat => PeerInfo::Chat { id: bare_id },
        PeerKind::Channel => PeerInfo::Channel {
            id: bare_id,
            auth: row.hash,
            kind: match row.subtype {
                Some(s) => kind_of_subtype(s),
                None => None,
            },
        },
    }
}

/// The peer that a stored row describes, for a lookup of kind `kind` and
/// bare id `bare_id`.
pub fn map_peer_info(row: &PeerRow, kind: PeerKind, bare_id: i64) -> (r: PeerInfo)
    ensures
        r == peer_of_row(*row, kind, bare_id),
{
    match kind {
        PeerKind::User | PeerKind::UserSelf => PeerInfo::User {
            id: row.peer_id,
            auth: row.hash,
            bot: match row.subtype {
                Some(s) => Some(s & USER_BOT != 0),
                None => None,
            },
            is_self: match row.subtype {
                Some(s) => Some(s & USER_SELF != 0),
                None => None,
            },
        },
        PeerKind::Chat => PeerInfo::Chat { id: bare_id },
        PeerKind::Channel => PeerInfo::Channel {
            id: bare_id,
            auth: row.hash,
            kind: match row.subtype {
                Some(s) => channel_kind_from_subtype(s),
                None => None,
            },
        },
    }
}

/// The row stored for a peer under the key `dialog_id`: its access hash (a
/// chat is reached with the ambient authority, hash 0) and its subtype.
pub open spec fn row_of(peer: PeerInfo, dialog_id: i64) -> PeerRow {
    PeerRow {
        peer_id: dialog_id,
        hash: match peer {
            PeerInfo::User { auth, .. } => auth,
            PeerInfo::Chat { .. } => Some(0i64),
            PeerInfo::Channel { auth, .. } => auth,
        },
        subtype: subtype_of(peer),
    }
}

/// The row that caching `peer` under the key `dialog_id` stores.
pub fn peer_row(peer: &PeerInfo, dialog_id: i64) -> (r: PeerRow)
    ensures
        r == row_of(*peer, dialog_id),
{
    let hash = match peer {
        PeerInfo::User { auth, .. } => *auth,
        PeerInfo::Chat { .. } => Some(0),
        PeerInfo::Channel { auth, .. } => *auth,
    };
    PeerRow { peer_id: dialog_id, hash, subtype: peer_subtype(peer) }
}

/// A channel's subtype reads back as the same kind.
pub proof fn lemma_channel_kind_roundtrip(k: ChannelKind)
    ensures
        kind_of_subtype(channel_subtype(k)) == Some(k),
{
    assert(12i64 & 12i64 == 12i64) by (bit_vector);
    assert(8i64 & 12i64 != 12i64) by (bit_vector);
    assert(8i64 & 8i64 != 0i64) by (bit_vector);
    assert(4i64 & 12i64 != 12i64) by (bit_vector);
    assert(4i64 & 8i64 == 0i64) by (bit_vector);
    assert(4i64 & 4i64 != 0i64) by (bit_vector);
}

/// A user's stored subtype reads back as the same flags, when both flags are
/// known and one is set.
pub proof fn lemma_user_flags_roundtrip(bot: bool, is_self: bool)
    requires
        bot || is_self,
    ensures
        user_subtype(bot, is_self) matches Some(s) && (s & USER_BOT != 0) == bot && (s & USER_SELF
            != 0) == is_self,
{
    assert(3i64 & 2i64 != 0i64) by (bit_vector);
    assert(3i64 & 1i64 != 0i64) by (bit_vector);
    assert(2i64 & 2i64 != 0i64) by (bit_vector);
    assert(2i64 & 1i64 == 0i64) by (bit_vector);
    assert(1i64 & 2i64 == 0i64) by (bit_vector);
    assert(1i64 & 1i64 != 0i64) by (bit_vector);
}

/// Whether reading back the stored form of `peer` gives `peer` itself: every
/// chat and channel, and a user whose flags are both unknown or both known
/// with one set.
pub open spec fn survives_storage(peer: PeerInfo) -> bool {
    match peer {
        PeerInfo::User { bot, is_self, .. } => (bot is None && is_self is None) || (bot is Some
            && is_self is Some && (bot->0 || is_self->0)),
        _ => true,
    }
}

/// The kind of lookup that finds `peer` again.
pub open spec fn kind_of(peer: PeerInfo) -> PeerKind {
    match peer {
        PeerInfo::User { .. } => PeerKind::User,
        PeerInfo::Chat { .. } => PeerKind::Chat,
        PeerInfo::Channel { .. } => PeerKind::Channel,
    }
}

/// The bare id of a peer.
pub open spec fn bare_id_of(peer: PeerInfo) -> i64 {
    match peer {
        PeerInfo::User { id, .. } => id,
        PeerInfo::Chat { id } => id,
        PeerInfo::Channel { id, .. } => id,
    }
}

/// Caching a peer and looking it up again gives the peer back (a user is
/// stored under its own id), for every peer that `survives_storage`; the
/// logged-in user is found the same way by a self lookup.
pub proof fn lemma_cached_peer_reads_back(peer: PeerInfo, dialog_id: i64)
    requires
        survives_storage(peer),
        peer is User ==> dialog_id == bare_id_of(peer),
    ensures
        peer_of_row(row_of(peer, dialog_id), kind_of(peer), bare_id_of(peer)) == peer,
        peer matches PeerInfo::User { is_self: Some(true), .. } ==> peer_of_row(
            row_of(peer, dialog_id),
            PeerKind::UserSelf,
            bare_id_of(peer),
        ) == peer,
{
    match peer {
        PeerInfo::User { bot, is_self, .. } => {
            if bot is Some && is_self is Some {
                lemma_user_flags_roundtrip(bot->0, is_self->0);
            }
        },
        PeerInfo::Chat { .. } => {},
        PeerInfo::Channel { kind, .. } => {
            if let Some(k) = kind {
                lemma_channel_kind_roundtrip(k);
            }
        },
    }
}

/// Why a stored authentication key cannot be used.
#[derive(Debug, Clone, Copy, PartialEq, Eq, Structural)]
pub struct AuthKeySizeError {
    pub len: usize,
}

/// The message that reports a wrongly sized authentication key.
pub open spec fn auth_key_error_text(e: AuthKeySizeError) -> Seq<char> {
    "stored auth key must be 256 bytes, got "@ + decimal(e.len as nat)
}

impl AuthKeySizeError {
    /// The message that reports this error.
    pub fn message(&self) -> (r: String)
        ensures
            r@ == auth_key_error_text(*self),
    {
        let mut m = String::from_str("stored auth key must be 256 bytes, got ");
        push_decimal(&mut m, self.len as u64);
        m
    }
}

/// A stored authentication key, which must be exactly 256 bytes.
pub fn check_auth_key(blob: Vec<u8>) -> (r: Result<Vec<u8>, AuthKeySizeError>)
    ensures
        match r {
            Ok(k) => blob@.len() == 256 && k@ == blob@,
            Err(e) => blob@.len() != 256 && e.len == blob@.len(),
        },
{
    if blob.len() == 256 {
        Ok(blob)
    } else {
        Err(AuthKeySizeError { len: blob.len() })
    }
}

/// The update position of one channel.
#[derive(Debug, Clone, Copy, PartialEq, Eq, Structural)]
pub struct ChannelState {
    pub id: i64,
    pub pts: i32,
}

/// The whole update position of an account.
#[derive(Debug)]
pub struct UpdatesState {
    pub pts: i32,
    pub qts: i32,
    pub date: i32,
    pub seq: i32,
    pub channels: Vec<ChannelState>,
}

/// A change to the stored update position.
#[derive(Debug)]
pub enum UpdateState {
    /// Replace everything.
    All(UpdatesState),
    /// Set the primary position.
    Primary { pts: i32, date: i32, seq: i32 },
    /// Set the secondary position.
    Secondary { qts: i32 },
    /// Set one channel's position.
    Channel { id: i64, pts: i32 },
}

/// The stored update position: the account row `(pts, qts, date, seq)`, if
/// one was ever written, and one entry per channel.
#[derive(Debug)]
pub struct StoredUpdates {
    pub row: Option<(i32, i32, i32, i32)>,
    pub channels: Vec<ChannelState>,
}

/// The channel positions as a map from channel id.
pub open spec fn channel_map(cs: Seq<ChannelState>) -> Map<i64, i32>
    decreases cs.len(),
{
    if cs.len() == 0 {
        Map::empty()
    } else {
        channel_map(cs.drop_last()).insert(cs.last().id, cs.last().pts)
    }
}

/// Whether no two channel entries share an id.
pub open spec fn distinct_ids(cs: Seq<ChannelState>) -> bool {
    forall|i: int, j: int|
        0 <= i < j < cs.len() ==> #[trigger] cs[i].id != #[trigger] cs[j].id
}

/// The abstract store: the account row and the channel map.
pub type UpdatesView = (Option<(i32, i32, i32, i32)>, Map<i64, i32>);

/// The store after one change.
pub open spec fn applied(v: UpdatesView, u: UpdateState) -> UpdatesView {
    let (p, q, d, s) = match v.0 {
        Some(r) => r,
        None => (0i32, 0i32, 0i32, 0i32),
    };
    match u {
        UpdateState::All(all) => (
            Some((all.pts, all.qts, all.date, all.seq)),
            channel_map(all.channels@),
        ),
        UpdateState::Primary { pts, date, seq } => (Some((pts, q, date, seq)), v.1),
        UpdateState::Secondary { qts } => (Some((p, qts, d, s)), v.1),
        UpdateState::Channel { id, pts } => (v.0, v.1.insert(id, pts)),
    }
}

/// What reading the store gives: the account row, or zeros when none was
/// written, and the channel map.
pub open spec fn read_view(v: UpdatesView) -> (i32, i32, i32, i32, Map<i64, i32>) {
    let (p, q, d, s) = match v.0 {
        Some(r) => r,
        None => (0i32, 0i32, 0i32, 0i32),
    };
    (p, q, d, s, v.1)
}

/// Whether a change can be applied: a full replacement must not list a
/// channel twice.
pub open spec fn update_ok(u: UpdateState) -> bool {
    match u {
        UpdateState::All(all) => distinct_ids(all.channels@),
        _ => true,
    }
}

proof fn lemma_channel_map_update(cs: Seq<ChannelState>, k: int, pts: i32)
    requires
        0 <= k < cs.len(),
        distinct_ids(cs),
    ensures
        channel_map(cs.update(k, ChannelState { id: cs[k].id, pts })) == channel_map(cs).insert(
            cs[k].id,
            pts,
        ),
    decreases cs.len(),
{
    let c = ChannelState { id: cs[k].id, pts };
    let u = cs.update(k, c);
    if k == cs.len() - 1 {
        assert(u.drop_last() =~= cs.drop_last());
        assert(channel_map(u) =~= channel_map(cs).insert(cs[k].id, pts));
    } else {
        let d = cs.drop_last();
        assert(u.drop_last() =~= d.update(k, c));
        assert(d[k] == cs[k]);
        assert forall|i: int, j: int| 0 <= i < j < d.len() implies #[trigger] d[i].id
            != #[trigger] d[j].id by {
            assert(d[i] == cs[i] && d[j] == cs[j]);
        }
        lemma_channel_map_update(d, k, pts);
        assert(cs.last() == cs[cs.len() - 1]);
        assert(cs[k].id != cs[cs.len() - 1].id);
        assert(u.last() == cs.last());
        assert(channel_map(u) =~= channel_map(cs).insert(cs[k].id, pts));
    }
}

impl StoredUpdates {
    /// The abstract store.
    pub open spec fn view_of(&self) -> UpdatesView {
        (self.row, channel_map(self.channels@))
    }

    /// Whether the store is well formed: no channel is listed twice.
    pub open spec fn wf(&self) -> bool {
        distinct_ids(self.channels@)
    }

    /// A store that holds nothing yet.
    pub fn new() -> (r: StoredUpdates)
        ensures
            r.wf(),
            r.view_of() == (None::<(i32, i32, i32, i32)>, Map::<i64, i32>::empty()),
    {
        StoredUpdates { row: None, channels: Vec::new() }
    }

    /// What the session reads back: the account row (zeros when none was
    /// written) and every channel's position.
    pub fn updates_state(&self) -> (r: UpdatesState)
        ensures
            ({
                let (p, q, d, s, m) = read_view(self.view_of());
                r.pts == p && r.qts == q && r.date == d && r.seq == s && r.channels@
                    == self.channels@ && channel_map(r.channels@) == m
            }),
    {
        let (pts, qts, date, seq) = match self.row {
            Some(r) => r,
            None => (0, 0, 0, 0),
        };
        let mut channels: Vec<ChannelState> = Vec::new();
        for i in 0..self.channels.len()
            invariant
                channels@ == self.channels@.take(i as int),
        {
            channels.push(self.channels[i]);
            assert(self.channels@.take(i + 1) == self.channels@.take(i as int).push(
                self.channels@[i as int],
            ));
        }
        assert(self.channels@.take(self.channels.len() as int) == self.channels@);
        UpdatesState { pts, qts, date, seq, channels }
    }

    fn set_channel(&mut self, id: i64, pts: i32)
        requires
            old(self).wf(),
        ensures
            final(self).wf(),
            final(self).row == old(self).row,
            final(self).view_of().1 == old(self).view_of().1.insert(id, pts),
    {
        let n = self.channels.len();
        for k in 0..n
            invariant
                n == self.channels.len(),
                self.wf(),
                self.row == old(self).row,
                self.channels@ == old(self).channels@,
                forall|j: int| 0 <= j < k ==> self.channels@[j].id != id,
        {
            if self.channels[k].id == id {
                proof {
                    lemma_channel_map_update(self.channels@, k as int, pts);
                }
                let ghost before = self.channels@;
                self.channels.set(k, ChannelState { id, pts });
                assert(self.channels@ == before.update(k as int, ChannelState { id, pts }));
                assert forall|i: int, j: int| 0 <= i < j < self.channels@.len() implies
                    #[trigger] self.channels@[i].id != #[trigger] self.channels@[j].id by {
                    assert(before[i].id != before[j].id);
                }
                return;
            }
        }
        let ghost before = self.channels@;
        self.channels.push(ChannelState { id, pts });
        assert(self.channels@.drop_last() == before);
        assert forall|i: int, j: int| 0 <= i < j < self.channels@.len() implies #[trigger] self.channels@[i].id
            != #[trigger] self.channels@[j].id by {
            if j < before.len() {
                assert(before[i].id != before[j].id);
            }
        }
    }

    /// Applies one change, as `set_update_state` does.
    pub fn apply(&mut self, update: UpdateState)
        requires
            old(self).wf(),
            update_ok(update),
        ensures
            final(self).wf(),
            final(self).view_of() == applied(old(self).view_of(), update),
            update matches UpdateState::All(all) ==> final(self).channels@ == all.channels@,
            (update is Primary || update is Secondary) ==> final(self).channels@ == old(
                self,
            ).channels@,
    {
        let (p, q, d, s) = match self.row {
            Some(r) => r,
            None => (0, 0, 0, 0),
        };
        match update {
            UpdateState::All(all) => {
                self.row = Some((all.pts, all.qts, all.date, all.seq));
                self.channels = all.channels;
            },
            UpdateState::Primary { pts, date, seq } => {
                self.row = Some((pts, q, date, seq));
            },
            UpdateState::Secondary { qts } => {
                self.row = Some((p, qts, d, s));
            },
            UpdateState::Channel { id, pts } => {
                self.set_channel(id, pts);
            },
        }
    }
}

/// A secondary change followed by a primary one leaves the secondary value in
/// place next to the new primary values, whatever was stored before.
pub proof fn lemma_primary_keeps_secondary(v: UpdatesView, qts: i32, pts: i32, date: i32, seq: i32)
    ensures
        ({
            let w = applied(
                applied(v, UpdateState::Secondary { qts }),
                UpdateState::Primary { pts, date, seq },
            );
            let (p, q, d, s, m) = read_view(w);
            p == pts && q == qts && d == date && s == seq && m == v.1
        }),
{
}

/// Primary and secondary changes commute.
pub proof fn lemma_primary_secondary_commute(
    v: UpdatesView,
    qts: i32,
    pts: i32,
    date: i32,
    seq: i32,
)
    ensures
        applied(applied(v, UpdateState::Secondary { qts }), UpdateState::Primary { pts, date, seq })
            == applied(
            applied(v, UpdateState::Primary { pts, date, seq }),
            UpdateState::Secondary { qts },
        ),
{
}

/// A full replacement is read back exactly as written.
pub proof fn lemma_all_reads_back(v: UpdatesView, all: UpdatesState)
    ensures
        ({
            let (p, q, d, s, m) = read_view(applied(v, UpdateState::All(all)));
            p == all.pts && q == all.qts && d == all.date && s == all.seq && m == channel_map(
                all.channels@,
            )
        }),
{
}

/// A channel change sets that channel only and leaves the account row alone.
pub proof fn lemma_channel_change_is_local(v: UpdatesView, id: i64, pts: i32, other: i64)
    requires
        other != id,
    ensures
        applied(v, UpdateState::Channel { id, pts }).0 == v.0,
        applied(v, UpdateState::Channel { id, pts }).1[id] == pts,
        v.1.contains_key(other) ==> applied(v, UpdateState::Channel { id, pts }).1[other]
            == v.1[other],
        v.1.contains_key(other) == applied(v, UpdateState::Channel { id, pts }).1.contains_key(
            other,
        ),
{
}

/// Whether no two entries of `channels` share an id.
pub fn channels_distinct(channels: &Vec<ChannelState>) -> (r: bool)
    ensures
        r == distinct_ids(channels@),
{
    let n = channels.len();
    for i in 0..n
        invariant
            n == channels.len(),
            forall|a: int, b: int|
                0 <= a < i && a < b < n ==> #[trigger] channels@[a].id != #[trigger] channels@[b].id,
    {
        for j in i + 1..n
            invariant
                n == channels.len(),
                i < n,
                forall|a: int, b: int|
                    0 <= a < i && a < b < n ==> #[trigger] channels@[a].id
                        != #[trigger] channels@[b].id,
                forall|b: int| i < b < j ==> channels@[i as int].id != #[trigger] channels@[b].id,
        {
            if channels[i].id == channels[j].id {
                return false;
            }
        }
    }
    true
}

} // verus!
