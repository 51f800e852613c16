//! The client's mutable projection of server truth, and the dispatch rules
//! that every decoded inbound packet applies to it.
//!
//! The session is owned by the reader loop; the input loop sees it only
//! through a short-held exclusive borrow. All mutation goes through
//! `apply_packet`, whose contract pins, packet kind by packet kind, both the
//! state change and the effect handed back to the surrounding I/O layer.
use vstd::prelude::*;
use vstd::string::StringExecFns;
use crate::packet::{Packet, Channel, Group, User};
use crate::groups::{
    groups_wf, has_group, group_insert_new, group_update, group_delete, shift_groups_for_move,
    bump_groups_from, close_groups_above,
};
use crate::TYPING_TIMEOUT;
use crate::ERR_LOGIN_INVALID;
use crate::ERR_LOGIN_BANNED;
use crate::ERR_GROUP_INVALID_POS;
use crate::ERR_GROUP_LOCKED_NAME;
use crate::ERR_LIMIT_REACHED;
use crate::ERR_MISSING_PERMISSION;
use crate::ERR_NAME_TAKEN;
use crate::ERR_UNKNOWN_CHANNEL;
use crate::ERR_UNKNOWN_GROUP;

verus! {

broadcast use vstd::seq_lib::group_seq_lib_default, vstd::group_vstd_default;

/// One typing indicator: who, where, and when it was last announced.
#[derive(Clone, Copy, Debug, PartialEq, Eq, Structural)]
pub struct TypingEntry {
    pub author: usize,
    pub channel: usize,
    pub time: u64,
}

/// The in-memory session state: who we are, what we look at, and the maps
/// the server keeps us updated on.
#[derive(Debug)]
pub struct Session {
    pub id: usize,
    pub channel: Option<usize>,
    pub channels: Vec<Channel>,
    pub groups: Vec<Group>,
    pub users: Vec<User>,
    pub typing: Vec<TypingEntry>,
    pub last: Option<(usize, Vec<u8>)>,
}

// ---------------------------------------------------------------------------
// Channel map.
// ---------------------------------------------------------------------------
pub open spec fn channels_unique(cs: Seq<Channel>) -> bool {
    forall|i: int, j: int| 0 <= i < j < cs.len() ==> #[trigger] cs[i].id != #[trigger] cs[j].id
}

pub open spec fn has_channel(cs: Seq<Channel>, id: usize) -> bool {
    exists|i: int| 0 <= i < cs.len() && cs[i].id == id
}

pub open spec fn chan_index_of(cs: Seq<Channel>, id: usize) -> int {
    choose|i: int| 0 <= i < cs.len() && cs[i].id == id
}

/// Where an upsert leaves the channel map: the one entry with the announced
/// identity replaced wholesale, or a fresh entry appended.
pub open spec fn spec_chan_upsert(cs: Seq<Channel>, c: Channel) -> Seq<Channel> {
    if has_channel(cs, c.id) {
        cs.update(chan_index_of(cs, c.id), c)
    } else {
        cs.push(c)
    }
}

/// Where a delete leaves the channel map: the one entry with that identity
/// gone, or everything untouched when none holds it.
pub open spec fn spec_chan_remove(cs: Seq<Channel>, id: usize) -> Seq<Channel> {
    if has_channel(cs, id) {
        cs.remove(chan_index_of(cs, id))
    } else {
        cs
    }
}

pub fn channel_upsert(channels: &mut Vec<Channel>, c: Channel)
    requires
        channels_unique(old(channels)@),
    ensures
        channels_unique(final(channels)@),
        final(channels)@ == spec_chan_upsert(old(channels)@, c),
{
    let mut i: usize = 0;
    while i < channels.len()
        invariant
            i <= channels@.len(),
            channels@ == old(channels)@,
            channels_unique(channels@),
            forall|k: int| 0 <= k < i ==> channels@[k].id != c.id,
        decreases channels@.len() - i,
    {
        if channels[i].id == c.id {
            channels[i] = c;
            proof {
                let j = chan_index_of(old(channels)@, c.id);
                assert(old(channels)@[i as int].id == c.id);
                assert(j == i as int);
            }
            return ;
        }
        i += 1;
    }
    channels.push(c);
}

pub fn channel_remove(channels: &mut Vec<Channel>, id: usize)
    requires
        channels_unique(old(channels)@),
    ensures
        channels_unique(final(channels)@),
        final(channels)@ == spec_chan_remove(old(channels)@, id),
{
    let mut i: usize = 0;
    while i < channels.len()
        invariant
            i <= channels@.len(),
            channels@ == old(channels)@,
            channels_unique(channels@),
            forall|k: int| 0 <= k < i ==> channels@[k].id != id,
        decreases channels@.len() - i,
    {
        if channels[i].id == id {
            channels.remove(i);
            proof {
                let j = chan_index_of(old(channels)@, id);
                assert(old(channels)@[i as int].id == id);
                assert(j == i as int);
            }
            return ;
        }
        i += 1;
    }
}

/// Law: the same `ChannelReceive` applied twice leaves the channel map as
/// the first application left it — one entry for that identity, holding the
/// latest values.
pub proof fn lemma_channel_upsert_idempotent(cs: Seq<Channel>, c: Channel)
    requires
        channels_unique(cs),
    ensures
        spec_chan_upsert(spec_chan_upsert(cs, c), c) == spec_chan_upsert(cs, c),
        exists|i: int|
            {
                &&& 0 <= i < spec_chan_upsert(cs, c).len()
                &&& #[trigger] spec_chan_upsert(cs, c)[i] == c
                &&& forall|k: int|
                    0 <= k < spec_chan_upsert(cs, c).len() && k != i
                        ==> #[trigger] spec_chan_upsert(cs, c)[k].id != c.id
            },
{
    let r = spec_chan_upsert(cs, c);
    if has_channel(cs, c.id) {
        let j = chan_index_of(cs, c.id);
        assert(0 <= j < cs.len() && cs[j].id == c.id);
        assert(r[j] == c);
        assert(has_channel(r, c.id));
        let j2 = chan_index_of(r, c.id);
        assert(0 <= j2 < r.len() && r[j2].id == c.id);
        assert(j2 == j);
        assert(spec_chan_upsert(r, c) =~= r);
    } else {
        assert(r[cs.len() as int] == c);
        assert(has_channel(r, c.id));
        let j2 = chan_index_of(r, c.id);
        assert(0 <= j2 < r.len() && r[j2].id == c.id);
        assert(forall|k: int| 0 <= k < cs.len() ==> #[trigger] r[k].id != c.id);
        assert(j2 == cs.len() as int);
        assert(spec_chan_upsert(r, c) =~= r);
    }
}

// ---------------------------------------------------------------------------
// User map.
// ---------------------------------------------------------------------------
pub open spec fn users_unique(us: Seq<User>) -> bool {
    forall|i: int, j: int| 0 <= i < j < us.len() ==> #[trigger] us[i].id != #[trigger] us[j].id
}

pub open spec fn has_user(us: Seq<User>, id: usize) -> bool {
    exists|i: int| 0 <= i < us.len() && us[i].id == id
}

pub open spec fn user_index_of(us: Seq<User>, id: usize) -> int {
    choose|i: int| 0 <= i < us.len() && us[i].id == id
}

/// The name an author id displays as, when the author is known.
pub open spec fn spec_user_name(us: Seq<User>, id: usize) -> Option<Seq<char>> {
    if has_user(us, id) {
        Option::Some(us[user_index_of(us, id)].name@)
    } else {
        Option::None
    }
}

pub open spec fn spec_user_upsert(us: Seq<User>, u: User) -> Seq<User> {
    if has_user(us, u.id) {
        us.update(user_index_of(us, u.id), u)
    } else {
        us.push(u)
    }
}

pub fn user_upsert(users: &mut Vec<User>, u: User)
    requires
        users_unique(old(users)@),
    ensures
        users_unique(final(users)@),
        final(users)@ == spec_user_upsert(old(users)@, u),
{
    let mut i: usize = 0;
    while i < users.len()
        invariant
            i <= users@.len(),
            users@ == old(users)@,
            users_unique(users@),
            forall|k: int| 0 <= k < i ==> users@[k].id != u.id,
        decreases users@.len() - i,
    {
        if users[i].id == u.id {
            users[i] = u;
            proof {
                let j = user_index_of(old(users)@, u.id);
                assert(old(users)@[i as int].id == u.id);
                assert(j == i as int);
            }
            return ;
        }
        i += 1;
    }
    users.push(u);
}

/// Looks an author up and hands out its display name.
pub fn user_name(users: &Vec<User>, id: usize) -> (r: Option<String>)
    requires
        users_unique(users@),
    ensures
        match r {
            Some(n) => spec_user_name(users@, id) == Option::Some(n@),
            None => spec_user_name(users@, id) is None,
        },
{
    let mut i: usize = 0;
    while i < users.len()
        invariant
            i <= users@.len(),
            users_unique(users@),
            forall|k: int| 0 <= k < i ==> users@[k].id != id,
        decreases users@.len() - i,
    {
        if users[i].id == id {
            proof {
                let j = user_index_of(users@, id);
                assert(users@[i as int].id == id);
                assert(j == i as int);
            }
            return Some(users[i].name.clone());
        }
        i += 1;
    }
    None
}

/// Law: the same `UserReceive` applied twice leaves the user map as the
/// first application left it — one entry for that identity, holding the
/// latest values.
pub proof fn lemma_user_upsert_idempotent(us: Seq<User>, u: User)
    requires
        users_unique(us),
    ensures
        spec_user_upsert(spec_user_upsert(us, u), u) == spec_user_upsert(us, u),
        exists|i: int|
            {
                &&& 0 <= i < spec_user_upsert(us, u).len()
                &&& #[trigger] spec_user_upsert(us, u)[i] == u
                &&& forall|k: int|
                    0 <= k < spec_user_upsert(us, u).len() && k != i
                        ==> #[trigger] spec_user_upsert(us, u)[k].id != u.id
            },
{
    let r = spec_user_upsert(us, u);
    if has_user(us, u.id) {
        let j = user_index_of(us, u.id);
        assert(0 <= j < us.len() && us[j].id == u.id);
        assert(r[j] == u);
        assert(has_user(r, u.id));
        let j2 = user_index_of(r, u.id);
        assert(0 <= j2 < r.len() && r[j2].id == u.id);
        assert(j2 == j);
        assert(spec_user_upsert(r, u) =~= r);
    } else {
        assert(r[us.len() as int] == u);
        assert(has_user(r, u.id));
        let j2 = user_index_of(r, u.id);
        assert(0 <= j2 < r.len() && r[j2].id == u.id);
        assert(forall|k: int| 0 <= k < us.len() ==> #[trigger] r[k].id != u.id);
        assert(j2 == us.len() as int);
        assert(spec_user_upsert(r, u) =~= r);
    }
}

// ---------------------------------------------------------------------------
// Typing indicators.
// ---------------------------------------------------------------------------
pub open spec fn typing_unique(ts: Seq<TypingEntry>) -> bool {
    forall|i: int, j: int|
        0 <= i < j < ts.len() ==> !(#[trigger] ts[i].author == #[trigger] ts[j].author
            && ts[i].channel == ts[j].channel)
}

pub open spec fn has_typing(ts: Seq<TypingEntry>, author: usize, channel: usize) -> bool {
    exists|i: int| 0 <= i < ts.len() && ts[i].author == author && ts[i].channel == channel
}

pub open spec fn typing_index_of(ts: Seq<TypingEntry>, author: usize, channel: usize) -> int {
    choose|i: int| 0 <= i < ts.len() && ts[i].author == author && ts[i].channel == channel
}

pub open spec fn spec_typing_refresh(
    ts: Seq<TypingEntry>,
    author: usize,
    channel: usize,
    now: u64,
) -> Seq<TypingEntry> {
    if has_typing(ts, author, channel) {
        ts.update(typing_index_of(ts, author, channel), TypingEntry { author, channel, time: now })
    } else {
        ts.push(TypingEntry { author, channel, time: now })
    }
}

pub open spec fn spec_typing_remove(
    ts: Seq<TypingEntry>,
    author: usize,
    channel: usize,
) -> Seq<TypingEntry> {
    if has_typing(ts, author, channel) {
        ts.remove(typing_index_of(ts, author, channel))
    } else {
        ts
    }
}

/// An entry recorded at `time` still counts at `now` while less than
/// `TYPING_TIMEOUT` seconds have passed.
pub open spec fn typing_live(time: u64, now: u64) -> bool {
    now < time || now - time < TYPING_TIMEOUT
}

/// What a sweep leaves: the live entries, in order.
pub open spec fn spec_typing_sweep(ts: Seq<TypingEntry>, now: u64) -> Seq<TypingEntry>
    decreases ts.len(),
{
    if ts.len() == 0 {
        Seq::empty()
    } else {
        let rest = spec_typing_sweep(ts.drop_first(), now);
        if typing_live(ts[0].time, now) {
            seq![ts[0]] + rest
        } else {
            rest
        }
    }
}

pub fn typing_refresh(typing: &mut Vec<TypingEntry>, author: usize, channel: usize, now: u64)
    requires
        typing_unique(old(typing)@),
    ensures
        typing_unique(final(typing)@),
        final(typing)@ == spec_typing_refresh(old(typing)@, author, channel, now),
{
    let mut i: usize = 0;
    while i < typing.len()
        invariant
            i <= typing@.len(),
            typing@ == old(typing)@,
            typing_unique(typing@),
            forall|k: int|
                0 <= k < i ==> !(#[trigger] typing@[k].author == author && typing@[k].channel
                    == channel),
        decreases typing@.len() - i,
    {
        if typing[i].author == author && typing[i].channel == channel {
            typing[i] = TypingEntry { author, channel, time: now };
            proof {
                let j = typing_index_of(old(typing)@, author, channel);
                assert(old(typing)@[i as int].author == author && old(typing)@[i as int].channel
                    == channel);
                assert(j == i as int);
            }
            return ;
        }
        i += 1;
    }
    typing.push(TypingEntry { author, channel, time: now });
}

pub fn typing_remove(typing: &mut Vec<TypingEntry>, author: usize, channel: usize)
    requires
        typing_unique(old(typing)@),
    ensures
        typing_unique(final(typing)@),
        final(typing)@ == spec_typing_remove(old(typing)@, author, channel),
{
    let mut i: usize = 0;
    while i < typing.len()
        invariant
            i <= typing@.len(),
            typing@ == old(typing)@,
            typing_unique(typing@),
            forall|k: int|
                0 <= k < i ==> !(#[trigger] typing@[k].author == author && typing@[k].channel
                    == channel),
        decreases typing@.len() - i,
    {
        if typing[i].author == author && typing[i].channel == channel {
            typing.remove(i);
            proof {
                let j = typing_index_of(old(typing)@, author, channel);
                assert(old(typing)@[i as int].author == author && old(typing)@[i as int].channel
                    == channel);
                assert(j == i as int);
            }
            return ;
        }
        i += 1;
    }
}

/// What stands in the swept set: exactly the live entries, and key
/// uniqueness survives.
proof fn lemma_sweep_props(ts: Seq<TypingEntry>, now: u64)
    ensures
        forall|x: TypingEntry| #[trigger]
            spec_typing_sweep(ts, now).contains(x) <==> (ts.contains(x) && typing_live(
                x.time,
                now,
            )),
        typing_unique(ts) ==> typing_unique(spec_typing_sweep(ts, now)),
    decreases ts.len(),
{
    if ts.len() == 0 {
        assert forall|x: TypingEntry| !(#[trigger] spec_typing_sweep(ts, now).contains(x)) by {}
        assert forall|x: TypingEntry| !ts.contains(x) by {}
    } else {
        let rest = ts.drop_first();
        let swr = spec_typing_sweep(rest, now);
        let sw = spec_typing_sweep(ts, now);
        lemma_sweep_props(rest, now);
        assert forall|x: TypingEntry| #[trigger] ts.contains(x) implies x == ts[0]
            || rest.contains(x) by {
            let i = choose|i: int| 0 <= i < ts.len() && ts[i] == x;
            if i > 0 {
                assert(rest[i - 1] == x);
            }
        }
        assert forall|x: TypingEntry| #[trigger] rest.contains(x) implies ts.contains(x) by {
            let i = choose|i: int| 0 <= i < rest.len() && rest[i] == x;
            assert(ts[i + 1] == x);
        }
        if typing_live(ts[0].time, now) {
            assert(sw == seq![ts[0]] + swr);
            assert(sw[0] == ts[0]);
            assert forall|x: TypingEntry| #[trigger] sw.contains(x) implies x == ts[0]
                || swr.contains(x) by {
                let i = choose|i: int| 0 <= i < sw.len() && sw[i] == x;
                if i > 0 {
                    assert(swr[i - 1] == x);
                }
            }
            assert(ts.contains(ts[0]));
            assert forall|x: TypingEntry| #[trigger] swr.contains(x) implies sw.contains(x) by {
                let i = choose|i: int| 0 <= i < swr.len() && swr[i] == x;
                assert(sw[i + 1] == x);
            }
            assert forall|x: TypingEntry| #[trigger] sw.contains(x) implies (ts.contains(x)
                && typing_live(x.time, now)) by {
                if x == ts[0] {
                } else {
                    assert(swr.contains(x));
                    assert(rest.contains(x));
                }
            }
            assert forall|x: TypingEntry| ts.contains(x) && typing_live(x.time, now) implies
                #[trigger] sw.contains(x) by {
                if x == ts[0] {
                    assert(sw[0] == x);
                } else {
                    assert(rest.contains(x));
                    assert(swr.contains(x));
                }
            }
            if typing_unique(ts) {
                assert forall|i: int, j: int|
                    0 <= i < j < sw.len() implies !(#[trigger] sw[i].author == #[trigger] sw[j].author
                    && sw[i].channel == sw[j].channel) by {
                    if i == 0 {
                        assert(swr.contains(sw[j]));
                        assert(rest.contains(sw[j]));
                        let k = choose|k: int| 0 <= k < rest.len() && rest[k] == sw[j];
                        assert(ts[k + 1] == sw[j]);
                        assert(!(ts[0].author == ts[k + 1].author && ts[0].channel == ts[k
                            + 1].channel));
                    } else {
                        assert(sw[i] == swr[i - 1]);
                        assert(sw[j] == swr[j - 1]);
                    }
                }
            }
        } else {
            assert(sw == swr);
            assert forall|x: TypingEntry| #[trigger] sw.contains(x) implies (ts.contains(x)
                && typing_live(x.time, now)) by {
                assert(swr.contains(x));
                assert(rest.contains(x));
            }
            assert forall|x: TypingEntry| ts.contains(x) && typing_live(x.time, now) implies
                #[trigger] sw.contains(x) by {
                if x == ts[0] {
                } else {
                    assert(rest.contains(x));
                    assert(swr.contains(x));
                }
            }
        }
    }
}

/// Drops every stale typing entry; the live ones stay in order.
pub fn typing_sweep(typing: &mut Vec<TypingEntry>, now: u64)
    requires
        typing_unique(old(typing)@),
    ensures
        typing_unique(final(typing)@),
        final(typing)@ == spec_typing_sweep(old(typing)@, now),
{
    let kept = typing_sweep_from(typing, now, 0);
    proof {
        assert(old(typing)@.skip(0) =~= old(typing)@);
    }
    *typing = kept;
    proof {
        lemma_sweep_props(old(typing)@, now);
    }
}

fn typing_sweep_from(typing: &Vec<TypingEntry>, now: u64, start: usize) -> (r: Vec<TypingEntry>)
    requires
        start <= typing@.len(),
    ensures
        r@ == spec_typing_sweep(typing@.skip(start as int), now),
    decreases typing@.len() - start,
{
    if start >= typing.len() {
        let r: Vec<TypingEntry> = Vec::new();
        proof {
            assert(typing@.skip(start as int) =~= Seq::<TypingEntry>::empty());
        }
        r
    } else {
        let e = typing[start];
        let mut rest = typing_sweep_from(typing, now, start + 1);
        proof {
            assert(typing@.skip(start as int).drop_first() =~= typing@.skip(start as int + 1));
            assert(typing@.skip(start as int)[0] == typing@[start as int]);
        }
        let live = if now < e.time {
            true
        } else {
            now - e.time < TYPING_TIMEOUT
        };
        if live {
            let mut r: Vec<TypingEntry> = Vec::new();
            r.push(e);
            r.append(&mut rest);
            proof {
                assert(r@ =~= spec_typing_sweep(typing@.skip(start as int), now));
            }
            r
        } else {
            rest
        }
    }
}

/// Law: a typing entry recorded at time `t` still stands in the swept set
/// while the timeout has not passed, and is gone once it has.
pub proof fn lemma_typing_expiry(ts: Seq<TypingEntry>, e: TypingEntry, now: u64)
    requires
        ts.contains(e),
    ensures
        spec_typing_sweep(ts, now).contains(e) <==> now < e.time || now - e.time < TYPING_TIMEOUT,
{
    lemma_sweep_props(ts, now);
}

// ---------------------------------------------------------------------------
// The typing display: names of everyone typing in the focused channel.
// ---------------------------------------------------------------------------
pub open spec fn spec_typing_names(
    ts: Seq<TypingEntry>,
    us: Seq<User>,
    focused: Option<usize>,
) -> Seq<Seq<char>>
    decreases ts.len(),
{
    if ts.len() == 0 {
        Seq::empty()
    } else {
        let rest = spec_typing_names(ts.drop_first(), us, focused);
        if focused == Option::Some(ts[0].channel) {
            match spec_user_name(us, ts[0].author) {
                Option::Some(n) => seq![n] + rest,
                Option::None => rest,
            }
        } else {
            rest
        }
    }
}

/// Filters the typing set to the focused channel and maps each author to a
/// display name, silently dropping authors the user map does not know.
pub fn typing_names(
    typing: &[TypingEntry],
    users: &Vec<User>,
    focused: Option<usize>,
) -> (r: Vec<String>)
    requires
        users_unique(users@),
    ensures
        crate::packet::strs_view(r@) == spec_typing_names(typing@, users@, focused),
{
    let r = typing_names_from(typing, users, focused, 0);
    proof {
        assert(typing@.skip(0) =~= typing@);
    }
    r
}

fn typing_names_from(
    typing: &[TypingEntry],
    users: &Vec<User>,
    focused: Option<usize>,
    start: usize,
) -> (r: Vec<String>)
    requires
        users_unique(users@),
        start <= typing@.len(),
    ensures
        crate::packet::strs_view(r@) == spec_typing_names(
            typing@.skip(start as int),
            users@,
            focused,
        ),
    decreases typing@.len() - start,
{
    if start >= typing.len() {
        let r: Vec<String> = Vec::new();
        proof {
            assert(typing@.skip(start as int) =~= Seq::<TypingEntry>::empty());
            assert(crate::packet::strs_view(r@) =~= Seq::<Seq<char>>::empty());
        }
        r
    } else {
        let e = *vstd::slice::slice_index_get(typing, start);
        let mut rest = typing_names_from(typing, users, focused, start + 1);
        proof {
            assert(typing@.skip(start as int).drop_first() =~= typing@.skip(start as int + 1));
            assert(typing@.skip(start as int)[0] == typing@[start as int]);
        }
        let wanted = match focused {
            Some(c) => c == e.channel,
            None => false,
        };
        if wanted {
            match user_name(users, e.author) {
                Some(n) => {
                    let mut r: Vec<String> = Vec::new();
                    r.push(n);
                    r.append(&mut rest);
                    proof {
                        assert(crate::packet::strs_view(r@) =~= spec_typing_names(
                            typing@.skip(start as int),
                            users@,
                            focused,
                        ));
                    }
                    r
                },
                None => {
                    proof {
                        assert(crate::packet::strs_view(rest@) =~= spec_typing_names(
                            typing@.skip(start as int),
                            users@,
                            focused,
                        ));
                    }
                    rest
                },
            }
        } else {
            proof {
                assert(crate::packet::strs_view(rest@) =~= spec_typing_names(
                    typing@.skip(start as int),
                    users@,
                    focused,
                ));
            }
            rest
        }
    }
}


// ---------------------------------------------------------------------------
// Protocol error notices.
// ---------------------------------------------------------------------------
pub open spec fn spec_digit(d: u8) -> Seq<char> {
    if d == 0 {
        "0"@
    } else if d == 1 {
        "1"@
    } else if d == 2 {
        "2"@
    } else if d == 3 {
        "3"@
    } else if d == 4 {
        "4"@
    } else if d == 5 {
        "5"@
    } else if d == 6 {
        "6"@
    } else if d == 7 {
        "7"@
    } else if d == 8 {
        "8"@
    } else {
        "9"@
    }
}

/// The decimal rendering of a byte, without leading zeroes.
pub open spec fn spec_u8_decimal(n: u8) -> Seq<char> {
    if n < 10 {
        spec_digit(n)
    } else if n < 100 {
        spec_digit(n / 10) + spec_digit(n % 10)
    } else {
        spec_digit(n / 100) + spec_digit((n / 10) % 10) + spec_digit(n % 10)
    }
}

fn digit_str(d: u8) -> (r: &'static str)
    requires
        d < 10,
    ensures
        r@ == spec_digit(d),
{
    if d == 0 {
        "0"
    } else if d == 1 {
        "1"
    } else if d == 2 {
        "2"
    } else if d == 3 {
        "3"
    } else if d == 4 {
        "4"
    } else if d == 5 {
        "5"
    } else if d == 6 {
        "6"
    } else if d == 7 {
        "7"
    } else if d == 8 {
        "8"
    } else {
        "9"
    }
}

fn u8_decimal(n: u8) -> (r: String)
    ensures
        r@ == spec_u8_decimal(n),
{
    if n < 10 {
        String::from_str(digit_str(n))
    } else if n < 100 {
        let mut r = String::from_str(digit_str(n / 10));
        r.append(digit_str(n % 10));
        r
    } else {
        let mut r = String::from_str(digit_str(n / 100));
        r.append(digit_str((n / 10) % 10));
        r.append(digit_str(n % 10));
        r
    }
}

/// The human-readable notice each protocol error code maps to; a code
/// outside the table degrades to a generic notice carrying its raw value.
pub open spec fn spec_error_notice(code: u8) -> Seq<char> {
    if code == ERR_LOGIN_INVALID {
        "Invalid credentials"@
    } else if code == ERR_LOGIN_BANNED {
        "You are banned from this server"@
    } else if code == ERR_GROUP_INVALID_POS {
        "Invalid group position"@
    } else if code == ERR_GROUP_LOCKED_NAME {
        "Can not change the name of that group"@
    } else if code == ERR_LIMIT_REACHED {
        "Too short or too long. No idea which"@
    } else if code == ERR_MISSING_PERMISSION {
        "Missing permission"@
    } else if code == ERR_NAME_TAKEN {
        "Name is already taken"@
    } else if code == ERR_UNKNOWN_CHANNEL {
        "This channel was deleted"@
    } else if code == ERR_UNKNOWN_GROUP {
        "This group was deleted"@
    } else {
        "Unknown error code "@ + spec_u8_decimal(code)
    }
}

/// Maps a protocol error code to its notice.
pub fn error_notice(code: u8) -> (r: String)
    ensures
        r@ == spec_error_notice(code),
{
    if code == ERR_LOGIN_INVALID {
        String::from_str("Invalid credentials")
    } else if code == ERR_LOGIN_BANNED {
        String::from_str("You are banned from this server")
    } else if code == ERR_GROUP_INVALID_POS {
        String::from_str("Invalid group position")
    } else if code == ERR_GROUP_LOCKED_NAME {
        String::from_str("Can not change the name of that group")
    } else if code == ERR_LIMIT_REACHED {
        String::from_str("Too short or too long. No idea which")
    } else if code == ERR_MISSING_PERMISSION {
        String::from_str("Missing permission")
    } else if code == ERR_NAME_TAKEN {
        String::from_str("Name is already taken")
    } else if code == ERR_UNKNOWN_CHANNEL {
        String::from_str("This channel was deleted")
    } else if code == ERR_UNKNOWN_GROUP {
        String::from_str("This group was deleted")
    } else {
        let digits = u8_decimal(code);
        let mut r = String::from_str("Unknown error code ");
        r.append(digits.as_str());
        r
    }
}

// ---------------------------------------------------------------------------
// Dispatch.
// ---------------------------------------------------------------------------
/// What the reader loop must do after a packet was applied: the one UI or
/// storage side effect the packet calls for. State changes are already done.
#[derive(Debug)]
pub enum Effect {
    /// Repaint: the session state changed, nothing else to say.
    Refresh,
    /// Show one log line.
    Notice(String),
    /// Persist the session token under the server's address.
    StoreToken(String),
    /// Show a chat message in the focused channel.
    ShowMessage { id: usize, author_name: String, text: Vec<u8> },
    /// Drop the log entry of a deleted message.
    DeleteMessage { id: usize },
    /// Fetch the private key for this recipient and decrypt the message.
    PmLookup { author: usize, text: Vec<u8> },
    /// Tell the user how long to wait before sending again.
    RateLimitedNotice(u64),
    /// A packet the reader has no rule for: log its raw form and go on.
    Unhandled(Packet),
}

pub open spec fn session_wf(s: &Session) -> bool {
    &&& channels_unique(s.channels@)
    &&& users_unique(s.users@)
    &&& groups_wf(s.groups@)
    &&& typing_unique(s.typing@)
}

pub open spec fn same_identity(a: &Session, b: &Session) -> bool {
    a.id == b.id && a.channel == b.channel
}

pub open spec fn spec_group_new_ok(gs: Seq<Group>, g: Group) -> bool {
    if has_group(gs, g.id) {
        g.pos < gs.len()
    } else {
        g.pos <= gs.len()
    }
}

/// How a `GroupReceive` marked new leaves the group list.
pub open spec fn group_new_applied(gs: Seq<Group>, gs2: Seq<Group>, g: Group) -> bool {
    if spec_group_new_ok(gs, g) {
        if has_group(gs, g.id) {
            exists|oi: int|
                {
                    &&& 0 <= oi < gs.len()
                    &&& gs[oi].id == g.id
                    &&& gs2 == shift_groups_for_move(gs, gs[oi].pos, g.pos).update(oi, g)
                }
        } else {
            gs2 == bump_groups_from(gs, g.pos).push(g)
        }
    } else {
        gs2 == gs
    }
}

pub open spec fn spec_group_update_ok(gs: Seq<Group>, g: Group) -> bool {
    if has_group(gs, g.id) {
        exists|oi: int| 0 <= oi < gs.len() && gs[oi].id == g.id && gs[oi].pos == g.pos
    } else {
        g.pos == gs.len()
    }
}

/// How a plain, position-keeping `GroupReceive` leaves the group list.
pub open spec fn group_update_applied(gs: Seq<Group>, gs2: Seq<Group>, g: Group) -> bool {
    if spec_group_update_ok(gs, g) {
        if has_group(gs, g.id) {
            exists|oi: int|
                {
                    &&& 0 <= oi < gs.len()
                    &&& gs[oi].id == g.id
                    &&& gs2 == gs.update(oi, g)
                }
        } else {
            gs2 == gs.push(g)
        }
    } else {
        gs2 == gs
    }
}

/// How a `GroupDeleteReceive` leaves the group list.
pub open spec fn group_delete_applied(gs: Seq<Group>, gs2: Seq<Group>, id: usize) -> bool {
    if has_group(gs, id) {
        exists|oi: int|
            {
                &&& 0 <= oi < gs.len()
                &&& gs[oi].id == id
                &&& gs2 == close_groups_above(gs, gs[oi].pos).remove(oi)
            }
    } else {
        gs2 == gs
    }
}

/// Applies one decoded inbound packet to the session, returning the side
/// effect the reader loop owes the UI or the credential store. The reader
/// never aborts on any packet: every variant, the unrecognized ones
/// included, has a rule here.
#[verifier::rlimit(100)]
#[verifier::spinoff_prover]
pub fn apply_packet(session: &mut Session, packet: Packet, now: u64) -> (eff: Effect)
    requires
        session_wf(old(session)),
    ensures
        session_wf(final(session)),
        same_identity(old(session), final(session)),
        match packet {
            Packet::ChannelReceive(p) => {
                &&& final(session).channels@ == spec_chan_upsert(old(session).channels@, p.inner)
                &&& final(session).groups == old(session).groups
                &&& final(session).users == old(session).users
                &&& final(session).typing == old(session).typing
                &&& final(session).last == old(session).last
                &&& eff matches Effect::Refresh
            },
            Packet::ChannelDeleteReceive(p) => {
                &&& final(session).channels@ == spec_chan_remove(
                    old(session).channels@,
                    p.inner.id,
                )
                &&& final(session).groups == old(session).groups
                &&& final(session).users == old(session).users
                &&& final(session).typing == old(session).typing
                &&& final(session).last == old(session).last
                &&& eff matches Effect::Refresh
            },
            Packet::GroupReceive(p) => {
                &&& p.new ==> group_new_applied(
                    old(session).groups@,
                    final(session).groups@,
                    p.inner,
                )
                &&& !p.new ==> group_update_applied(
                    old(session).groups@,
                    final(session).groups@,
                    p.inner,
                )
                &&& final(session).channels == old(session).channels
                &&& final(session).users == old(session).users
                &&& final(session).typing == old(session).typing
                &&& final(session).last == old(session).last
                &&& (if p.new {
                    spec_group_new_ok(old(session).groups@, p.inner)
                } else {
                    spec_group_update_ok(old(session).groups@, p.inner)
                }) ==> (eff matches Effect::Refresh)
                &&& !(if p.new {
                    spec_group_new_ok(old(session).groups@, p.inner)
                } else {
                    spec_group_update_ok(old(session).groups@, p.inner)
                }) ==> (eff matches Effect::Notice(n) && n@ ==
                    "Ignored a group at an impossible position"@)
            },
            Packet::GroupDeleteReceive(p) => {
                &&& group_delete_applied(
                    old(session).groups@,
                    final(session).groups@,
                    p.inner.id,
                )
                &&& final(session).channels == old(session).channels
                &&& final(session).users == old(session).users
                &&& final(session).typing == old(session).typing
                &&& final(session).last == old(session).last
                &&& eff matches Effect::Refresh
            },
            Packet::LoginSuccess(p) => {
                &&& final(session).channels == old(session).channels
                &&& final(session).groups == old(session).groups
                &&& final(session).users == old(session).users
                &&& final(session).typing == old(session).typing
                &&& final(session).last == old(session).last
                &&& eff matches Effect::StoreToken(t) && t@ == p.token@
            },
            Packet::MessageReceive(p) => {
                &&& final(session).typing@ == spec_typing_remove(
                    old(session).typing@,
                    p.inner.author,
                    p.inner.channel,
                )
                &&& final(session).channels == old(session).channels
                &&& final(session).groups == old(session).groups
                &&& final(session).users == old(session).users
                &&& final(session).last == (if has_user(old(session).users@, p.inner.author)
                    && p.inner.author == old(session).id {
                    Option::Some((p.inner.id, p.inner.text))
                } else {
                    old(session).last
                })
                &&& (if has_user(old(session).users@, p.inner.author) && old(session).channel
                    == Option::Some(p.inner.channel) {
                    eff matches Effect::ShowMessage { id, author_name, text } && id == p.inner.id
                        && Option::Some(author_name@) == spec_user_name(
                        old(session).users@,
                        p.inner.author,
                    ) && text@ == p.inner.text@
                } else {
                    eff matches Effect::Refresh
                })
            },
            Packet::MessageDeleteReceive(p) => {
                &&& final(session).channels == old(session).channels
                &&& final(session).groups == old(session).groups
                &&& final(session).users == old(session).users
                &&& final(session).typing == old(session).typing
                &&& final(session).last == old(session).last
                &&& eff matches Effect::DeleteMessage { id } && id == p.id
            },
            Packet::PMReceive(p) => {
                &&& final(session).channels == old(session).channels
                &&& final(session).groups == old(session).groups
                &&& final(session).users == old(session).users
                &&& final(session).typing == old(session).typing
                &&& final(session).last == old(session).last
                &&& eff matches Effect::PmLookup { author, text } && author == p.author && text@
                    == p.text@
            },
            Packet::RateLimited(secs) => {
                &&& final(session).channels == old(session).channels
                &&& final(session).groups == old(session).groups
                &&& final(session).users == old(session).users
                &&& final(session).typing == old(session).typing
                &&& final(session).last == old(session).last
                &&& eff matches Effect::RateLimitedNotice(s) && s == secs
            },
            Packet::TypingReceive(p) => {
                &&& final(session).typing@ == (if p.author != old(session).id {
                    spec_typing_refresh(old(session).typing@, p.author, p.channel, now)
                } else {
                    old(session).typing@
                })
                &&& final(session).channels == old(session).channels
                &&& final(session).groups == old(session).groups
                &&& final(session).users == old(session).users
                &&& final(session).last == old(session).last
                &&& eff matches Effect::Refresh
            },
            Packet::UserReceive(p) => {
                &&& final(session).users@ == spec_user_upsert(old(session).users@, p.inner)
                &&& final(session).channels == old(session).channels
                &&& final(session).groups == old(session).groups
                &&& final(session).typing == old(session).typing
                &&& final(session).last == old(session).last
                &&& eff matches Effect::Refresh
            },
            Packet::ErrCode(code) => {
                &&& final(session).channels == old(session).channels
                &&& final(session).groups == old(session).groups
                &&& final(session).users == old(session).users
                &&& final(session).typing == old(session).typing
                &&& final(session).last == old(session).last
                &&& eff matches Effect::Notice(n) && n@ == spec_error_notice(code)
            },
            _ => {
                &&& final(session).channels == old(session).channels
                &&& final(session).groups == old(session).groups
                &&& final(session).users == old(session).users
                &&& final(session).typing == old(session).typing
                &&& final(session).last == old(session).last
                &&& eff matches Effect::Unhandled(q) && q == packet
            },
        },
{
    match packet {
        Packet::ChannelReceive(p) => {
            channel_upsert(&mut session.channels, p.inner);
            Effect::Refresh
        },
        Packet::ChannelDeleteReceive(p) => {
            channel_remove(&mut session.channels, p.inner.id);
            Effect::Refresh
        },
        Packet::GroupReceive(p) => {
            let ok = if p.new {
                group_insert_new(&mut session.groups, p.inner)
            } else {
                group_update(&mut session.groups, p.inner)
            };
            if ok {
                Effect::Refresh
            } else {
                Effect::Notice(String::from_str("Ignored a group at an impossible position"))
            }
        },
        Packet::GroupDeleteReceive(p) => {
            group_delete(&mut session.groups, p.inner.id);
            Effect::Refresh
        },
        Packet::LoginSuccess(p) => Effect::StoreToken(p.token),
        Packet::MessageReceive(p) => {
            let m = p.inner;
            typing_remove(&mut session.typing, m.author, m.channel);
            match user_name(&session.users, m.author) {
                Some(name) => {
                    let focused = match session.channel {
                        Some(c) => c == m.channel,
                        None => false,
                    };
                    let eff = if focused {
                        Effect::ShowMessage {
                            id: m.id,
                            author_name: name,
                            text: vstd::slice::slice_to_vec(m.text.as_slice()),
                        }
                    } else {
                        Effect::Refresh
                    };
                    if m.author == session.id {
                        session.last = Some((m.id, m.text));
                    }
                    eff
                },
                None => Effect::Refresh,
            }
        },
        Packet::MessageDeleteReceive(p) => Effect::DeleteMessage { id: p.id },
        Packet::PMReceive(p) => Effect::PmLookup { author: p.author, text: p.text },
        Packet::RateLimited(secs) => Effect::RateLimitedNotice(secs),
        Packet::TypingReceive(p) => {
            if p.author != session.id {
                typing_refresh(&mut session.typing, p.author, p.channel, now);
            }
            Effect::Refresh
        },
        Packet::UserReceive(p) => {
            user_upsert(&mut session.users, p.inner);
            Effect::Refresh
        },
        Packet::ErrCode(code) => Effect::Notice(error_notice(code)),
        other => Effect::Unhandled(other),
    }
}

} // verus!
