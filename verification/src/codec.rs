//! The wire codec: a tagged binary serialization of `Packet`.
//!
//! A packet body is a leading tag byte followed by its variant's fields in
//! order. Integers travel as fixed-width little-endian `u64`, byte strings and
//! text as a `u64` length followed by the raw bytes (text as UTF-8), options
//! as a presence byte followed by the payload, and lists as a `u64` count
//! followed by the items. The encoder and decoder are both specified against
//! spec-level functions (`enc_packet`, `dec_packet`), and decoding is proved
//! to invert encoding.
use vstd::prelude::*;
use vstd::bytes::*;
use vstd::utf8::*;
use vstd::slice::{slice_subrange, slice_to_vec};
use crate::packet::{Packet, PacketV, Channel, Group, User, Message, Login, ChannelList, ChannelCreate, ChannelUpdate, ChannelDelete, MessageList, MessageCreate, MessageUpdate, MessageDelete, Command, ChannelReceive, ChannelDeleteReceive, GroupReceive, GroupDeleteReceive, LoginSuccess, MessageReceive, MessageDeleteReceive, PMReceive, TypingReceive, UserReceive, CommandReceive, ChannelV, GroupV, UserV, MessageV, opt_str_view, opt_u64_view, ids_view, strs_view};

verus! {

broadcast use vstd::seq_lib::group_seq_lib_default, vstd::group_vstd_default;

/// How many leading tag bytes name a known variant; any tag at or above this
/// decodes to `Packet::Unrecognized`.
pub const KNOWN_TAGS: u8 = 23;

// ---------------------------------------------------------------------------
// Spec-level encoders.
// ---------------------------------------------------------------------------
pub open spec fn enc_u8(v: u8) -> Seq<u8> {
    seq![v]
}

pub open spec fn enc_bool(b: bool) -> Seq<u8> {
    if b {
        seq![1u8]
    } else {
        seq![0u8]
    }
}

pub open spec fn enc_u64(v: u64) -> Seq<u8> {
    spec_u64_to_le_bytes(v)
}

pub open spec fn enc_bytes(b: Seq<u8>) -> Seq<u8> {
    enc_u64(b.len() as u64) + b
}

pub open spec fn enc_str(s: Seq<char>) -> Seq<u8> {
    enc_bytes(encode_utf8(s))
}

pub open spec fn enc_opt_u64(o: Option<u64>) -> Seq<u8> {
    match o {
        Option::None => seq![0u8],
        Option::Some(v) => seq![1u8] + enc_u64(v),
    }
}

pub open spec fn enc_opt_str(o: Option<Seq<char>>) -> Seq<u8> {
    match o {
        Option::None => seq![0u8],
        Option::Some(s) => seq![1u8] + enc_str(s),
    }
}

pub open spec fn enc_u64_items(l: Seq<u64>) -> Seq<u8>
    decreases l.len(),
{
    if l.len() == 0 {
        Seq::empty()
    } else {
        enc_u64(l[0]) + enc_u64_items(l.drop_first())
    }
}

pub open spec fn enc_u64_list(l: Seq<u64>) -> Seq<u8> {
    enc_u64(l.len() as u64) + enc_u64_items(l)
}

pub open spec fn enc_str_items(l: Seq<Seq<char>>) -> Seq<u8>
    decreases l.len(),
{
    if l.len() == 0 {
        Seq::empty()
    } else {
        enc_str(l[0]) + enc_str_items(l.drop_first())
    }
}

pub open spec fn enc_str_list(l: Seq<Seq<char>>) -> Seq<u8> {
    enc_u64(l.len() as u64) + enc_str_items(l)
}

// ---------------------------------------------------------------------------
// Spec-level decoders: each takes the buffer and a position, and yields the
// decoded value with the position just past it, or nothing on malformed data.
// ---------------------------------------------------------------------------
pub open spec fn dec_u8(s: Seq<u8>, i: int) -> Option<(u8, int)> {
    if 0 <= i && i + 1 <= s.len() {
        Option::Some((s[i], i + 1))
    } else {
        Option::None
    }
}

pub open spec fn dec_bool(s: Seq<u8>, i: int) -> Option<(bool, int)> {
    match dec_u8(s, i) {
        Option::Some((v, j)) => if v == 0 {
            Option::Some((false, j))
        } else if v == 1 {
            Option::Some((true, j))
        } else {
            Option::None
        },
        Option::None => Option::None,
    }
}

pub open spec fn dec_u64(s: Seq<u8>, i: int) -> Option<(u64, int)> {
    if 0 <= i && i + 8 <= s.len() {
        Option::Some((spec_u64_from_le_bytes(s.subrange(i, i + 8)), i + 8))
    } else {
        Option::None
    }
}

/// A `u64` wire value that must fit the platform's `usize`, as the in-memory
/// types hold identities as `usize`.
pub open spec fn dec_id(s: Seq<u8>, i: int) -> Option<(u64, int)> {
    match dec_u64(s, i) {
        Option::Some((v, j)) => if v <= usize::MAX as u64 {
            Option::Some((v, j))
        } else {
            Option::None
        },
        Option::None => Option::None,
    }
}

pub open spec fn dec_bytes(s: Seq<u8>, i: int) -> Option<(Seq<u8>, int)> {
    match dec_u64(s, i) {
        Option::Some((n, j)) => if j + n <= s.len() {
            Option::Some((s.subrange(j, j + n as int), j + n as int))
        } else {
            Option::None
        },
        Option::None => Option::None,
    }
}

pub open spec fn dec_str(s: Seq<u8>, i: int) -> Option<(Seq<char>, int)> {
    match dec_bytes(s, i) {
        Option::Some((b, j)) => if valid_utf8(b) {
            Option::Some((decode_utf8(b), j))
        } else {
            Option::None
        },
        Option::None => Option::None,
    }
}

pub open spec fn dec_opt_u64(s: Seq<u8>, i: int) -> Option<(Option<u64>, int)> {
    match dec_bool(s, i) {
        Option::Some((present, j)) => if present {
            match dec_u64(s, j) {
                Option::Some((v, j2)) => Option::Some((Option::Some(v), j2)),
                Option::None => Option::None,
            }
        } else {
            Option::Some((Option::None, j))
        },
        Option::None => Option::None,
    }
}

pub open spec fn dec_opt_id(s: Seq<u8>, i: int) -> Option<(Option<u64>, int)> {
    match dec_bool(s, i) {
        Option::Some((present, j)) => if present {
            match dec_id(s, j) {
                Option::Some((v, j2)) => Option::Some((Option::Some(v), j2)),
                Option::None => Option::None,
            }
        } else {
            Option::Some((Option::None, j))
        },
        Option::None => Option::None,
    }
}

pub open spec fn dec_opt_str(s: Seq<u8>, i: int) -> Option<(Option<Seq<char>>, int)> {
    match dec_bool(s, i) {
        Option::Some((present, j)) => if present {
            match dec_str(s, j) {
                Option::Some((v, j2)) => Option::Some((Option::Some(v), j2)),
                Option::None => Option::None,
            }
        } else {
            Option::Some((Option::None, j))
        },
        Option::None => Option::None,
    }
}

pub open spec fn dec_id_items(s: Seq<u8>, i: int, k: nat) -> Option<(Seq<u64>, int)>
    decreases k,
{
    if k == 0 {
        Option::Some((Seq::empty(), i))
    } else {
        match dec_id(s, i) {
            Option::Some((v, j)) => match dec_id_items(s, j, (k - 1) as nat) {
                Option::Some((rest, j2)) => Option::Some((seq![v] + rest, j2)),
                Option::None => Option::None,
            },
            Option::None => Option::None,
        }
    }
}

pub open spec fn dec_id_list(s: Seq<u8>, i: int) -> Option<(Seq<u64>, int)> {
    match dec_u64(s, i) {
        Option::Some((n, j)) => dec_id_items(s, j, n as nat),
        Option::None => Option::None,
    }
}

pub open spec fn dec_str_items(s: Seq<u8>, i: int, k: nat) -> Option<(Seq<Seq<char>>, int)>
    decreases k,
{
    if k == 0 {
        Option::Some((Seq::empty(), i))
    } else {
        match dec_str(s, i) {
            Option::Some((v, j)) => match dec_str_items(s, j, (k - 1) as nat) {
                Option::Some((rest, j2)) => Option::Some((seq![v] + rest, j2)),
                Option::None => Option::None,
            },
            Option::None => Option::None,
        }
    }
}

pub open spec fn dec_str_list(s: Seq<u8>, i: int) -> Option<(Seq<Seq<char>>, int)> {
    match dec_u64(s, i) {
        Option::Some((n, j)) => dec_str_items(s, j, n as nat),
        Option::None => Option::None,
    }
}

// ---------------------------------------------------------------------------
// Well-formedness: the bounds under which a model value survives the trip
// onto the wire and back. Every model taken from an in-memory value has them.
// ---------------------------------------------------------------------------
pub open spec fn wf_id(v: u64) -> bool {
    v <= usize::MAX as u64
}

pub open spec fn wf_opt_id(o: Option<u64>) -> bool {
    match o {
        Option::None => true,
        Option::Some(v) => wf_id(v),
    }
}

pub open spec fn wf_str(s: Seq<char>) -> bool {
    encode_utf8(s).len() <= u64::MAX
}

pub open spec fn wf_opt_str(o: Option<Seq<char>>) -> bool {
    match o {
        Option::None => true,
        Option::Some(s) => wf_str(s),
    }
}

pub open spec fn wf_bytes(b: Seq<u8>) -> bool {
    b.len() <= u64::MAX
}

pub open spec fn wf_id_list(l: Seq<u64>) -> bool {
    l.len() <= u64::MAX && forall|k: int| 0 <= k < l.len() ==> wf_id(#[trigger] l[k])
}

pub open spec fn wf_str_list(l: Seq<Seq<char>>) -> bool {
    l.len() <= u64::MAX && forall|k: int| 0 <= k < l.len() ==> wf_str(#[trigger] l[k])
}

// ---------------------------------------------------------------------------
// Round-trip lemmas for the primitives: decoding at a position whose bytes
// hold an encoding yields the encoded value and steps just past it.
// ---------------------------------------------------------------------------
/// Splits knowledge of a concatenation at a position into its two halves.
proof fn split2(s: Seq<u8>, i: int, a: Seq<u8>, b: Seq<u8>)
    requires
        0 <= i,
        i + a.len() + b.len() <= s.len(),
        s.subrange(i, i + a.len() + b.len()) == a + b,
    ensures
        s.subrange(i, i + a.len() as int) == a,
        s.subrange(i + a.len() as int, i + a.len() + b.len()) == b,
{
    assert(s.subrange(i, i + a.len() as int) =~= a) by {
        assert forall|k: int| 0 <= k < a.len() implies s.subrange(i, i + a.len() as int)[k] == a[k] by {
            assert((a + b)[k] == a[k]);
            assert(s.subrange(i, i + a.len() + b.len())[k] == s[i + k]);
        }
    }
    assert(s.subrange(i + a.len() as int, i + a.len() + b.len()) =~= b) by {
        assert forall|k: int| 0 <= k < b.len() implies s.subrange(
            i + a.len() as int,
            i + a.len() + b.len(),
        )[k] == b[k] by {
            assert((a + b)[a.len() + k] == b[k]);
            assert(s.subrange(i, i + a.len() + b.len())[a.len() + k] == s[i + a.len() + k]);
        }
    }
}

proof fn rt_u8(s: Seq<u8>, i: int, v: u8)
    requires
        0 <= i,
        i + 1 <= s.len(),
        s.subrange(i, i + 1) == enc_u8(v),
    ensures
        dec_u8(s, i) == Option::Some((v, i + 1)),
{
    assert(s[i] == s.subrange(i, i + 1)[0]);
}

proof fn rt_bool(s: Seq<u8>, i: int, b: bool)
    requires
        0 <= i,
        i + 1 <= s.len(),
        s.subrange(i, i + 1) == enc_bool(b),
    ensures
        dec_bool(s, i) == Option::Some((b, i + 1)),
{
    if b {
        rt_u8(s, i, 1);
    } else {
        rt_u8(s, i, 0);
    }
}

proof fn rt_u64(s: Seq<u8>, i: int, v: u64)
    requires
        0 <= i,
        i + 8 <= s.len(),
        s.subrange(i, i + 8) == enc_u64(v),
    ensures
        dec_u64(s, i) == Option::Some((v, i + 8)),
{
    lemma_auto_spec_u64_to_from_le_bytes();
}

proof fn rt_id(s: Seq<u8>, i: int, v: u64)
    requires
        0 <= i,
        i + 8 <= s.len(),
        s.subrange(i, i + 8) == enc_u64(v),
        wf_id(v),
    ensures
        dec_id(s, i) == Option::Some((v, i + 8)),
{
    rt_u64(s, i, v);
}

proof fn rt_bytes(s: Seq<u8>, i: int, b: Seq<u8>)
    requires
        0 <= i,
        wf_bytes(b),
        i + enc_bytes(b).len() <= s.len(),
        s.subrange(i, i + enc_bytes(b).len()) == enc_bytes(b),
    ensures
        dec_bytes(s, i) == Option::Some((b, i + enc_bytes(b).len())),
        enc_bytes(b).len() == 8 + b.len(),
{
    lemma_auto_spec_u64_to_from_le_bytes();
    split2(s, i, enc_u64(b.len() as u64), b);
    rt_u64(s, i, b.len() as u64);
    assert(s.subrange(i + 8, i + 8 + b.len()) == b);
}

proof fn rt_str(s: Seq<u8>, i: int, t: Seq<char>)
    requires
        0 <= i,
        wf_str(t),
        i + enc_str(t).len() <= s.len(),
        s.subrange(i, i + enc_str(t).len()) == enc_str(t),
    ensures
        dec_str(s, i) == Option::Some((t, i + enc_str(t).len())),
{
    lemma_auto_spec_u64_to_from_le_bytes();
    broadcast use vstd::utf8::group_utf8_lib;

    rt_bytes(s, i, encode_utf8(t));
}

proof fn rt_opt_u64(s: Seq<u8>, i: int, o: Option<u64>)
    requires
        0 <= i,
        i + enc_opt_u64(o).len() <= s.len(),
        s.subrange(i, i + enc_opt_u64(o).len()) == enc_opt_u64(o),
    ensures
        dec_opt_u64(s, i) == Option::Some((o, i + enc_opt_u64(o).len())),
{
    lemma_auto_spec_u64_to_from_le_bytes();
    match o {
        Option::None => {
            rt_bool(s, i, false);
        },
        Option::Some(v) => {
            split2(s, i, seq![1u8], enc_u64(v));
            rt_bool(s, i, true);
            rt_u64(s, i + 1, v);
        },
    }
}

proof fn rt_opt_id(s: Seq<u8>, i: int, o: Option<u64>)
    requires
        0 <= i,
        wf_opt_id(o),
        i + enc_opt_u64(o).len() <= s.len(),
        s.subrange(i, i + enc_opt_u64(o).len()) == enc_opt_u64(o),
    ensures
        dec_opt_id(s, i) == Option::Some((o, i + enc_opt_u64(o).len())),
{
    lemma_auto_spec_u64_to_from_le_bytes();
    match o {
        Option::None => {
            rt_bool(s, i, false);
        },
        Option::Some(v) => {
            split2(s, i, seq![1u8], enc_u64(v));
            rt_bool(s, i, true);
            rt_id(s, i + 1, v);
        },
    }
}

proof fn rt_opt_str(s: Seq<u8>, i: int, o: Option<Seq<char>>)
    requires
        0 <= i,
        wf_opt_str(o),
        i + enc_opt_str(o).len() <= s.len(),
        s.subrange(i, i + enc_opt_str(o).len()) == enc_opt_str(o),
    ensures
        dec_opt_str(s, i) == Option::Some((o, i + enc_opt_str(o).len())),
{
    lemma_auto_spec_u64_to_from_le_bytes();
    match o {
        Option::None => {
            rt_bool(s, i, false);
        },
        Option::Some(t) => {
            split2(s, i, seq![1u8], enc_str(t));
            rt_bool(s, i, true);
            rt_str(s, i + 1, t);
        },
    }
}

proof fn rt_id_items(s: Seq<u8>, i: int, l: Seq<u64>)
    requires
        0 <= i,
        wf_id_list(l),
        i + enc_u64_items(l).len() <= s.len(),
        s.subrange(i, i + enc_u64_items(l).len()) == enc_u64_items(l),
    ensures
        dec_id_items(s, i, l.len()) == Option::Some((l, i + enc_u64_items(l).len())),
    decreases l.len(),
{
    lemma_auto_spec_u64_to_from_le_bytes();
    if l.len() == 0 {
    } else {
        split2(s, i, enc_u64(l[0]), enc_u64_items(l.drop_first()));
        rt_id(s, i, l[0]);
        rt_id_items(s, i + 8, l.drop_first());
        assert(seq![l[0]] + l.drop_first() =~= l);
    }
}

proof fn rt_id_list(s: Seq<u8>, i: int, l: Seq<u64>)
    requires
        0 <= i,
        wf_id_list(l),
        i + enc_u64_list(l).len() <= s.len(),
        s.subrange(i, i + enc_u64_list(l).len()) == enc_u64_list(l),
    ensures
        dec_id_list(s, i) == Option::Some((l, i + enc_u64_list(l).len())),
{
    lemma_auto_spec_u64_to_from_le_bytes();
    split2(s, i, enc_u64(l.len() as u64), enc_u64_items(l));
    rt_u64(s, i, l.len() as u64);
    rt_id_items(s, i + 8, l);
}

proof fn rt_str_items(s: Seq<u8>, i: int, l: Seq<Seq<char>>)
    requires
        0 <= i,
        wf_str_list(l),
        i + enc_str_items(l).len() <= s.len(),
        s.subrange(i, i + enc_str_items(l).len()) == enc_str_items(l),
    ensures
        dec_str_items(s, i, l.len()) == Option::Some((l, i + enc_str_items(l).len())),
    decreases l.len(),
{
    lemma_auto_spec_u64_to_from_le_bytes();
    if l.len() == 0 {
    } else {
        split2(s, i, enc_str(l[0]), enc_str_items(l.drop_first()));
        rt_str(s, i, l[0]);
        rt_str_items(s, i + enc_str(l[0]).len() as int, l.drop_first());
        assert(seq![l[0]] + l.drop_first() =~= l);
    }
}

proof fn rt_str_list(s: Seq<u8>, i: int, l: Seq<Seq<char>>)
    requires
        0 <= i,
        wf_str_list(l),
        i + enc_str_list(l).len() <= s.len(),
        s.subrange(i, i + enc_str_list(l).len()) == enc_str_list(l),
    ensures
        dec_str_list(s, i) == Option::Some((l, i + enc_str_list(l).len())),
{
    lemma_auto_spec_u64_to_from_le_bytes();
    split2(s, i, enc_u64(l.len() as u64), enc_str_items(l));
    rt_u64(s, i, l.len() as u64);
    rt_str_items(s, i + 8, l);
}


// ---------------------------------------------------------------------------
// Composite values.
// ---------------------------------------------------------------------------
pub open spec fn enc_channel(c: ChannelV) -> Seq<u8> {
    enc_u64(c.id) + enc_opt_u64(c.condition)
}

pub open spec fn enc_group(g: GroupV) -> Seq<u8> {
    enc_u64(g.id) + enc_u64(g.pos) + enc_str(g.name)
}

pub open spec fn enc_user(u: UserV) -> Seq<u8> {
    enc_u64(u.id) + enc_bool(u.bot) + enc_str(u.name) + enc_opt_str(u.nick) + enc_u64_list(
        u.attributes,
    )
}

pub open spec fn enc_message(m: MessageV) -> Seq<u8> {
    enc_u64(m.id) + enc_u64(m.author) + enc_u64(m.channel) + enc_bytes(m.text)
}

pub open spec fn dec_channel(s: Seq<u8>, i: int) -> Option<(ChannelV, int)> {
    match dec_id(s, i) {
        Option::Some((id, j)) => match dec_opt_id(s, j) {
            Option::Some((condition, j2)) => Option::Some(
                (ChannelV { id, condition }, j2),
            ),
            Option::None => Option::None,
        },
        Option::None => Option::None,
    }
}

pub open spec fn dec_group(s: Seq<u8>, i: int) -> Option<(GroupV, int)> {
    match dec_id(s, i) {
        Option::Some((id, j)) => match dec_id(s, j) {
            Option::Some((pos, j2)) => match dec_str(s, j2) {
                Option::Some((name, j3)) => Option::Some((GroupV { id, pos, name }, j3)),
                Option::None => Option::None,
            },
            Option::None => Option::None,
        },
        Option::None => Option::None,
    }
}

pub open spec fn dec_user(s: Seq<u8>, i: int) -> Option<(UserV, int)> {
    match dec_id(s, i) {
        Option::Some((id, j)) => match dec_bool(s, j) {
            Option::Some((bot, j2)) => match dec_str(s, j2) {
                Option::Some((name, j3)) => match dec_opt_str(s, j3) {
                    Option::Some((nick, j4)) => match dec_id_list(s, j4) {
                        Option::Some((attributes, j5)) => Option::Some(
                            (UserV { id, bot, name, nick, attributes }, j5),
                        ),
                        Option::None => Option::None,
                    },
                    Option::None => Option::None,
                },
                Option::None => Option::None,
            },
            Option::None => Option::None,
        },
        Option::None => Option::None,
    }
}

pub open spec fn dec_message(s: Seq<u8>, i: int) -> Option<(MessageV, int)> {
    match dec_id(s, i) {
        Option::Some((id, j)) => match dec_id(s, j) {
            Option::Some((author, j2)) => match dec_id(s, j2) {
                Option::Some((channel, j3)) => match dec_bytes(s, j3) {
                    Option::Some((text, j4)) => Option::Some(
                        (MessageV { id, author, channel, text }, j4),
                    ),
                    Option::None => Option::None,
                },
                Option::None => Option::None,
            },
            Option::None => Option::None,
        },
        Option::None => Option::None,
    }
}

pub open spec fn wf_channel(c: ChannelV) -> bool {
    wf_id(c.id) && wf_opt_id(c.condition)
}

pub open spec fn wf_group(g: GroupV) -> bool {
    wf_id(g.id) && wf_id(g.pos) && wf_str(g.name)
}

pub open spec fn wf_user(u: UserV) -> bool {
    wf_id(u.id) && wf_str(u.name) && wf_opt_str(u.nick) && wf_id_list(u.attributes)
}

pub open spec fn wf_message(m: MessageV) -> bool {
    wf_id(m.id) && wf_id(m.author) && wf_id(m.channel) && wf_bytes(m.text)
}

proof fn rt_channel(s: Seq<u8>, i: int, c: ChannelV)
    requires
        0 <= i,
        wf_channel(c),
        i + enc_channel(c).len() <= s.len(),
        s.subrange(i, i + enc_channel(c).len()) == enc_channel(c),
    ensures
        dec_channel(s, i) == Option::Some((c, i + enc_channel(c).len())),
{
    lemma_auto_spec_u64_to_from_le_bytes();
    split2(s, i, enc_u64(c.id), enc_opt_u64(c.condition));
    rt_id(s, i, c.id);
    rt_opt_id(s, i + 8, c.condition);
}

proof fn rt_group(s: Seq<u8>, i: int, g: GroupV)
    requires
        0 <= i,
        wf_group(g),
        i + enc_group(g).len() <= s.len(),
        s.subrange(i, i + enc_group(g).len()) == enc_group(g),
    ensures
        dec_group(s, i) == Option::Some((g, i + enc_group(g).len())),
{
    lemma_auto_spec_u64_to_from_le_bytes();
    split2(s, i, enc_u64(g.id) + enc_u64(g.pos), enc_str(g.name));
    split2(s, i, enc_u64(g.id), enc_u64(g.pos));
    rt_id(s, i, g.id);
    rt_id(s, i + 8, g.pos);
    rt_str(s, i + 16, g.name);
}

proof fn rt_user(s: Seq<u8>, i: int, u: UserV)
    requires
        0 <= i,
        wf_user(u),
        i + enc_user(u).len() <= s.len(),
        s.subrange(i, i + enc_user(u).len()) == enc_user(u),
    ensures
        dec_user(s, i) == Option::Some((u, i + enc_user(u).len())),
{
    lemma_auto_spec_u64_to_from_le_bytes();
    let e1 = enc_u64(u.id);
    let e2 = enc_bool(u.bot);
    let e3 = enc_str(u.name);
    let e4 = enc_opt_str(u.nick);
    let e5 = enc_u64_list(u.attributes);
    split2(s, i, e1 + e2 + e3 + e4, e5);
    split2(s, i, e1 + e2 + e3, e4);
    split2(s, i, e1 + e2, e3);
    split2(s, i, e1, e2);
    rt_id(s, i, u.id);
    rt_bool(s, i + 8, u.bot);
    rt_str(s, i + 9, u.name);
    rt_opt_str(s, i + 9 + e3.len() as int, u.nick);
    rt_id_list(s, i + 9 + e3.len() + e4.len(), u.attributes);
}

proof fn rt_message(s: Seq<u8>, i: int, m: MessageV)
    requires
        0 <= i,
        wf_message(m),
        i + enc_message(m).len() <= s.len(),
        s.subrange(i, i + enc_message(m).len()) == enc_message(m),
    ensures
        dec_message(s, i) == Option::Some((m, i + enc_message(m).len())),
{
    lemma_auto_spec_u64_to_from_le_bytes();
    let e1 = enc_u64(m.id);
    let e2 = enc_u64(m.author);
    let e3 = enc_u64(m.channel);
    let e4 = enc_bytes(m.text);
    split2(s, i, e1 + e2 + e3, e4);
    split2(s, i, e1 + e2, e3);
    split2(s, i, e1, e2);
    rt_id(s, i, m.id);
    rt_id(s, i + 8, m.author);
    rt_id(s, i + 16, m.channel);
    rt_bytes(s, i + 24, m.text);
}


// ---------------------------------------------------------------------------
// Whole packets.
// ---------------------------------------------------------------------------
pub open spec fn enc_packet(m: PacketV) -> Seq<u8> {
    match m {
        PacketV::ErrCode(c) => seq![0u8] + enc_u8(c),
        PacketV::Login { name, password, token, public_key } => seq![1u8] + enc_str(name)
            + enc_opt_str(password) + enc_opt_str(token) + enc_bytes(public_key),
        PacketV::ChannelList => seq![2u8],
        PacketV::ChannelCreate { channel } => seq![3u8] + enc_channel(channel),
        PacketV::ChannelUpdate { channel } => seq![4u8] + enc_channel(channel),
        PacketV::ChannelDelete { channel } => seq![5u8] + enc_u64(channel),
        PacketV::MessageList { around } => seq![6u8] + enc_opt_u64(around),
        PacketV::MessageCreate { channel, text } => seq![7u8] + enc_u64(channel) + enc_bytes(text),
        PacketV::MessageUpdate { id, channel, text } => seq![8u8] + enc_u64(id) + enc_u64(channel)
            + enc_bytes(text),
        PacketV::MessageDelete { id } => seq![9u8] + enc_u64(id),
        PacketV::Command { author, recipient, command, args } => seq![10u8] + enc_u64(author)
            + enc_u64(recipient) + enc_str(command) + enc_str_list(args),
        PacketV::ChannelReceive { inner } => seq![11u8] + enc_channel(inner),
        PacketV::ChannelDeleteReceive { inner } => seq![12u8] + enc_channel(inner),
        PacketV::GroupReceive { inner, is_new } => seq![13u8] + enc_group(inner) + enc_bool(is_new),
        PacketV::GroupDeleteReceive { inner } => seq![14u8] + enc_group(inner),
        PacketV::LoginSuccess { created, token } => seq![15u8] + enc_bool(created) + enc_str(token),
        PacketV::MessageReceive { inner } => seq![16u8] + enc_message(inner),
        PacketV::MessageDeleteReceive { id } => seq![17u8] + enc_u64(id),
        PacketV::PMReceive { author, text } => seq![18u8] + enc_u64(author) + enc_bytes(text),
        PacketV::RateLimited(secs) => seq![19u8] + enc_u64(secs),
        PacketV::TypingReceive { author, channel } => seq![20u8] + enc_u64(author) + enc_u64(
            channel,
        ),
        PacketV::UserReceive { inner } => seq![21u8] + enc_user(inner),
        PacketV::CommandReceive { author, recipient, command, args } => seq![22u8] + enc_user(
            author,
        ) + enc_user(recipient) + enc_str(command) + enc_str_list(args),
        PacketV::Unrecognized(tag) => seq![tag],
    }
}

pub open spec fn wf_packet(m: PacketV) -> bool {
    match m {
        PacketV::ErrCode(_) => true,
        PacketV::Login { name, password, token, public_key } => wf_str(name) && wf_opt_str(password)
            && wf_opt_str(token) && wf_bytes(public_key),
        PacketV::ChannelList => true,
        PacketV::ChannelCreate { channel } => wf_channel(channel),
        PacketV::ChannelUpdate { channel } => wf_channel(channel),
        PacketV::ChannelDelete { channel } => wf_id(channel),
        PacketV::MessageList { around } => wf_opt_id(around),
        PacketV::MessageCreate { channel, text } => wf_id(channel) && wf_bytes(text),
        PacketV::MessageUpdate { id, channel, text } => wf_id(id) && wf_id(channel) && wf_bytes(
            text,
        ),
        PacketV::MessageDelete { id } => wf_id(id),
        PacketV::Command { author, recipient, command, args } => wf_id(author) && wf_id(recipient)
            && wf_str(command) && wf_str_list(args),
        PacketV::ChannelReceive { inner } => wf_channel(inner),
        PacketV::ChannelDeleteReceive { inner } => wf_channel(inner),
        PacketV::GroupReceive { inner, is_new } => wf_group(inner),
        PacketV::GroupDeleteReceive { inner } => wf_group(inner),
        PacketV::LoginSuccess { created, token } => wf_str(token),
        PacketV::MessageReceive { inner } => wf_message(inner),
        PacketV::MessageDeleteReceive { id } => wf_id(id),
        PacketV::PMReceive { author, text } => wf_id(author) && wf_bytes(text),
        PacketV::RateLimited(_) => true,
        PacketV::TypingReceive { author, channel } => wf_id(author) && wf_id(channel),
        PacketV::UserReceive { inner } => wf_user(inner),
        PacketV::CommandReceive { author, recipient, command, args } => wf_user(author) && wf_user(
            recipient,
        ) && wf_str(command) && wf_str_list(args),
        PacketV::Unrecognized(tag) => tag >= KNOWN_TAGS,
    }
}

pub open spec fn dec_packet(s: Seq<u8>, i: int) -> Option<(PacketV, int)> {
    match dec_u8(s, i) {
        Option::None => Option::None,
        Option::Some((tag, j)) => if tag == 0 {
            match dec_u8(s, j) {
                Option::Some((c, j2)) => Option::Some((PacketV::ErrCode(c), j2)),
                Option::None => Option::None,
            }
        } else if tag == 1 {
            match dec_str(s, j) {
                Option::Some((name, j2)) => match dec_opt_str(s, j2) {
                    Option::Some((password, j3)) => match dec_opt_str(s, j3) {
                        Option::Some((token, j4)) => match dec_bytes(s, j4) {
                            Option::Some((public_key, j5)) => Option::Some(
                                (PacketV::Login { name, password, token, public_key }, j5),
                            ),
                            Option::None => Option::None,
                        },
                        Option::None => Option::None,
                    },
                    Option::None => Option::None,
                },
                Option::None => Option::None,
            }
        } else if tag == 2 {
            Option::Some((PacketV::ChannelList, j))
        } else if tag == 3 {
            match dec_channel(s, j) {
                Option::Some((channel, j2)) => Option::Some(
                    (PacketV::ChannelCreate { channel }, j2),
                ),
                Option::None => Option::None,
            }
        } else if tag == 4 {
            match dec_channel(s, j) {
                Option::Some((channel, j2)) => Option::Some(
                    (PacketV::ChannelUpdate { channel }, j2),
                ),
                Option::None => Option::None,
            }
        } else if tag == 5 {
            match dec_id(s, j) {
                Option::Some((channel, j2)) => Option::Some(
                    (PacketV::ChannelDelete { channel }, j2),
                ),
                Option::None => Option::None,
            }
        } else if tag == 6 {
            match dec_opt_id(s, j) {
                Option::Some((around, j2)) => Option::Some((PacketV::MessageList { around }, j2)),
                Option::None => Option::None,
            }
        } else if tag == 7 {
            match dec_id(s, j) {
                Option::Some((channel, j2)) => match dec_bytes(s, j2) {
                    Option::Some((text, j3)) => Option::Some(
                        (PacketV::MessageCreate { channel, text }, j3),
                    ),
                    Option::None => Option::None,
                },
                Option::None => Option::None,
            }
        } else if tag == 8 {
            match dec_id(s, j) {
                Option::Some((id, j2)) => match dec_id(s, j2) {
                    Option::Some((channel, j3)) => match dec_bytes(s, j3) {
                        Option::Some((text, j4)) => Option::Some(
                            (PacketV::MessageUpdate { id, channel, text }, j4),
                        ),
                        Option::None => Option::None,
                    },
                    Option::None => Option::None,
                },
                Option::None => Option::None,
            }
        } else if tag == 9 {
            match dec_id(s, j) {
                Option::Some((id, j2)) => Option::Some((PacketV::MessageDelete { id }, j2)),
                Option::None => Option::None,
            }
        } else if tag == 10 {
            match dec_id(s, j) {
                Option::Some((author, j2)) => match dec_id(s, j2) {
                    Option::Some((recipient, j3)) => match dec_str(s, j3) {
                        Option::Some((command, j4)) => match dec_str_list(s, j4) {
                            Option::Some((args, j5)) => Option::Some(
                                (PacketV::Command { author, recipient, command, args }, j5),
                            ),
                            Option::None => Option::None,
                        },
                        Option::None => Option::None,
                    },
                    Option::None => Option::None,
                },
                Option::None => Option::None,
            }
        } else if tag == 11 {
            match dec_channel(s, j) {
                Option::Some((inner, j2)) => Option::Some((PacketV::ChannelReceive { inner }, j2)),
                Option::None => Option::None,
            }
        } else if tag == 12 {
            match dec_channel(s, j) {
                Option::Some((inner, j2)) => Option::Some(
                    (PacketV::ChannelDeleteReceive { inner }, j2),
                ),
                Option::None => Option::None,
            }
        } else if tag == 13 {
            match dec_group(s, j) {
                Option::Some((inner, j2)) => match dec_bool(s, j2) {
                    Option::Some((is_new, j3)) => Option::Some(
                        (PacketV::GroupReceive { inner, is_new }, j3),
                    ),
                    Option::None => Option::None,
                },
                Option::None => Option::None,
            }
        } else if tag == 14 {
            match dec_group(s, j) {
                Option::Some((inner, j2)) => Option::Some(
                    (PacketV::GroupDeleteReceive { inner }, j2),
                ),
                Option::None => Option::None,
            }
        } else if tag == 15 {
            match dec_bool(s, j) {
                Option::Some((created, j2)) => match dec_str(s, j2) {
                    Option::Some((token, j3)) => Option::Some(
                        (PacketV::LoginSuccess { created, token }, j3),
                    ),
                    Option::None => Option::None,
                },
                Option::None => Option::None,
            }
        } else if tag == 16 {
            match dec_message(s, j) {
                Option::Some((inner, j2)) => Option::Some((PacketV::MessageReceive { inner }, j2)),
                Option::None => Option::None,
            }
        } else if tag == 17 {
            match dec_id(s, j) {
                Option::Some((id, j2)) => Option::Some((PacketV::MessageDeleteReceive { id }, j2)),
                Option::None => Option::None,
            }
        } else if tag == 18 {
            match dec_id(s, j) {
                Option::Some((author, j2)) => match dec_bytes(s, j2) {
                    Option::Some((text, j3)) => Option::Some(
                        (PacketV::PMReceive { author, text }, j3),
                    ),
                    Option::None => Option::None,
                },
                Option::None => Option::None,
            }
        } else if tag == 19 {
            match dec_u64(s, j) {
                Option::Some((secs, j2)) => Option::Some((PacketV::RateLimited(secs), j2)),
                Option::None => Option::None,
            }
        } else if tag == 20 {
            match dec_id(s, j) {
                Option::Some((author, j2)) => match dec_id(s, j2) {
                    Option::Some((channel, j3)) => Option::Some(
                        (PacketV::TypingReceive { author, channel }, j3),
                    ),
                    Option::None => Option::None,
                },
                Option::None => Option::None,
            }
        } else if tag == 21 {
            match dec_user(s, j) {
                Option::Some((inner, j2)) => Option::Some((PacketV::UserReceive { inner }, j2)),
                Option::None => Option::None,
            }
        } else if tag == 22 {
            match dec_user(s, j) {
                Option::Some((author, j2)) => match dec_user(s, j2) {
                    Option::Some((recipient, j3)) => match dec_str(s, j3) {
                        Option::Some((command, j4)) => match dec_str_list(s, j4) {
                            Option::Some((args, j5)) => Option::Some(
                                (PacketV::CommandReceive { author, recipient, command, args }, j5),
                            ),
                            Option::None => Option::None,
                        },
                        Option::None => Option::None,
                    },
                    Option::None => Option::None,
                },
                Option::None => Option::None,
            }
        } else {
            Option::Some((PacketV::Unrecognized(tag), s.len() as int))
        },
    }
}

/// Decoding inverts encoding: a buffer holding exactly one encoded packet
/// decodes to that packet, consuming the whole buffer.
#[verifier::rlimit(100)]
#[verifier::spinoff_prover]
pub proof fn lemma_packet_round_trip(m: PacketV)
    requires
        wf_packet(m),
    ensures
        dec_packet(enc_packet(m), 0) matches Option::Some((m2, j)) && m2 == m && j == enc_packet(
            m,
        ).len(),
{
    lemma_auto_spec_u64_to_from_le_bytes();
    let s = enc_packet(m);
    assert(s.subrange(0, s.len() as int) =~= s);
    match m {
        PacketV::ErrCode(c) => {
            split2(s, 0, seq![0u8], enc_u8(c));
            rt_u8(s, 0, 0);
            rt_u8(s, 1, c);
        },
        PacketV::Login { name, password, token, public_key } => {
            let e1 = enc_str(name);
            let e2 = enc_opt_str(password);
            let e3 = enc_opt_str(token);
            let e4 = enc_bytes(public_key);
            split2(s, 0, seq![1u8] + e1 + e2 + e3, e4);
            split2(s, 0, seq![1u8] + e1 + e2, e3);
            split2(s, 0, seq![1u8] + e1, e2);
            split2(s, 0, seq![1u8], e1);
            rt_u8(s, 0, 1);
            rt_str(s, 1, name);
            rt_opt_str(s, 1 + e1.len() as int, password);
            rt_opt_str(s, 1 + e1.len() + e2.len() as int, token);
            rt_bytes(s, 1 + e1.len() + e2.len() + e3.len() as int, public_key);
        },
        PacketV::ChannelList => {
            rt_u8(s, 0, 2);
        },
        PacketV::ChannelCreate { channel } => {
            split2(s, 0, seq![3u8], enc_channel(channel));
            rt_u8(s, 0, 3);
            rt_channel(s, 1, channel);
        },
        PacketV::ChannelUpdate { channel } => {
            split2(s, 0, seq![4u8], enc_channel(channel));
            rt_u8(s, 0, 4);
            rt_channel(s, 1, channel);
        },
        PacketV::ChannelDelete { channel } => {
            split2(s, 0, seq![5u8], enc_u64(channel));
            rt_u8(s, 0, 5);
            rt_id(s, 1, channel);
        },
        PacketV::MessageList { around } => {
            split2(s, 0, seq![6u8], enc_opt_u64(around));
            rt_u8(s, 0, 6);
            rt_opt_id(s, 1, around);
        },
        PacketV::MessageCreate { channel, text } => {
            let e1 = enc_u64(channel);
            let e2 = enc_bytes(text);
            split2(s, 0, seq![7u8] + e1, e2);
            split2(s, 0, seq![7u8], e1);
            rt_u8(s, 0, 7);
            rt_id(s, 1, channel);
            rt_bytes(s, 9, text);
        },
        PacketV::MessageUpdate { id, channel, text } => {
            let e1 = enc_u64(id);
            let e2 = enc_u64(channel);
            let e3 = enc_bytes(text);
            split2(s, 0, seq![8u8] + e1 + e2, e3);
            split2(s, 0, seq![8u8] + e1, e2);
            split2(s, 0, seq![8u8], e1);
            rt_u8(s, 0, 8);
            rt_id(s, 1, id);
            rt_id(s, 9, channel);
            rt_bytes(s, 17, text);
        },
        PacketV::MessageDelete { id } => {
            split2(s, 0, seq![9u8], enc_u64(id));
            rt_u8(s, 0, 9);
            rt_id(s, 1, id);
        },
        PacketV::Command { author, recipient, command, args } => {
            let e1 = enc_u64(author);
            let e2 = enc_u64(recipient);
            let e3 = enc_str(command);
            let e4 = enc_str_list(args);
            split2(s, 0, seq![10u8] + e1 + e2 + e3, e4);
            split2(s, 0, seq![10u8] + e1 + e2, e3);
            split2(s, 0, seq![10u8] + e1, e2);
            split2(s, 0, seq![10u8], e1);
            rt_u8(s, 0, 10);
            rt_id(s, 1, author);
            rt_id(s, 9, recipient);
            rt_str(s, 17, command);
            rt_str_list(s, 17 + e3.len() as int, args);
        },
        PacketV::ChannelReceive { inner } => {
            split2(s, 0, seq![11u8], enc_channel(inner));
            rt_u8(s, 0, 11);
            rt_channel(s, 1, inner);
        },
        PacketV::ChannelDeleteReceive { inner } => {
            split2(s, 0, seq![12u8], enc_channel(inner));
            rt_u8(s, 0, 12);
            rt_channel(s, 1, inner);
        },
        PacketV::GroupReceive { inner, is_new } => {
            let e1 = enc_group(inner);
            let e2 = enc_bool(is_new);
            split2(s, 0, seq![13u8] + e1, e2);
            split2(s, 0, seq![13u8], e1);
            rt_u8(s, 0, 13);
            rt_group(s, 1, inner);
            rt_bool(s, 1 + e1.len() as int, is_new);
        },
        PacketV::GroupDeleteReceive { inner } => {
            split2(s, 0, seq![14u8], enc_group(inner));
            rt_u8(s, 0, 14);
            rt_group(s, 1, inner);
        },
        PacketV::LoginSuccess { created, token } => {
            let e1 = enc_bool(created);
            let e2 = enc_str(token);
            split2(s, 0, seq![15u8] + e1, e2);
            split2(s, 0, seq![15u8], e1);
            rt_u8(s, 0, 15);
            rt_bool(s, 1, created);
            rt_str(s, 2, token);
        },
        PacketV::MessageReceive { inner } => {
            split2(s, 0, seq![16u8], enc_message(inner));
            rt_u8(s, 0, 16);
            rt_message(s, 1, inner);
        },
        PacketV::MessageDeleteReceive { id } => {
            split2(s, 0, seq![17u8], enc_u64(id));
            rt_u8(s, 0, 17);
            rt_id(s, 1, id);
        },
        PacketV::PMReceive { author, text } => {
            let e1 = enc_u64(author);
            let e2 = enc_bytes(text);
            split2(s, 0, seq![18u8] + e1, e2);
            split2(s, 0, seq![18u8], e1);
            rt_u8(s, 0, 18);
            rt_id(s, 1, author);
            rt_bytes(s, 9, text);
        },
        PacketV::RateLimited(secs) => {
            split2(s, 0, seq![19u8], enc_u64(secs));
            rt_u8(s, 0, 19);
            rt_u64(s, 1, secs);
        },
        PacketV::TypingReceive { author, channel } => {
            let e1 = enc_u64(author);
            let e2 = enc_u64(channel);
            split2(s, 0, seq![20u8] + e1, e2);
            split2(s, 0, seq![20u8], e1);
            rt_u8(s, 0, 20);
            rt_id(s, 1, author);
            rt_id(s, 9, channel);
        },
        PacketV::UserReceive { inner } => {
            split2(s, 0, seq![21u8], enc_user(inner));
            rt_u8(s, 0, 21);
            rt_user(s, 1, inner);
        },
        PacketV::CommandReceive { author, recipient, command, args } => {
            let e1 = enc_user(author);
            let e2 = enc_user(recipient);
            let e3 = enc_str(command);
            let e4 = enc_str_list(args);
            split2(s, 0, seq![22u8] + e1 + e2 + e3, e4);
            split2(s, 0, seq![22u8] + e1 + e2, e3);
            split2(s, 0, seq![22u8] + e1, e2);
            split2(s, 0, seq![22u8], e1);
            rt_u8(s, 0, 22);
            rt_user(s, 1, author);
            rt_user(s, 1 + e1.len() as int, recipient);
            rt_str(s, 1 + e1.len() + e2.len() as int, command);
            rt_str_list(s, 1 + e1.len() + e2.len() + e3.len() as int, args);
        },
        PacketV::Unrecognized(tag) => {
            rt_u8(s, 0, tag);
        },
    }
}


// ---------------------------------------------------------------------------
// Executable encoding.
// ---------------------------------------------------------------------------
/// Decoding failed: the bytes do not hold a well-formed packet.
#[derive(Clone, Copy, Debug, PartialEq, Eq)]
pub enum DecodeError {
    Malformed,
}

/// Encoding failed: the body does not fit the frame's 16-bit length field.
#[derive(Clone, Copy, Debug, PartialEq, Eq)]
pub enum EncodeError {
    TooLarge,
}

fn push_u8(out: &mut Vec<u8>, v: u8)
    ensures
        final(out)@ == old(out)@ + enc_u8(v),
{
    out.push(v);
}

fn push_bool(out: &mut Vec<u8>, b: bool)
    ensures
        final(out)@ == old(out)@ + enc_bool(b),
{
    if b {
        out.push(1);
    } else {
        out.push(0);
    }
}

fn push_u64v(out: &mut Vec<u8>, v: u64)
    ensures
        final(out)@ == old(out)@ + enc_u64(v),
{
    let mut b = u64_to_le_bytes(v);
    out.append(&mut b);
}

fn push_bytes(out: &mut Vec<u8>, b: &[u8])
    ensures
        final(out)@ == old(out)@ + enc_bytes(b@),
{
    push_u64v(out, b.len() as u64);
    let mut v = slice_to_vec(b);
    out.append(&mut v);
    assert(out@ =~= old(out)@ + enc_bytes(b@));
}

fn push_str(out: &mut Vec<u8>, s: &String)
    ensures
        final(out)@ == old(out)@ + enc_str(s@),
{
    push_bytes(out, s.as_str().as_bytes());
}

fn push_opt_id(out: &mut Vec<u8>, o: &Option<usize>)
    ensures
        final(out)@ == old(out)@ + enc_opt_u64(opt_u64_view(*o)),
{
    match o {
        Option::None => {
            push_bool(out, false);
        },
        Option::Some(v) => {
            push_bool(out, true);
            push_u64v(out, *v as u64);
            assert(out@ =~= old(out)@ + enc_opt_u64(opt_u64_view(*o)));
        },
    }
}

fn push_opt_str(out: &mut Vec<u8>, o: &Option<String>)
    ensures
        final(out)@ == old(out)@ + enc_opt_str(opt_str_view(*o)),
{
    match o {
        Option::None => {
            push_bool(out, false);
        },
        Option::Some(s) => {
            push_bool(out, true);
            push_str(out, s);
            assert(out@ =~= old(out)@ + enc_opt_str(opt_str_view(*o)));
        },
    }
}

fn push_id_items(out: &mut Vec<u8>, l: &Vec<usize>, start: usize)
    requires
        start <= l@.len(),
    ensures
        final(out)@ == old(out)@ + enc_u64_items(ids_view(l@.skip(start as int))),
    decreases l@.len() - start,
{
    if start < l.len() {
        push_u64v(out, l[start] as u64);
        push_id_items(out, l, start + 1);
        proof {
            let m = ids_view(l@.skip(start as int));
            assert(m[0] == l@[start as int] as u64);
            assert(m.drop_first() =~= ids_view(l@.skip(start as int + 1)));
            assert(out@ =~= old(out)@ + enc_u64_items(m));
        }
    } else {
        proof {
            assert(ids_view(l@.skip(start as int)) =~= Seq::<u64>::empty());
            assert(out@ =~= old(out)@ + enc_u64_items(Seq::<u64>::empty()));
        }
    }
}

fn push_id_list(out: &mut Vec<u8>, l: &Vec<usize>)
    ensures
        final(out)@ == old(out)@ + enc_u64_list(ids_view(l@)),
{
    push_u64v(out, l.len() as u64);
    push_id_items(out, l, 0);
    proof {
        assert(l@.skip(0) =~= l@);
        assert(out@ =~= old(out)@ + enc_u64_list(ids_view(l@)));
    }
}

fn push_str_items(out: &mut Vec<u8>, l: &Vec<String>, start: usize)
    requires
        start <= l@.len(),
    ensures
        final(out)@ == old(out)@ + enc_str_items(strs_view(l@.skip(start as int))),
    decreases l@.len() - start,
{
    if start < l.len() {
        push_str(out, &l[start]);
        push_str_items(out, l, start + 1);
        proof {
            let m = strs_view(l@.skip(start as int));
            assert(m[0] == l@[start as int]@);
            assert(m.drop_first() =~= strs_view(l@.skip(start as int + 1)));
            assert(out@ =~= old(out)@ + enc_str_items(m));
        }
    } else {
        proof {
            assert(strs_view(l@.skip(start as int)) =~= Seq::<Seq<char>>::empty());
            assert(out@ =~= old(out)@ + enc_str_items(Seq::<Seq<char>>::empty()));
        }
    }
}

fn push_str_list(out: &mut Vec<u8>, l: &Vec<String>)
    ensures
        final(out)@ == old(out)@ + enc_str_list(strs_view(l@)),
{
    push_u64v(out, l.len() as u64);
    push_str_items(out, l, 0);
    proof {
        assert(l@.skip(0) =~= l@);
        assert(out@ =~= old(out)@ + enc_str_list(strs_view(l@)));
    }
}

fn push_channel(out: &mut Vec<u8>, c: &Channel)
    ensures
        final(out)@ == old(out)@ + enc_channel(c@),
{
    push_u64v(out, c.id as u64);
    push_opt_id(out, &c.condition);
    assert(out@ =~= old(out)@ + enc_channel(c@));
}

fn push_group(out: &mut Vec<u8>, g: &Group)
    ensures
        final(out)@ == old(out)@ + enc_group(g@),
{
    push_u64v(out, g.id as u64);
    push_u64v(out, g.pos as u64);
    push_str(out, &g.name);
    assert(out@ =~= old(out)@ + enc_group(g@));
}

fn push_user(out: &mut Vec<u8>, u: &User)
    ensures
        final(out)@ == old(out)@ + enc_user(u@),
{
    push_u64v(out, u.id as u64);
    push_bool(out, u.bot);
    push_str(out, &u.name);
    push_opt_str(out, &u.nick);
    push_id_list(out, &u.attributes);
    assert(out@ =~= old(out)@ + enc_user(u@));
}

fn push_message(out: &mut Vec<u8>, m: &Message)
    ensures
        final(out)@ == old(out)@ + enc_message(m@),
{
    push_u64v(out, m.id as u64);
    push_u64v(out, m.author as u64);
    push_u64v(out, m.channel as u64);
    push_bytes(out, m.text.as_slice());
    assert(out@ =~= old(out)@ + enc_message(m@));
}

/// Encodes one packet body, without the frame's length prefix.
#[verifier::rlimit(100)]
#[verifier::spinoff_prover]
pub fn serialize(packet: &Packet) -> (r: Result<Vec<u8>, EncodeError>)
    ensures
        r matches Ok(v) && v@ == enc_packet(packet@),
{
    let mut out: Vec<u8> = Vec::new();
    match packet {
        Packet::ErrCode(c) => {
            push_u8(&mut out, 0);
            push_u8(&mut out, *c);
        },
        Packet::Login(p) => {
            push_u8(&mut out, 1);
            push_str(&mut out, &p.name);
            push_opt_str(&mut out, &p.password);
            push_opt_str(&mut out, &p.token);
            push_bytes(&mut out, p.public_key.as_slice());
        },
        Packet::ChannelList(_) => {
            push_u8(&mut out, 2);
        },
        Packet::ChannelCreate(p) => {
            push_u8(&mut out, 3);
            push_channel(&mut out, &p.channel);
        },
        Packet::ChannelUpdate(p) => {
            push_u8(&mut out, 4);
            push_channel(&mut out, &p.channel);
        },
        Packet::ChannelDelete(p) => {
            push_u8(&mut out, 5);
            push_u64v(&mut out, p.channel as u64);
        },
        Packet::MessageList(p) => {
            push_u8(&mut out, 6);
            push_opt_id(&mut out, &p.around);
        },
        Packet::MessageCreate(p) => {
            push_u8(&mut out, 7);
            push_u64v(&mut out, p.channel as u64);
            push_bytes(&mut out, p.text.as_slice());
        },
        Packet::MessageUpdate(p) => {
            push_u8(&mut out, 8);
            push_u64v(&mut out, p.id as u64);
            push_u64v(&mut out, p.channel as u64);
            push_bytes(&mut out, p.text.as_slice());
        },
        Packet::MessageDelete(p) => {
            push_u8(&mut out, 9);
            push_u64v(&mut out, p.id as u64);
        },
        Packet::Command(p) => {
            push_u8(&mut out, 10);
            push_u64v(&mut out, p.author as u64);
            push_u64v(&mut out, p.recipient as u64);
            push_str(&mut out, &p.command);
            push_str_list(&mut out, &p.args);
        },
        Packet::ChannelReceive(p) => {
            push_u8(&mut out, 11);
            push_channel(&mut out, &p.inner);
        },
        Packet::ChannelDeleteReceive(p) => {
            push_u8(&mut out, 12);
            push_channel(&mut out, &p.inner);
        },
        Packet::GroupReceive(p) => {
            push_u8(&mut out, 13);
            push_group(&mut out, &p.inner);
            push_bool(&mut out, p.new);
        },
        Packet::GroupDeleteReceive(p) => {
            push_u8(&mut out, 14);
            push_group(&mut out, &p.inner);
        },
        Packet::LoginSuccess(p) => {
            push_u8(&mut out, 15);
            push_bool(&mut out, p.created);
            push_str(&mut out, &p.token);
        },
        Packet::MessageReceive(p) => {
            push_u8(&mut out, 16);
            push_message(&mut out, &p.inner);
        },
        Packet::MessageDeleteReceive(p) => {
            push_u8(&mut out, 17);
            push_u64v(&mut out, p.id as u64);
        },
        Packet::PMReceive(p) => {
            push_u8(&mut out, 18);
            push_u64v(&mut out, p.author as u64);
            push_bytes(&mut out, p.text.as_slice());
        },
        Packet::RateLimited(secs) => {
            push_u8(&mut out, 19);
            push_u64v(&mut out, *secs);
        },
        Packet::TypingReceive(p) => {
            push_u8(&mut out, 20);
            push_u64v(&mut out, p.author as u64);
            push_u64v(&mut out, p.channel as u64);
        },
        Packet::UserReceive(p) => {
            push_u8(&mut out, 21);
            push_user(&mut out, &p.inner);
        },
        Packet::CommandReceive(p) => {
            push_u8(&mut out, 22);
            push_user(&mut out, &p.author);
            push_user(&mut out, &p.recipient);
            push_str(&mut out, &p.command);
            push_str_list(&mut out, &p.args);
        },
        Packet::Unrecognized(tag) => {
            push_u8(&mut out, *tag);
            assert(out@ =~= enc_packet(packet@));
        },
    }
    assert(out@ =~= enc_packet(packet@));
    Ok(out)
}


// ---------------------------------------------------------------------------
// Executable decoding. Every reader's result is pinned to the spec decoder
// at the same position, both on success and on failure.
// ---------------------------------------------------------------------------
/// Relies on `String::from_utf8`: succeeds exactly on valid UTF-8 and decodes
/// it, as vstd's own `encode_utf8`/`decode_utf8` model describes.
#[verifier::external_body]
fn bytes_to_string(b: Vec<u8>) -> (r: Option<String>)
    ensures
        r is Some <==> valid_utf8(b@),
        r matches Some(s) ==> s@ == decode_utf8(b@),
{
    match String::from_utf8(b) {
        Ok(s) => Some(s),
        Err(_) => None,
    }
}

fn read_u8(buf: &[u8], pos: usize) -> (r: Option<(u8, usize)>)
    ensures
        match dec_u8(buf@, pos as int) {
            Option::Some((v, j)) => r matches Option::Some(p) && p.0 == v && p.1 as int == j,
            Option::None => r is None,
        },
{
    if pos < buf.len() {
        Some((*vstd::slice::slice_index_get(buf, pos), pos + 1))
    } else {
        None
    }
}

fn read_bool(buf: &[u8], pos: usize) -> (r: Option<(bool, usize)>)
    ensures
        match dec_bool(buf@, pos as int) {
            Option::Some((v, j)) => r matches Option::Some(p) && p.0 == v && p.1 as int == j,
            Option::None => r is None,
        },
{
    match read_u8(buf, pos) {
        Some((v, j)) => if v == 0 {
            Some((false, j))
        } else if v == 1 {
            Some((true, j))
        } else {
            None
        },
        None => None,
    }
}

fn read_u64(buf: &[u8], pos: usize) -> (r: Option<(u64, usize)>)
    ensures
        match dec_u64(buf@, pos as int) {
            Option::Some((v, j)) => r matches Option::Some(p) && p.0 == v && p.1 as int == j,
            Option::None => r is None,
        },
{
    if pos <= buf.len() && buf.len() - pos >= 8 {
        let sub = slice_subrange(buf, pos, pos + 8);
        let v = u64_from_le_bytes(sub);
        Some((v, pos + 8))
    } else {
        None
    }
}

fn read_id(buf: &[u8], pos: usize) -> (r: Option<(usize, usize)>)
    ensures
        match dec_id(buf@, pos as int) {
            Option::Some((v, j)) => r matches Option::Some(p) && p.0 as u64 == v && p.1 as int
                == j,
            Option::None => r is None,
        },
{
    match read_u64(buf, pos) {
        Some((v, j)) => if v <= usize::MAX as u64 {
            Some((v as usize, j))
        } else {
            None
        },
        None => None,
    }
}

fn read_bytes(buf: &[u8], pos: usize) -> (r: Option<(Vec<u8>, usize)>)
    ensures
        match dec_bytes(buf@, pos as int) {
            Option::Some((v, j)) => r matches Option::Some(p) && p.0@ == v && p.1 as int == j,
            Option::None => r is None,
        },
{
    match read_u64(buf, pos) {
        Some((n, j)) => if n <= (buf.len() - j) as u64 {
            let nn = n as usize;
            let sub = slice_subrange(buf, j, j + nn);
            Some((slice_to_vec(sub), j + nn))
        } else {
            None
        },
        None => None,
    }
}

fn read_str(buf: &[u8], pos: usize) -> (r: Option<(String, usize)>)
    ensures
        match dec_str(buf@, pos as int) {
            Option::Some((v, j)) => r matches Option::Some(p) && p.0@ == v && p.1 as int == j,
            Option::None => r is None,
        },
{
    match read_bytes(buf, pos) {
        Some((b, j)) => match bytes_to_string(b) {
            Some(s) => Some((s, j)),
            None => None,
        },
        None => None,
    }
}

fn read_opt_id(buf: &[u8], pos: usize) -> (r: Option<(Option<usize>, usize)>)
    ensures
        match dec_opt_id(buf@, pos as int) {
            Option::Some((v, j)) => r matches Option::Some(p) && opt_u64_view(p.0) == v && p.1
                as int == j,
            Option::None => r is None,
        },
{
    match read_bool(buf, pos) {
        Some((present, j)) => if present {
            match read_id(buf, j) {
                Some((v, j2)) => Some((Some(v), j2)),
                None => None,
            }
        } else {
            Some((None, j))
        },
        None => None,
    }
}

fn read_opt_str(buf: &[u8], pos: usize) -> (r: Option<(Option<String>, usize)>)
    ensures
        match dec_opt_str(buf@, pos as int) {
            Option::Some((v, j)) => r matches Option::Some(p) && opt_str_view(p.0) == v && p.1
                as int == j,
            Option::None => r is None,
        },
{
    match read_bool(buf, pos) {
        Some((present, j)) => if present {
            match read_str(buf, j) {
                Some((v, j2)) => Some((Some(v), j2)),
                None => None,
            }
        } else {
            Some((None, j))
        },
        None => None,
    }
}

fn read_id_items(buf: &[u8], pos: usize, k: u64) -> (r: Option<(Vec<usize>, usize)>)
    ensures
        match dec_id_items(buf@, pos as int, k as nat) {
            Option::Some((v, j)) => r matches Option::Some(p) && ids_view(p.0@) == v && p.1 as int
                == j,
            Option::None => r is None,
        },
    decreases k,
{
    if k == 0 {
        let v: Vec<usize> = Vec::new();
        proof {
            assert(ids_view(v@) =~= Seq::<u64>::empty());
        }
        Some((v, pos))
    } else {
        match read_id(buf, pos) {
            Some((x, j)) => match read_id_items(buf, j, k - 1) {
                Some((mut rest, j2)) => {
                    let mut v: Vec<usize> = Vec::new();
                    v.push(x);
                    v.append(&mut rest);
                    proof {
                        let m = dec_id_items(buf@, pos as int, k as nat);
                        assert(ids_view(v@) =~= m.unwrap().0);
                    }
                    Some((v, j2))
                },
                None => None,
            },
            None => None,
        }
    }
}

fn read_id_list(buf: &[u8], pos: usize) -> (r: Option<(Vec<usize>, usize)>)
    ensures
        match dec_id_list(buf@, pos as int) {
            Option::Some((v, j)) => r matches Option::Some(p) && ids_view(p.0@) == v && p.1 as int
                == j,
            Option::None => r is None,
        },
{
    match read_u64(buf, pos) {
        Some((n, j)) => read_id_items(buf, j, n),
        None => None,
    }
}

fn read_str_items(buf: &[u8], pos: usize, k: u64) -> (r: Option<(Vec<String>, usize)>)
    ensures
        match dec_str_items(buf@, pos as int, k as nat) {
            Option::Some((v, j)) => r matches Option::Some(p) && strs_view(p.0@) == v && p.1
                as int == j,
            Option::None => r is None,
        },
    decreases k,
{
    if k == 0 {
        let v: Vec<String> = Vec::new();
        proof {
            assert(strs_view(v@) =~= Seq::<Seq<char>>::empty());
        }
        Some((v, pos))
    } else {
        match read_str(buf, pos) {
            Some((x, j)) => match read_str_items(buf, j, k - 1) {
                Some((mut rest, j2)) => {
                    let mut v: Vec<String> = Vec::new();
                    v.push(x);
                    v.append(&mut rest);
                    proof {
                        let m = dec_str_items(buf@, pos as int, k as nat);
                        assert(strs_view(v@) =~= m.unwrap().0);
                    }
                    Some((v, j2))
                },
                None => None,
            },
            None => None,
        }
    }
}

fn read_str_list(buf: &[u8], pos: usize) -> (r: Option<(Vec<String>, usize)>)
    ensures
        match dec_str_list(buf@, pos as int) {
            Option::Some((v, j)) => r matches Option::Some(p) && strs_view(p.0@) == v && p.1
                as int == j,
            Option::None => r is None,
        },
{
    match read_u64(buf, pos) {
        Some((n, j)) => read_str_items(buf, j, n),
        None => None,
    }
}

fn read_channel(buf: &[u8], pos: usize) -> (r: Option<(Channel, usize)>)
    ensures
        match dec_channel(buf@, pos as int) {
            Option::Some((v, j)) => r matches Option::Some(p) && p.0@ == v && p.1 as int == j,
            Option::None => r is None,
        },
{
    match read_id(buf, pos) {
        Some((id, j)) => match read_opt_id(buf, j) {
            Some((condition, j2)) => Some((Channel { id, condition }, j2)),
            None => None,
        },
        None => None,
    }
}

fn read_group(buf: &[u8], pos: usize) -> (r: Option<(Group, usize)>)
    ensures
        match dec_group(buf@, pos as int) {
            Option::Some((v, j)) => r matches Option::Some(p) && p.0@ == v && p.1 as int == j,
            Option::None => r is None,
        },
{
    match read_id(buf, pos) {
        Some((id, j)) => match read_id(buf, j) {
            Some((gpos, j2)) => match read_str(buf, j2) {
                Some((name, j3)) => Some((Group { id, pos: gpos, name }, j3)),
                None => None,
            },
            None => None,
        },
        None => None,
    }
}

fn read_user(buf: &[u8], pos: usize) -> (r: Option<(User, usize)>)
    ensures
        match dec_user(buf@, pos as int) {
            Option::Some((v, j)) => r matches Option::Some(p) && p.0@ == v && p.1 as int == j,
            Option::None => r is None,
        },
{
    match read_id(buf, pos) {
        Some((id, j)) => match read_bool(buf, j) {
            Some((bot, j2)) => match read_str(buf, j2) {
                Some((name, j3)) => match read_opt_str(buf, j3) {
                    Some((nick, j4)) => match read_id_list(buf, j4) {
                        Some((attributes, j5)) => Some(
                            (User { id, bot, name, nick, attributes }, j5),
                        ),
                        None => None,
                    },
                    None => None,
                },
                None => None,
            },
            None => None,
        },
        None => None,
    }
}

fn read_message(buf: &[u8], pos: usize) -> (r: Option<(Message, usize)>)
    ensures
        match dec_message(buf@, pos as int) {
            Option::Some((v, j)) => r matches Option::Some(p) && p.0@ == v && p.1 as int == j,
            Option::None => r is None,
        },
{
    match read_id(buf, pos) {
        Some((id, j)) => match read_id(buf, j) {
            Some((author, j2)) => match read_id(buf, j2) {
                Some((channel, j3)) => match read_bytes(buf, j3) {
                    Some((text, j4)) => Some((Message { id, author, channel, text }, j4)),
                    None => None,
                },
                None => None,
            },
            None => None,
        },
        None => None,
    }
}

/// Reads one packet from the front of the buffer, returning how many bytes it
/// took. Bytes past the packet are left untouched.
#[verifier::rlimit(100)]
#[verifier::spinoff_prover]
fn read_packet(buf: &[u8]) -> (r: Option<(Packet, usize)>)
    ensures
        match dec_packet(buf@, 0) {
            Option::Some((m, j)) => r matches Option::Some(p) && p.0@ == m && p.1 as int == j,
            Option::None => r is None,
        },
{
    match read_u8(buf, 0) {
        None => None,
        Some((tag, j)) => {
            if tag == 0 {
                match read_u8(buf, j) {
                    Some((c, j2)) => Some((Packet::ErrCode(c), j2)),
                    None => None,
                }
            } else if tag == 1 {
                match read_str(buf, j) {
                    Some((name, j2)) => match read_opt_str(buf, j2) {
                        Some((password, j3)) => match read_opt_str(buf, j3) {
                            Some((token, j4)) => match read_bytes(buf, j4) {
                                Some((public_key, j5)) => Some(
                                    (
                                        Packet::Login(
                                            Login { name, password, token, public_key },
                                        ),
                                        j5,
                                    ),
                                ),
                                None => None,
                            },
                            None => None,
                        },
                        None => None,
                    },
                    None => None,
                }
            } else if tag == 2 {
                Some((Packet::ChannelList(ChannelList {}), j))
            } else if tag == 3 {
                match read_channel(buf, j) {
                    Some((channel, j2)) => Some(
                        (Packet::ChannelCreate(ChannelCreate { channel }), j2),
                    ),
                    None => None,
                }
            } else if tag == 4 {
                match read_channel(buf, j) {
                    Some((channel, j2)) => Some(
                        (Packet::ChannelUpdate(ChannelUpdate { channel }), j2),
                    ),
                    None => None,
                }
            } else if tag == 5 {
                match read_id(buf, j) {
                    Some((channel, j2)) => Some(
                        (Packet::ChannelDelete(ChannelDelete { channel }), j2),
                    ),
                    None => None,
                }
            } else if tag == 6 {
                match read_opt_id(buf, j) {
                    Some((around, j2)) => Some((Packet::MessageList(MessageList { around }), j2)),
                    None => None,
                }
            } else if tag == 7 {
                match read_id(buf, j) {
                    Some((channel, j2)) => match read_bytes(buf, j2) {
                        Some((text, j3)) => Some(
                            (Packet::MessageCreate(MessageCreate { channel, text }), j3),
                        ),
                        None => None,
                    },
                    None => None,
                }
            } else if tag == 8 {
                match read_id(buf, j) {
                    Some((id, j2)) => match read_id(buf, j2) {
                        Some((channel, j3)) => match read_bytes(buf, j3) {
                            Some((text, j4)) => Some(
                                (Packet::MessageUpdate(MessageUpdate { id, channel, text }), j4),
                            ),
                            None => None,
                        },
                        None => None,
                    },
                    None => None,
                }
            } else if tag == 9 {
                match read_id(buf, j) {
                    Some((id, j2)) => Some((Packet::MessageDelete(MessageDelete { id }), j2)),
                    None => None,
                }
            } else if tag == 10 {
                match read_id(buf, j) {
                    Some((author, j2)) => match read_id(buf, j2) {
                        Some((recipient, j3)) => match read_str(buf, j3) {
                            Some((command, j4)) => match read_str_list(buf, j4) {
                                Some((args, j5)) => Some(
                                    (
                                        Packet::Command(
                                            Command { author, recipient, command, args },
                                        ),
                                        j5,
                                    ),
                                ),
                                None => None,
                            },
                            None => None,
                        },
                        None => None,
                    },
                    None => None,
                }
            } else if tag == 11 {
                match read_channel(buf, j) {
                    Some((inner, j2)) => Some(
                        (Packet::ChannelReceive(ChannelReceive { inner }), j2),
                    ),
                    None => None,
                }
            } else if tag == 12 {
                match read_channel(buf, j) {
                    Some((inner, j2)) => Some(
                        (Packet::ChannelDeleteReceive(ChannelDeleteReceive { inner }), j2),
                    ),
                    None => None,
                }
            } else if tag == 13 {
                match read_group(buf, j) {
                    Some((inner, j2)) => match read_bool(buf, j2) {
                        Some((is_new, j3)) => Some(
                            (Packet::GroupReceive(GroupReceive { inner, new: is_new }), j3),
                        ),
                        None => None,
                    },
                    None => None,
                }
            } else if tag == 14 {
                match read_group(buf, j) {
                    Some((inner, j2)) => Some(
                        (Packet::GroupDeleteReceive(GroupDeleteReceive { inner }), j2),
                    ),
                    None => None,
                }
            } else if tag == 15 {
                match read_bool(buf, j) {
                    Some((created, j2)) => match read_str(buf, j2) {
                        Some((token, j3)) => Some(
                            (Packet::LoginSuccess(LoginSuccess { created, token }), j3),
                        ),
                        None => None,
                    },
                    None => None,
                }
            } else if tag == 16 {
                match read_message(buf, j) {
                    Some((inner, j2)) => Some(
                        (Packet::MessageReceive(MessageReceive { inner }), j2),
                    ),
                    None => None,
                }
            } else if tag == 17 {
                match read_id(buf, j) {
                    Some((id, j2)) => Some(
                        (Packet::MessageDeleteReceive(MessageDeleteReceive { id }), j2),
                    ),
                    None => None,
                }
            } else if tag == 18 {
                match read_id(buf, j) {
                    Some((author, j2)) => match read_bytes(buf, j2) {
                        Some((text, j3)) => Some(
                            (Packet::PMReceive(PMReceive { author, text }), j3),
                        ),
                        None => None,
                    },
                    None => None,
                }
            } else if tag == 19 {
                match read_u64(buf, j) {
                    Some((secs, j2)) => Some((Packet::RateLimited(secs), j2)),
                    None => None,
                }
            } else if tag == 20 {
                match read_id(buf, j) {
                    Some((author, j2)) => match read_id(buf, j2) {
                        Some((channel, j3)) => Some(
                            (Packet::TypingReceive(TypingReceive { author, channel }), j3),
                        ),
                        None => None,
                    },
                    None => None,
                }
            } else if tag == 21 {
                match read_user(buf, j) {
                    Some((inner, j2)) => Some((Packet::UserReceive(UserReceive { inner }), j2)),
                    None => None,
                }
            } else if tag == 22 {
                match read_user(buf, j) {
                    Some((author, j2)) => match read_user(buf, j2) {
                        Some((recipient, j3)) => match read_str(buf, j3) {
                            Some((command, j4)) => match read_str_list(buf, j4) {
                                Some((args, j5)) => Some(
                                    (
                                        Packet::CommandReceive(
                                            CommandReceive { author, recipient, command, args },
                                        ),
                                        j5,
                                    ),
                                ),
                                None => None,
                            },
                            None => None,
                        },
                        None => None,
                    },
                    None => None,
                }
            } else {
                Some((Packet::Unrecognized(tag), buf.len()))
            }
        },
    }
}

/// Decodes one packet from the front of the buffer; bytes past the packet
/// are ignored, so a buffer holding one packet and trailing data still
/// yields the packet.
pub fn deserialize(buf: &[u8]) -> (r: Result<Packet, DecodeError>)
    ensures
        r matches Ok(p) ==> (dec_packet(buf@, 0) matches Option::Some(m) && m.0 == p@),
        r is Err <==> dec_packet(buf@, 0) is None,
{
    match read_packet(buf) {
        Some((p, _)) => Ok(p),
        None => Err(DecodeError::Malformed),
    }
}

/// Decodes one packet from the front of a longer byte stream, reporting how
/// many bytes it consumed; bytes past the packet are left for the caller.
pub fn deserialize_stream(buf: &[u8]) -> (r: Result<(Packet, usize), DecodeError>)
    ensures
        r matches Ok(p) ==> dec_packet(buf@, 0) == Option::Some((p.0@, p.1 as int)),
        r is Err ==> dec_packet(buf@, 0) is None,
{
    match read_packet(buf) {
        Some(p) => Ok(p),
        None => Err(DecodeError::Malformed),
    }
}

// ---------------------------------------------------------------------------
// Frames: a 16-bit little-endian length prefix, then exactly that many bytes
// of packet body.
// ---------------------------------------------------------------------------
pub open spec fn enc_frame(m: PacketV) -> Seq<u8> {
    spec_u16_to_le_bytes(enc_packet(m).len() as u16) + enc_packet(m)
}

pub open spec fn dec_frame(s: Seq<u8>) -> Option<PacketV> {
    if s.len() >= 2 {
        let n = spec_u16_from_le_bytes(s.subrange(0, 2)) as int;
        if s.len() == 2 + n {
            match dec_packet(s.subrange(2, s.len() as int), 0) {
                Option::Some((m, j)) => if j == n {
                    Option::Some(m)
                } else {
                    Option::None
                },
                Option::None => Option::None,
            }
        } else {
            Option::None
        }
    } else {
        Option::None
    }
}

/// Encodes one packet as a full frame. Fails exactly when the body is too
/// long for the 16-bit length prefix; nothing is ever truncated.
pub fn encode_frame(packet: &Packet) -> (r: Result<Vec<u8>, EncodeError>)
    ensures
        enc_packet(packet@).len() <= 65535 ==> (r matches Ok(v) && v@ == enc_frame(packet@)),
        enc_packet(packet@).len() > 65535 ==> r == Result::<Vec<u8>, EncodeError>::Err(
            EncodeError::TooLarge,
        ),
{
    let body = match serialize(packet) {
        Ok(b) => b,
        Err(e) => {
            return Err(e);
        },
    };
    if body.len() > 65535 {
        Err(EncodeError::TooLarge)
    } else {
        let mut out = u16_to_le_bytes(body.len() as u16);
        let mut b = body;
        out.append(&mut b);
        proof {
            assert(out@ =~= enc_frame(packet@));
        }
        Ok(out)
    }
}

/// Decodes one full frame: the length prefix must cover the buffer
/// exactly and the body must decode as exactly one packet, else the frame
/// is rejected as malformed.
pub fn decode_frame(buf: &[u8]) -> (r: Result<Packet, DecodeError>)
    ensures
        r matches Ok(p) ==> dec_frame(buf@) == Option::Some(p@),
        r is Err ==> dec_frame(buf@) is None,
{
    if buf.len() < 2 {
        return Err(DecodeError::Malformed);
    }
    let n = u16_from_le_bytes(slice_subrange(buf, 0, 2)) as usize;
    if buf.len() - 2 != n {
        return Err(DecodeError::Malformed);
    }
    let body = slice_subrange(buf, 2, buf.len());
    match read_packet(body) {
        Some((p, used)) => if used == body.len() {
            Ok(p)
        } else {
            Err(DecodeError::Malformed)
        },
        None => Err(DecodeError::Malformed),
    }
}

/// Law: framing round-trips. Any packet whose body fits a frame comes back
/// unchanged from an encode followed by a decode.
pub proof fn lemma_frame_round_trip(m: PacketV)
    requires
        wf_packet(m),
        enc_packet(m).len() <= 65535,
    ensures
        dec_frame(enc_frame(m)) == Option::Some(m),
{
    lemma_auto_spec_u16_to_from_le_bytes();
    let s = enc_frame(m);
    let pre = spec_u16_to_le_bytes(enc_packet(m).len() as u16);
    assert(s.subrange(0, s.len() as int) =~= s);
    split2(s, 0, pre, enc_packet(m));
    lemma_packet_round_trip(m);
    assert(s.subrange(2, s.len() as int) == enc_packet(m));
}

} // verus!
