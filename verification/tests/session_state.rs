use chatproto::packet::{
    Channel, ChannelDeleteReceive, ChannelReceive, Group, GroupDeleteReceive, GroupReceive,
    LoginSuccess, Message, MessageReceive, Packet, TypingReceive, User, UserReceive,
};
use chatproto::session::{
    apply_packet, error_notice, typing_names, Effect, Session, TypingEntry,
};
use chatproto::TYPING_TIMEOUT;

fn empty_session() -> Session {
    Session {
        id: 1,
        channel: Some(3),
        channels: vec![],
        groups: vec![],
        users: vec![],
        typing: vec![],
        last: None,
    }
}

fn group(id: usize, pos: usize, name: &str) -> Group {
    Group { id, pos, name: name.to_string() }
}

fn positions(s: &Session) -> Vec<(usize, usize)> {
    let mut v: Vec<(usize, usize)> = s.groups.iter().map(|g| (g.id, g.pos)).collect();
    v.sort();
    v
}

fn recv_group(s: &mut Session, g: Group, new: bool) -> Effect {
    apply_packet(s, Packet::GroupReceive(GroupReceive { inner: g, new }), 0)
}

#[test]
fn group_move_and_delete_example() {
    // Groups A(pos=0), B(pos=1), C(pos=2).
    let mut s = empty_session();
    recv_group(&mut s, group(1, 0, "A"), true);
    recv_group(&mut s, group(2, 1, "B"), true);
    recv_group(&mut s, group(3, 2, "C"), true);
    assert_eq!(positions(&s), vec![(1, 0), (2, 1), (3, 2)]);

    // Move C to pos=0: A and B shift up.
    recv_group(&mut s, group(3, 0, "C"), true);
    assert_eq!(positions(&s), vec![(1, 1), (2, 2), (3, 0)]);

    // Delete B (pos=2): nothing sits above it, so nothing shifts.
    apply_packet(
        &mut s,
        Packet::GroupDeleteReceive(GroupDeleteReceive { inner: group(2, 2, "B") }),
        0,
    );
    assert_eq!(positions(&s), vec![(1, 1), (3, 0)]);
}

#[test]
fn group_positions_stay_dense() {
    let mut s = empty_session();
    recv_group(&mut s, group(10, 0, "a"), true);
    recv_group(&mut s, group(11, 0, "b"), true);
    recv_group(&mut s, group(12, 1, "c"), true);
    recv_group(&mut s, group(11, 2, "b"), true);
    apply_packet(&mut s, Packet::GroupDeleteReceive(GroupDeleteReceive { inner: group(10, 0, "a") }), 0);
    let mut pos: Vec<usize> = s.groups.iter().map(|g| g.pos).collect();
    pos.sort();
    assert_eq!(pos, (0..s.groups.len()).collect::<Vec<usize>>());
}

#[test]
fn group_impossible_position_is_ignored() {
    let mut s = empty_session();
    recv_group(&mut s, group(1, 0, "A"), true);
    let eff = recv_group(&mut s, group(2, 5, "B"), true);
    assert!(matches!(eff, Effect::Notice(_)));
    assert_eq!(positions(&s), vec![(1, 0)]);
}

#[test]
fn group_rename_keeps_position() {
    let mut s = empty_session();
    recv_group(&mut s, group(1, 0, "old"), true);
    recv_group(&mut s, group(1, 0, "new"), false);
    assert_eq!(s.groups.len(), 1);
    assert_eq!(s.groups[0].name, "new");
    assert_eq!(s.groups[0].pos, 0);
}

#[test]
fn channel_upsert_is_idempotent() {
    let mut s = empty_session();
    let payload = Channel { id: 4, condition: Some(8) };
    for _ in 0..2 {
        apply_packet(
            &mut s,
            Packet::ChannelReceive(ChannelReceive { inner: payload.clone() }),
            0,
        );
    }
    assert_eq!(s.channels.len(), 1);
    assert_eq!(s.channels[0], payload);
}

#[test]
fn user_upsert_is_idempotent() {
    let mut s = empty_session();
    let payload = User {
        id: 9,
        bot: true,
        name: "bot".to_string(),
        nick: None,
        attributes: vec![1],
    };
    for _ in 0..2 {
        apply_packet(&mut s, Packet::UserReceive(UserReceive { inner: payload.clone() }), 0);
    }
    assert_eq!(s.users.len(), 1);
    assert_eq!(s.users[0], payload);
}

#[test]
fn channel_delete_removes_entry() {
    let mut s = empty_session();
    let c = Channel { id: 4, condition: None };
    apply_packet(&mut s, Packet::ChannelReceive(ChannelReceive { inner: c.clone() }), 0);
    apply_packet(
        &mut s,
        Packet::ChannelDeleteReceive(ChannelDeleteReceive { inner: c }),
        0,
    );
    assert!(s.channels.is_empty());
}

#[test]
fn typing_expires_after_timeout() {
    let mut s = empty_session();
    // A typing signal from someone else at t=100.
    apply_packet(
        &mut s,
        Packet::TypingReceive(TypingReceive { author: 2, channel: 3 }),
        100,
    );
    assert_eq!(s.typing.len(), 1);
    // Still present just after.
    chatproto::session::typing_sweep(&mut s.typing, 101);
    assert_eq!(s.typing.len(), 1);
    // Gone once the timeout has passed.
    chatproto::session::typing_sweep(&mut s.typing, 100 + TYPING_TIMEOUT);
    assert_eq!(s.typing.len(), 0);
}

#[test]
fn own_typing_is_not_recorded() {
    let mut s = empty_session();
    apply_packet(
        &mut s,
        Packet::TypingReceive(TypingReceive { author: 1, channel: 3 }),
        100,
    );
    assert!(s.typing.is_empty());
}

#[test]
fn typing_display_filters_by_channel_and_known_author() {
    let users = vec![
        User { id: 2, bot: false, name: "bob".to_string(), nick: None, attributes: vec![] },
    ];
    let typing = vec![
        TypingEntry { author: 2, channel: 3, time: 0 },
        TypingEntry { author: 2, channel: 4, time: 0 },
        TypingEntry { author: 5, channel: 3, time: 0 },
    ];
    let names = typing_names(&typing, &users, Some(3));
    assert_eq!(names, vec!["bob".to_string()]);
    let none = typing_names(&typing, &users, None);
    assert!(none.is_empty());
}

#[test]
fn message_receive_clears_typing_and_records_echo() {
    let mut s = empty_session();
    s.users.push(User { id: 1, bot: false, name: "me".to_string(), nick: None, attributes: vec![] });
    s.typing.push(TypingEntry { author: 1, channel: 3, time: 50 });
    let eff = apply_packet(
        &mut s,
        Packet::MessageReceive(MessageReceive {
            inner: Message { id: 77, author: 1, channel: 3, text: b"yo".to_vec() },
        }),
        60,
    );
    assert!(s.typing.is_empty());
    assert_eq!(s.last, Some((77, b"yo".to_vec())));
    match eff {
        Effect::ShowMessage { id, author_name, text } => {
            assert_eq!(id, 77);
            assert_eq!(author_name, "me");
            assert_eq!(text, b"yo".to_vec());
        },
        other => panic!("expected a message display effect, got {:?}", other),
    }
}

#[test]
fn login_success_stores_token() {
    let mut s = empty_session();
    let eff = apply_packet(
        &mut s,
        Packet::LoginSuccess(LoginSuccess { created: false, token: "tok".to_string() }),
        0,
    );
    match eff {
        Effect::StoreToken(t) => assert_eq!(t, "tok"),
        other => panic!("expected a token store effect, got {:?}", other),
    }
}

#[test]
fn unrecognized_packet_yields_one_notice_and_no_state_change() {
    let mut s = empty_session();
    let eff = apply_packet(&mut s, Packet::Unrecognized(200), 0);
    assert!(matches!(eff, Effect::Unhandled(Packet::Unrecognized(200))));
    assert!(s.channels.is_empty() && s.groups.is_empty() && s.users.is_empty());
}

#[test]
fn error_code_mapping() {
    let mut s = empty_session();
    let eff = apply_packet(&mut s, Packet::ErrCode(0), 0);
    match eff {
        Effect::Notice(n) => assert_eq!(n, "Invalid credentials"),
        other => panic!("expected a notice, got {:?}", other),
    }
    assert_eq!(error_notice(0), "Invalid credentials");
    assert_eq!(error_notice(6), "Name is already taken");
    assert_eq!(error_notice(250), "Unknown error code 250");
    assert_eq!(error_notice(42), "Unknown error code 42");
    assert_eq!(error_notice(9), "Unknown error code 9");
}
