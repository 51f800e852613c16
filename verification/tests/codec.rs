use chatproto::packet::{
    Channel, ChannelCreate, ChannelDelete, ChannelList, Command, CommandReceive, Group,
    GroupDeleteReceive, GroupReceive, Login, LoginSuccess, Message, MessageCreate,
    MessageDeleteReceive, MessageList, MessageReceive, MessageUpdate, PMReceive, Packet,
    TypingReceive, User, UserReceive,
};
use chatproto::codec::{decode_frame, deserialize, deserialize_stream, encode_frame, serialize};

fn sample_user() -> User {
    User {
        id: 7,
        bot: false,
        name: "alice".to_string(),
        nick: Some("al".to_string()),
        attributes: vec![1, 2, 9],
    }
}

fn round_trip(p: Packet) {
    let body = serialize(&p).unwrap();
    let back = deserialize(&body).unwrap();
    assert_eq!(back, p);
    let frame = encode_frame(&p).unwrap();
    assert_eq!(frame.len(), body.len() + 2);
    let back2 = decode_frame(&frame).unwrap();
    assert_eq!(back2, p);
}

#[test]
fn round_trip_err_code() {
    round_trip(Packet::ErrCode(0));
    round_trip(Packet::ErrCode(250));
}

#[test]
fn round_trip_login() {
    round_trip(Packet::Login(Login {
        name: "alice".to_string(),
        password: Some("hunter2".to_string()),
        token: None,
        public_key: vec![1, 2, 3, 255],
    }));
}

#[test]
fn round_trip_channel_packets() {
    round_trip(Packet::ChannelList(ChannelList {}));
    round_trip(Packet::ChannelCreate(ChannelCreate {
        channel: Channel { id: 4, condition: Some(2) },
    }));
    round_trip(Packet::ChannelDelete(ChannelDelete { channel: 9 }));
}

#[test]
fn round_trip_message_packets() {
    round_trip(Packet::MessageList(MessageList { around: None }));
    round_trip(Packet::MessageList(MessageList { around: Some(88) }));
    round_trip(Packet::MessageCreate(MessageCreate { channel: 3, text: b"hello there".to_vec() }));
    round_trip(Packet::MessageUpdate(MessageUpdate { id: 5, channel: 3, text: vec![] }));
    round_trip(Packet::MessageReceive(MessageReceive {
        inner: Message { id: 10, author: 7, channel: 3, text: b"hi".to_vec() },
    }));
    round_trip(Packet::MessageDeleteReceive(MessageDeleteReceive { id: 10 }));
}

#[test]
fn round_trip_group_packets() {
    round_trip(Packet::GroupReceive(GroupReceive {
        inner: Group { id: 1, pos: 0, name: "staff".to_string() },
        new: true,
    }));
    round_trip(Packet::GroupDeleteReceive(GroupDeleteReceive {
        inner: Group { id: 1, pos: 0, name: "staff".to_string() },
    }));
}

#[test]
fn round_trip_user_and_command() {
    round_trip(Packet::UserReceive(UserReceive { inner: sample_user() }));
    round_trip(Packet::Command(Command {
        author: 1,
        recipient: 2,
        command: "kick".to_string(),
        args: vec!["now".to_string(), "really".to_string()],
    }));
    round_trip(Packet::CommandReceive(CommandReceive {
        author: sample_user(),
        recipient: sample_user(),
        command: "wave".to_string(),
        args: vec![],
    }));
}

#[test]
fn round_trip_misc_server_packets() {
    round_trip(Packet::LoginSuccess(LoginSuccess { created: true, token: "tok".to_string() }));
    round_trip(Packet::PMReceive(PMReceive { author: 3, text: vec![9, 9, 9] }));
    round_trip(Packet::RateLimited(30));
    round_trip(Packet::TypingReceive(TypingReceive { author: 3, channel: 1 }));
}

#[test]
fn round_trip_non_ascii_text() {
    round_trip(Packet::LoginSuccess(LoginSuccess {
        created: false,
        token: "héllo wörld ✓".to_string(),
    }));
}

#[test]
fn unknown_tag_decodes_to_unrecognized() {
    // A frame whose tag byte names no known variant must decode, not fail.
    let body = vec![200u8];
    let mut frame = vec![1u8, 0u8];
    frame.extend_from_slice(&body);
    let p = decode_frame(&frame).unwrap();
    assert_eq!(p, Packet::Unrecognized(200));
    round_trip(Packet::Unrecognized(200));
}

#[test]
fn unknown_tag_tolerates_a_body() {
    // Whatever an unknown variant carries is taken along, never an error.
    let frame = vec![3u8, 0, 200, 77, 78];
    let p = decode_frame(&frame).unwrap();
    assert_eq!(p, Packet::Unrecognized(200));
}

#[test]
fn decode_rejects_empty_and_truncated() {
    assert!(deserialize(&[]).is_err());
    // Login tag with no fields behind it.
    assert!(deserialize(&[1]).is_err());
    // Frame whose length prefix overruns the buffer.
    assert!(decode_frame(&[5, 0, 1, 2]).is_err());
    assert!(decode_frame(&[1]).is_err());
}

#[test]
fn decode_rejects_bad_option_flag() {
    // MessageList with a presence byte that is neither 0 nor 1.
    let buf = vec![6u8, 7u8];
    assert!(deserialize(&buf).is_err());
}

#[test]
fn decode_rejects_invalid_utf8() {
    // LoginSuccess: created byte, then a one-byte string that is not UTF-8.
    let mut buf = vec![15u8, 1u8];
    buf.extend_from_slice(&1u64.to_le_bytes());
    buf.push(0xff);
    assert!(deserialize(&buf).is_err());
}

#[test]
fn deserialize_stream_reports_consumed_bytes() {
    let p = Packet::ErrCode(3);
    let mut body = serialize(&p).unwrap();
    let len = body.len();
    body.extend_from_slice(&[9, 9, 9]);
    let (q, used) = deserialize_stream(&body).unwrap();
    assert_eq!(q, p);
    assert_eq!(used, len);
}

#[test]
fn deserialize_reads_one_packet_off_the_front() {
    // The two decoders agree: trailing bytes after a packet are ignored.
    let p = Packet::ErrCode(5);
    let mut body = serialize(&p).unwrap();
    body.extend_from_slice(&[9]);
    assert_eq!(deserialize(&body).unwrap(), p);
    assert_eq!(deserialize_stream(&body).unwrap().0, p);
}

#[test]
fn decode_frame_rejects_a_padded_body() {
    // A frame must hold exactly one packet: ErrCode is two bytes, the
    // declared five leave three the packet does not explain.
    let frame = vec![5u8, 0, 0, 5, 9, 9, 9];
    assert!(decode_frame(&frame).is_err());
}

#[test]
fn serialize_is_deterministic() {
    let p = Packet::ErrCode(0);
    assert_eq!(serialize(&p).unwrap(), serialize(&p).unwrap());
    assert_eq!(serialize(&p).unwrap(), vec![0u8, 0u8]);
}
