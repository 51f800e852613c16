//! The closed set of message kinds exchanged between client and server,
//! together with the mathematical models that the codec's contracts speak of.
//!
//! Every wire value is modelled by a spec-level twin (`ChannelV`, `PacketV`,
//! ...) holding `u64`, `Seq<u8>` and `Seq<char>` in place of `usize`, `Vec<u8>`
//! and `String`; `View` maps each executable value onto its model.
use vstd::prelude::*;

verus! {

/// A named attribute a user can carry.
#[derive(Clone, Debug, PartialEq)]
pub struct Attribute {
    pub id: usize,
    pub name: String,
}

/// A member of the server, as the server announces it.
#[derive(Clone, Debug, PartialEq)]
pub struct User {
    pub id: usize,
    pub bot: bool,
    pub name: String,
    pub nick: Option<String>,
    pub attributes: Vec<usize>,
}

/// A channel: a stable identity and an optional access-gating reference.
#[derive(Clone, Debug, PartialEq)]
pub struct Channel {
    pub id: usize,
    pub condition: Option<usize>,
}

/// A group: a stable identity and a dense zero-based position.
#[derive(Clone, Debug, PartialEq)]
#[verifier::ext_equal]
pub struct Group {
    pub id: usize,
    pub pos: usize,
    pub name: String,
}

/// One chat message as the server delivers it.
#[derive(Clone, Debug, PartialEq)]
pub struct Message {
    pub id: usize,
    pub author: usize,
    pub channel: usize,
    pub text: Vec<u8>,
}

// Client -> server payloads.
#[derive(Clone, Debug, PartialEq)]
pub struct Login {
    pub name: String,
    pub password: Option<String>,
    pub token: Option<String>,
    pub public_key: Vec<u8>,
}

#[derive(Clone, Debug, PartialEq)]
pub struct ChannelList {}

#[derive(Clone, Debug, PartialEq)]
pub struct ChannelCreate {
    pub channel: Channel,
}

#[derive(Clone, Debug, PartialEq)]
pub struct ChannelUpdate {
    pub channel: Channel,
}

#[derive(Clone, Debug, PartialEq)]
pub struct ChannelDelete {
    pub channel: usize,
}

#[derive(Clone, Debug, PartialEq)]
pub struct MessageList {
    pub around: Option<usize>,
}

#[derive(Clone, Debug, PartialEq)]
pub struct MessageCreate {
    pub channel: usize,
    pub text: Vec<u8>,
}

#[derive(Clone, Debug, PartialEq)]
pub struct MessageUpdate {
    pub id: usize,
    pub channel: usize,
    pub text: Vec<u8>,
}

#[derive(Clone, Debug, PartialEq)]
pub struct MessageDelete {
    pub id: usize,
}

#[derive(Clone, Debug, PartialEq)]
pub struct Command {
    pub author: usize,
    pub recipient: usize,
    pub command: String,
    pub args: Vec<String>,
}

// Server -> client payloads.
#[derive(Clone, Debug, PartialEq)]
pub struct LoginSuccess {
    pub created: bool,
    pub token: String,
}

#[derive(Clone, Debug, PartialEq)]
pub struct CommandReceive {
    pub author: User,
    pub recipient: User,
    pub command: String,
    pub args: Vec<String>,
}

#[derive(Clone, Debug, PartialEq)]
pub struct ChannelReceive {
    pub inner: Channel,
}

#[derive(Clone, Debug, PartialEq)]
pub struct ChannelDeleteReceive {
    pub inner: Channel,
}

#[derive(Clone, Debug, PartialEq)]
pub struct GroupReceive {
    pub inner: Group,
    pub new: bool,
}

#[derive(Clone, Debug, PartialEq)]
pub struct GroupDeleteReceive {
    pub inner: Group,
}

#[derive(Clone, Debug, PartialEq)]
pub struct MessageReceive {
    pub inner: Message,
}

#[derive(Clone, Debug, PartialEq)]
pub struct MessageDeleteReceive {
    pub id: usize,
}

#[derive(Clone, Debug, PartialEq)]
pub struct PMReceive {
    pub author: usize,
    pub text: Vec<u8>,
}

#[derive(Clone, Debug, PartialEq)]
pub struct TypingReceive {
    pub author: usize,
    pub channel: usize,
}

#[derive(Clone, Debug, PartialEq)]
pub struct UserReceive {
    pub inner: User,
}

/// The tagged union carried by every frame. `Unrecognized` stands for a frame
/// whose leading tag byte names no known variant: such a frame is kept, never
/// treated as a decode failure, so that the reader can log and go on.
#[derive(Clone, Debug, PartialEq)]
pub enum Packet {
    ErrCode(u8),
    Login(Login),
    ChannelList(ChannelList),
    ChannelCreate(ChannelCreate),
    ChannelUpdate(ChannelUpdate),
    ChannelDelete(ChannelDelete),
    MessageList(MessageList),
    MessageCreate(MessageCreate),
    MessageUpdate(MessageUpdate),
    MessageDelete(MessageDelete),
    Command(Command),
    ChannelReceive(ChannelReceive),
    ChannelDeleteReceive(ChannelDeleteReceive),
    GroupReceive(GroupReceive),
    GroupDeleteReceive(GroupDeleteReceive),
    LoginSuccess(LoginSuccess),
    MessageReceive(MessageReceive),
    MessageDeleteReceive(MessageDeleteReceive),
    PMReceive(PMReceive),
    RateLimited(u64),
    TypingReceive(TypingReceive),
    UserReceive(UserReceive),
    CommandReceive(CommandReceive),
    Unrecognized(u8),
}

// Spec-level models.
pub struct UserV {
    pub id: u64,
    pub bot: bool,
    pub name: Seq<char>,
    pub nick: Option<Seq<char>>,
    pub attributes: Seq<u64>,
}

pub struct ChannelV {
    pub id: u64,
    pub condition: Option<u64>,
}

pub struct GroupV {
    pub id: u64,
    pub pos: u64,
    pub name: Seq<char>,
}

pub struct MessageV {
    pub id: u64,
    pub author: u64,
    pub channel: u64,
    pub text: Seq<u8>,
}

pub enum PacketV {
    ErrCode(u8),
    Login { name: Seq<char>, password: Option<Seq<char>>, token: Option<Seq<char>>, public_key: Seq<u8> },
    ChannelList,
    ChannelCreate { channel: ChannelV },
    ChannelUpdate { channel: ChannelV },
    ChannelDelete { channel: u64 },
    MessageList { around: Option<u64> },
    MessageCreate { channel: u64, text: Seq<u8> },
    MessageUpdate { id: u64, channel: u64, text: Seq<u8> },
    MessageDelete { id: u64 },
    Command { author: u64, recipient: u64, command: Seq<char>, args: Seq<Seq<char>> },
    ChannelReceive { inner: ChannelV },
    ChannelDeleteReceive { inner: ChannelV },
    GroupReceive { inner: GroupV, is_new: bool },
    GroupDeleteReceive { inner: GroupV },
    LoginSuccess { created: bool, token: Seq<char> },
    MessageReceive { inner: MessageV },
    MessageDeleteReceive { id: u64 },
    PMReceive { author: u64, text: Seq<u8> },
    RateLimited(u64),
    TypingReceive { author: u64, channel: u64 },
    UserReceive { inner: UserV },
    CommandReceive { author: UserV, recipient: UserV, command: Seq<char>, args: Seq<Seq<char>> },
    Unrecognized(u8),
}

pub open spec fn opt_str_view(o: Option<String>) -> Option<Seq<char>> {
    match o {
        Option::None => Option::None,
        Option::Some(s) => Option::Some(s@),
    }
}

pub open spec fn opt_u64_view(o: Option<usize>) -> Option<u64> {
    match o {
        Option::None => Option::None,
        Option::Some(v) => Option::Some(v as u64),
    }
}

pub open spec fn ids_view(v: Seq<usize>) -> Seq<u64> {
    v.map_values(|x: usize| x as u64)
}

pub open spec fn strs_view(v: Seq<String>) -> Seq<Seq<char>> {
    v.map_values(|s: String| s@)
}

impl View for User {
    type V = UserV;

    open spec fn view(&self) -> UserV {
        UserV {
            id: self.id as u64,
            bot: self.bot,
            name: self.name@,
            nick: opt_str_view(self.nick),
            attributes: ids_view(self.attributes@),
        }
    }
}

impl View for Channel {
    type V = ChannelV;

    open spec fn view(&self) -> ChannelV {
        ChannelV { id: self.id as u64, condition: opt_u64_view(self.condition) }
    }
}

impl View for Group {
    type V = GroupV;

    open spec fn view(&self) -> GroupV {
        GroupV { id: self.id as u64, pos: self.pos as u64, name: self.name@ }
    }
}

impl View for Message {
    type V = MessageV;

    open spec fn view(&self) -> MessageV {
        MessageV {
            id: self.id as u64,
            author: self.author as u64,
            channel: self.channel as u64,
            text: self.text@,
        }
    }
}

impl View for Packet {
    type V = PacketV;

    open spec fn view(&self) -> PacketV {
        match self {
            Packet::ErrCode(code) => PacketV::ErrCode(*code),
            Packet::Login(p) => PacketV::Login {
                name: p.name@,
                password: opt_str_view(p.password),
                token: opt_str_view(p.token),
                public_key: p.public_key@,
            },
            Packet::ChannelList(_) => PacketV::ChannelList,
            Packet::ChannelCreate(p) => PacketV::ChannelCreate { channel: p.channel@ },
            Packet::ChannelUpdate(p) => PacketV::ChannelUpdate { channel: p.channel@ },
            Packet::ChannelDelete(p) => PacketV::ChannelDelete { channel: p.channel as u64 },
            Packet::MessageList(p) => PacketV::MessageList { around: opt_u64_view(p.around) },
            Packet::MessageCreate(p) => PacketV::MessageCreate {
                channel: p.channel as u64,
                text: p.text@,
            },
            Packet::MessageUpdate(p) => PacketV::MessageUpdate {
                id: p.id as u64,
                channel: p.channel as u64,
                text: p.text@,
            },
            Packet::MessageDelete(p) => PacketV::MessageDelete { id: p.id as u64 },
            Packet::Command(p) => PacketV::Command {
                author: p.author as u64,
                recipient: p.recipient as u64,
                command: p.command@,
                args: strs_view(p.args@),
            },
            Packet::ChannelReceive(p) => PacketV::ChannelReceive { inner: p.inner@ },
            Packet::ChannelDeleteReceive(p) => PacketV::ChannelDeleteReceive { inner: p.inner@ },
            Packet::GroupReceive(p) => PacketV::GroupReceive { inner: p.inner@, is_new: p.new },
            Packet::GroupDeleteReceive(p) => PacketV::GroupDeleteReceive { inner: p.inner@ },
            Packet::LoginSuccess(p) => PacketV::LoginSuccess { created: p.created, token: p.token@ },
            Packet::MessageReceive(p) => PacketV::MessageReceive { inner: p.inner@ },
            Packet::MessageDeleteReceive(p) => PacketV::MessageDeleteReceive { id: p.id as u64 },
            Packet::PMReceive(p) => PacketV::PMReceive { author: p.author as u64, text: p.text@ },
            Packet::RateLimited(secs) => PacketV::RateLimited(*secs),
            Packet::TypingReceive(p) => PacketV::TypingReceive {
                author: p.author as u64,
                channel: p.channel as u64,
            },
            Packet::UserReceive(p) => PacketV::UserReceive { inner: p.inner@ },
            Packet::CommandReceive(p) => PacketV::CommandReceive {
                author: p.author@,
                recipient: p.recipient@,
                command: p.command@,
                args: strs_view(p.args@),
            },
            Packet::Unrecognized(tag) => PacketV::Unrecognized(*tag),
        }
    }
}

} // verus!
