//! A chat client's wire protocol and session logic, verified.
//!
//! The library covers the length-prefixed wire framing and the
//! tagged packet codec (`codec`), the closed packet taxonomy
//! (`packet`), the hybrid encryption envelope for outbound traffic
//! (`envelope`), the accumulation of socket reads into whole frames
//! (`frames`), the ordered group list with its dense-position invariant
//! (`groups`), and the session state with the dispatch rule each inbound
//! packet applies (`session`). Sockets, the terminal and the credential
//! store stay outside; they hand bytes and plain values in and take
//! effects out.
pub mod codec;
pub mod envelope;
pub mod frames;
pub mod groups;
pub mod packet;
pub mod session;

pub use codec::{deserialize, deserialize_stream, serialize};
pub use packet::Packet;

use vstd::prelude::*;

verus! {

/// Default TCP port the client connects to when the user names none.
pub const DEFAULT_PORT: u16 = 8439;

/// Seconds after which a typing indicator is considered stale and dropped.
pub const TYPING_TIMEOUT: u64 = 10;

/// Bit length of a freshly generated RSA key pair.
pub const RSA_KEY_BIT_LEN: u32 = 3072;

/// Numeric protocol error codes carried by `Packet::ErrCode`.
pub const ERR_LOGIN_INVALID: u8 = 0;

pub const ERR_LOGIN_BANNED: u8 = 1;

pub const ERR_GROUP_INVALID_POS: u8 = 2;

pub const ERR_GROUP_LOCKED_NAME: u8 = 3;

pub const ERR_LIMIT_REACHED: u8 = 4;

pub const ERR_MISSING_PERMISSION: u8 = 5;

pub const ERR_NAME_TAKEN: u8 = 6;

pub const ERR_UNKNOWN_CHANNEL: u8 = 7;

pub const ERR_UNKNOWN_GROUP: u8 = 8;

} // verus!
