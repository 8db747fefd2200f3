//! Client-side engine for a live-room danmaku broadcast protocol: the frame
//! codec, expansion of compressed batches, classification of room commands
//! into events, and the heartbeat schedule of a session.
//!
//! The engine does no I/O. A session opens the transport, sends the join
//! frame that `encode` builds around the serialised `Obj`, runs `Heartbeat`
//! on a timer, hands every inbound binary message to `parse_pkg`, turns each
//! command body into a `BMsg`, and classifies it with `BMessage::classify`.
pub mod batch;
pub mod display;
pub mod error;
pub mod frame;
pub mod json;
pub mod msgs;
pub mod session;
pub mod wire;

pub use batch::{expand, parse_pkg, MAX_NESTING};
pub use display::{is_shown, rank_banner, user_color, NameColour};
pub use error::DanmukuError;
pub use frame::{
    decode, decode_frames, encode, Frame, Header, Pkg, COMPRESSION_ZLIB, HEADER_LEN, MAX_BODY_LEN,
    OP_COMMAND, OP_HEARTBEAT, OP_HEARTBEAT_ACK, OP_JOIN, OP_JOIN_ACK,
};
pub use json::Json;
pub use msgs::{BMessage, BMsg, Danmaku, Gift, SuperChat, UserInfo};
pub use session::{
    Heartbeat, HeartbeatAction, Obj, Room, HEARTBEAT_PERIOD_SECS, LEGACY_HEARTBEAT_PERIOD_SECS,
};
