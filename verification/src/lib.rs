//! An agent-side implementation of the Stream Processing Offload Protocol
//! (SPOP): the wire codec for its data model (variable-width integers,
//! length-prefixed strings and blobs, typed values), the frame grammar, and
//! the per-connection reassembly and dispatch state machine that drives the
//! HELLO -> NOTIFY/ACK -> DISCONNECT conversation.

pub mod ack_frame;
pub mod action;
pub mod agent_disconnect_frame;
pub mod agent_hello_frame;
pub mod frame;
pub mod frame_codec;
pub mod frame_error;
pub mod frame_flags;
pub mod frame_header;
pub mod frame_payload;
pub mod frame_storage;
pub mod frame_type;
pub mod haproxy_disconnect_frame;
pub mod haproxy_hello_frame;
pub mod nb_args;
pub mod notify_frame;
pub mod support_version;
pub mod typed_data;
pub mod varint;
pub mod varint_binary;
pub mod varint_string;

pub use ack_frame::{AckFrame, AckFramePayload};
pub use action::{Action, ActionParseError, ActionType, ActionVarScope};
pub use agent_disconnect_frame::{AgentDisconnectFrame, AgentDisconnectFramePayload};
pub use agent_hello_frame::{AgentHelloFrame, AgentHelloFramePayload};
pub use frame::Frame;
pub use frame_codec::FrameCodec;
pub use frame_error::FrameKnownError;
pub use frame_flags::{FrameFlags, FrameFlagsParseError};
pub use frame_header::{FrameHeader, FrameHeaderParseError};
pub use frame_payload::{FramePayload, FramePayloadParseError, FramePayloadType, Message};
pub use frame_storage::{FrameStorage, FrameStorageParseError};
pub use frame_type::{FrameType, FrameTypeParseError};
pub use haproxy_disconnect_frame::{HAProxyDisconnectFrame, HAProxyDisconnectFrameParseError};
pub use haproxy_hello_frame::{HAProxyHelloFrame, HAProxyHelloFrameCapability, HAProxyHelloFrameParseError};
pub use nb_args::{NBArgs, NBArgsParseError};
pub use notify_frame::{NotifyFrame, NotifyFramePayload, NotifyFrameParseError};
pub use support_version::SupportVersion;
pub use typed_data::{TypedData, TypedDataParseError};
pub use varint::{Varint, VarintParseError};
pub use varint_binary::{VarintBinary, VarintBinaryParseError};
pub use varint_string::{VarintString, VarintStringParseError};
