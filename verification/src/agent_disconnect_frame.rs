use vstd::prelude::*;

verus! {

use crate::frame_error::{frame_known_error_code, frame_known_error_message, FrameKnownError};
use crate::frame_flags::FrameFlags;
use crate::frame_payload::{FramePayload, FramePayloadV};
use crate::typed_data::TypedDataV;
use crate::frame_storage::{FrameStorage, FrameStorageV};
use crate::frame_type::FrameType;
use crate::typed_data::TypedData;
use crate::varint::Varint;
use crate::varint_string::VarintString;

/// The agent's goodbye: the fields of an AGENT-DISCONNECT frame.
#[derive(Debug)]
pub struct AgentDisconnectFrame {
    pub payload: AgentDisconnectFramePayload,
}

impl AgentDisconnectFrame {
    pub fn new(payload: AgentDisconnectFramePayload) -> (r: Self)
        ensures
            r.payload == payload,
    {
        Self { payload }
    }
}

/// The named fields an AGENT-DISCONNECT carries in its KV-list.
#[derive(Debug)]
pub struct AgentDisconnectFramePayload {
    pub status_code: u32,
    pub message: String,
}

impl AgentDisconnectFramePayload {
    pub fn new(status_code: u32, message: String) -> (r: Self)
        ensures
            r.status_code == status_code,
            r.message@ == message@,
    {
        Self { status_code, message }
    }

    /// The payload a well-known protocol error maps to: its code and its
    /// canonical message.
    pub fn from_frame_known_error(frame_known_error: FrameKnownError) -> (r: Self)
        ensures
            r.status_code == frame_known_error_code(frame_known_error),
            r.message@ == frame_known_error_message(frame_known_error),
    {
        Self {
            status_code: frame_known_error.code(),
            message: frame_known_error.message(),
        }
    }
}

/// The exact frame an AGENT-DISCONNECT stands for: FIN set, both
/// identifiers zero, the status code and the message.
pub open spec fn agent_disconnect_frame_v(status_code: u32, message: Seq<char>) -> FrameStorageV {
    FrameStorageV {
        frame_type: FrameType::AGENT_DISCONNECT,
        flags: 1,
        stream_id: 0,
        frame_id: 0,
        payload: FramePayloadV::KV_LIST(
            seq![
                ("status-code"@, TypedDataV::UINT32(status_code)),
                ("message"@, TypedDataV::STRING(message)),
            ],
        ),
    }
}

/// The disconnect frame that reports a well-known error.
pub open spec fn known_error_frame_v(e: FrameKnownError) -> FrameStorageV {
    agent_disconnect_frame_v(frame_known_error_code(e), frame_known_error_message(e))
}

impl AgentDisconnectFrame {
    /// The whole frame this goodbye serializes to.
    pub fn to_frame_storage(&self) -> (r: FrameStorage)
        ensures
            r@ == agent_disconnect_frame_v(self.payload.status_code, self.payload.message@),
    {
        let mut kv: Vec<(VarintString, TypedData)> = Vec::new();
        kv.push(
            (VarintString::new("status-code"), TypedData::UINT32(self.payload.status_code)),
        );
        kv.push(
            (
                VarintString::new("message"),
                TypedData::STRING(VarintString(self.payload.message.clone())),
            ),
        );
        let r = FrameStorage {
            frame_type: FrameType::AGENT_DISCONNECT,
            flags: FrameFlags(1),
            stream_id: Varint(0),
            frame_id: Varint(0),
            payload: FramePayload::KV_LIST(kv),
        };
        proof {
            assert(crate::frame_payload::kv_pairs_view(r.payload->KV_LIST_0@)
                =~= agent_disconnect_frame_v(
                self.payload.status_code,
                self.payload.message@,
            ).payload->KV_LIST_0);
        }
        r
    }
}

} // verus!
