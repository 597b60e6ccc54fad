use vstd::prelude::*;

verus! {

use crate::action::Action;
use crate::frame_flags::FrameFlags;
use crate::action::ActionV;
use crate::frame_payload::{actions_view, FramePayload, FramePayloadV};
use crate::frame_storage::{FrameStorage, FrameStorageV};
use crate::frame_type::FrameType;
use crate::varint::Varint;

/// The agent's answer to a NOTIFY: an ACK frame mirroring the NOTIFY's
/// stream and frame identifiers and carrying the actions to apply.
#[derive(Debug)]
pub struct AckFrame {
    pub stream_id: Varint,
    pub frame_id: Varint,
    pub payload: AckFramePayload,
}

impl AckFrame {
    pub fn new(stream_id: Varint, frame_id: Varint, payload: AckFramePayload) -> (r: Self)
        ensures
            r.stream_id == stream_id,
            r.frame_id == frame_id,
            r.payload == payload,
    {
        Self { stream_id, frame_id, payload }
    }
}

/// The actions of an ACK payload.
#[derive(Debug)]
pub struct AckFramePayload {
    pub actions: Vec<Action>,
}

impl AckFramePayload {
    pub fn new(actions: Vec<Action>) -> (r: Self)
        ensures
            r.actions == actions,
    {
        Self { actions }
    }
}

/// The exact frame an ACK stands for: FIN set, the mirrored identifiers,
/// and the action list.
pub open spec fn ack_frame_v(stream_id: u64, frame_id: u64, actions: Seq<ActionV>) -> FrameStorageV {
    FrameStorageV {
        frame_type: FrameType::ACK,
        flags: 1,
        stream_id,
        frame_id,
        payload: FramePayloadV::LIST_OF_ACTIONS(actions),
    }
}

impl AckFrame {
    /// The whole frame this answer serializes to.
    pub fn to_frame_storage(self) -> (r: FrameStorage)
        ensures
            r@ == ack_frame_v(self.stream_id@, self.frame_id@, actions_view(self.payload.actions@)),
    {
        FrameStorage {
            frame_type: FrameType::ACK,
            flags: FrameFlags(1),
            stream_id: self.stream_id,
            frame_id: self.frame_id,
            payload: FramePayload::LIST_OF_ACTIONS(self.payload.actions),
        }
    }
}

} // verus!
