use vstd::prelude::*;

verus! {

use crate::frame_flags::FrameFlags;
use crate::frame_header::FrameHeader;
use crate::frame_payload::{messages_view, FramePayload, FramePayloadV, Message, MessageV};
use crate::varint::Varint;

/// An inbound NOTIFY frame: the per-request messages the engine offloads,
/// with the identifiers its ACK must mirror.
#[derive(Debug)]
pub struct NotifyFrame {
    pub flags: FrameFlags,
    pub stream_id: Varint,
    pub frame_id: Varint,
    pub payload: NotifyFramePayload,
}

/// The messages of a NOTIFY payload.
#[derive(Debug)]
pub struct NotifyFramePayload {
    pub messages: Vec<Message>,
}

/// The mathematical shape of a validated NOTIFY.
pub struct NotifyV {
    pub flags: u32,
    pub stream_id: u64,
    pub frame_id: u64,
    pub messages: Seq<MessageV>,
}

impl View for NotifyFrame {
    type V = NotifyV;

    open spec fn view(&self) -> NotifyV {
        NotifyV {
            flags: self.flags@,
            stream_id: self.stream_id@,
            frame_id: self.frame_id@,
            messages: messages_view(self.payload.messages@),
        }
    }
}

/// The reason a NOTIFY fails to validate.
#[derive(Clone, Copy, PartialEq, Eq, Structural, Debug)]
#[allow(non_camel_case_types)]
pub enum NotifyFrameParseError {
    /// NOTIFY requires a non-zero frame identifier.
    Invalid_FRAME_ID,
    /// The payload does not carry a list of messages.
    Invalid_Payload,
}

/// Validates a decoded frame as a NOTIFY: the frame identifier must be
/// non-zero and the payload a list of messages.
pub open spec fn notify_parse(
    flags: u32,
    stream_id: u64,
    frame_id: u64,
    p: FramePayloadV,
) -> Result<NotifyV, NotifyFrameParseError> {
    if frame_id == 0 {
        Err(NotifyFrameParseError::Invalid_FRAME_ID)
    } else {
        match p {
            FramePayloadV::LIST_OF_MESSAGES(messages) => Ok(
                NotifyV { flags, stream_id, frame_id, messages },
            ),
            _ => Err(NotifyFrameParseError::Invalid_Payload),
        }
    }
}

impl NotifyFrame {
    /// Validates a decoded header and payload as a NOTIFY.
    pub fn try_from(t: (FrameHeader, FramePayload)) -> (r: Result<
        NotifyFrame,
        NotifyFrameParseError,
    >)
        ensures
            match r {
                Ok(f) => notify_parse(t.0.flags@, t.0.stream_id@, t.0.frame_id@, t.1@) == Ok::<
                    _,
                    NotifyFrameParseError,
                >(f@),
                Err(e) => notify_parse(t.0.flags@, t.0.stream_id@, t.0.frame_id@, t.1@) == Err::<
                    NotifyV,
                    _,
                >(e),
            },
    {
        let (header, payload) = t;
        if header.frame_id.u64_val() == 0 {
            return Err(NotifyFrameParseError::Invalid_FRAME_ID);
        }
        let messages = match payload {
            FramePayload::LIST_OF_MESSAGES(messages) => messages,
            _ => {
                return Err(NotifyFrameParseError::Invalid_Payload);
            },
        };
        Ok(
            NotifyFrame {
                flags: header.flags,
                stream_id: header.stream_id,
                frame_id: header.frame_id,
                payload: NotifyFramePayload { messages },
            },
        )
    }
}

} // verus!
