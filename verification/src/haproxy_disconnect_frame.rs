use vstd::prelude::*;

verus! {

use crate::frame_header::FrameHeader;
use crate::frame_payload::{payload_kv_lookup, FramePayload, FramePayloadV};
use crate::typed_data::TypedDataV;

/// The engine's request to end the conversation: the fields of a
/// HAPROXY-DISCONNECT frame.
#[derive(Debug)]
pub struct HAProxyDisconnectFrame {
    pub payload: HAProxyDisconnectFramePayload,
}

/// The named fields a HAPROXY-DISCONNECT carries in its KV-list.
#[derive(Clone, Debug)]
pub struct HAProxyDisconnectFramePayload {
    pub status_code: u32,
    pub message: String,
}

/// The mathematical shape of a parsed HAPROXY-DISCONNECT.
pub struct HAProxyDisconnectV {
    pub status_code: u32,
    pub message: Seq<char>,
}

impl View for HAProxyDisconnectFrame {
    type V = HAProxyDisconnectV;

    open spec fn view(&self) -> HAProxyDisconnectV {
        HAProxyDisconnectV {
            status_code: self.payload.status_code,
            message: self.payload.message@,
        }
    }
}

/// The reason a HAPROXY-DISCONNECT fails to validate.
#[derive(Clone, PartialEq, Debug)]
#[allow(non_camel_case_types)]
pub enum HAProxyDisconnectFrameParseError {
    Invalid_STREAM_ID,
    Invalid_FRAME_ID,
    FieldNotFound(String),
    FieldValueInvalid(String),
}

/// The mathematical shape of a DISCONNECT validation error.
#[allow(non_camel_case_types)]
pub enum DisconnectParseErrV {
    Invalid_STREAM_ID,
    Invalid_FRAME_ID,
    FieldNotFound(Seq<char>),
    FieldValueInvalid(Seq<char>),
}

impl View for HAProxyDisconnectFrameParseError {
    type V = DisconnectParseErrV;

    open spec fn view(&self) -> DisconnectParseErrV {
        match self {
            HAProxyDisconnectFrameParseError::Invalid_STREAM_ID => DisconnectParseErrV::Invalid_STREAM_ID,
            HAProxyDisconnectFrameParseError::Invalid_FRAME_ID => DisconnectParseErrV::Invalid_FRAME_ID,
            HAProxyDisconnectFrameParseError::FieldNotFound(s) => DisconnectParseErrV::FieldNotFound(
                s@,
            ),
            HAProxyDisconnectFrameParseError::FieldValueInvalid(s) => DisconnectParseErrV::FieldValueInvalid(
                s@,
            ),
        }
    }
}

/// Validates a decoded frame as a HAPROXY-DISCONNECT: the stream and frame
/// identifiers must be zero and the status code and message present and
/// well-typed.
pub open spec fn disconnect_parse(stream_id: u64, frame_id: u64, p: FramePayloadV) -> Result<
    HAProxyDisconnectV,
    DisconnectParseErrV,
> {
    if stream_id != 0 {
        Err(DisconnectParseErrV::Invalid_STREAM_ID)
    } else if frame_id != 0 {
        Err(DisconnectParseErrV::Invalid_FRAME_ID)
    } else {
        match payload_kv_lookup(p, "status-code"@) {
            None => Err(DisconnectParseErrV::FieldNotFound("status-code"@)),
            Some(sc) => match sc {
                TypedDataV::UINT32(status_code) => match payload_kv_lookup(p, "message"@) {
                    None => Err(DisconnectParseErrV::FieldNotFound("message"@)),
                    Some(m) => match m {
                        TypedDataV::STRING(message) => Ok(
                            HAProxyDisconnectV { status_code, message },
                        ),
                        _ => Err(DisconnectParseErrV::FieldValueInvalid("message"@)),
                    },
                },
                _ => Err(DisconnectParseErrV::FieldValueInvalid("status-code"@)),
            },
        }
    }
}

impl HAProxyDisconnectFrame {
    /// Validates a decoded header and payload as a HAPROXY-DISCONNECT.
    pub fn try_from(t: (FrameHeader, FramePayload)) -> (r: Result<
        HAProxyDisconnectFrame,
        HAProxyDisconnectFrameParseError,
    >)
        ensures
            match r {
                Ok(f) => disconnect_parse(t.0.stream_id@, t.0.frame_id@, t.1@) == Ok::<
                    _,
                    DisconnectParseErrV,
                >(f@),
                Err(e) => disconnect_parse(t.0.stream_id@, t.0.frame_id@, t.1@) == Err::<
                    HAProxyDisconnectV,
                    _,
                >(e@),
            },
    {
        let (header, payload) = t;
        if header.stream_id.u64_val() != 0 {
            return Err(HAProxyDisconnectFrameParseError::Invalid_STREAM_ID);
        }
        if header.frame_id.u64_val() != 0 {
            return Err(HAProxyDisconnectFrameParseError::Invalid_FRAME_ID);
        }
        let sc = match payload.get_kv_list_value("status-code") {
            Some(v) => v,
            None => {
                return Err(
                    HAProxyDisconnectFrameParseError::FieldNotFound("status-code".to_owned()),
                );
            },
        };
        let status_code = match sc.get_u32() {
            Some(v) => *v,
            None => {
                return Err(
                    HAProxyDisconnectFrameParseError::FieldValueInvalid("status-code".to_owned()),
                );
            },
        };
        let m = match payload.get_kv_list_value("message") {
            Some(v) => v,
            None => {
                return Err(
                    HAProxyDisconnectFrameParseError::FieldNotFound("message".to_owned()),
                );
            },
        };
        let message = match m.get_string() {
            Some(s) => s.val().to_owned(),
            None => {
                return Err(
                    HAProxyDisconnectFrameParseError::FieldValueInvalid("message".to_owned()),
                );
            },
        };
        Ok(
            HAProxyDisconnectFrame {
                payload: HAProxyDisconnectFramePayload { status_code, message },
            },
        )
    }
}

} // verus!
