use vstd::prelude::*;

verus! {

use vstd::utf8::encode_utf8;

use crate::frame_header::FrameHeader;
use crate::frame_payload::{payload_kv_lookup, FramePayload, FramePayloadV};
use crate::support_version::{find_byte, trim_spaces, version_parse, SupportVersion};
use crate::typed_data::TypedDataV;
use crate::varint_string::slice_u8_eq;

/// The engine's side of the handshake: the fields of a HAPROXY-HELLO frame.
#[derive(Debug)]
pub struct HAProxyHelloFrame {
    pub payload: HAProxyHelloFramePayload,
}

/// The named fields a HAPROXY-HELLO carries in its KV-list.
#[derive(Clone, Debug)]
pub struct HAProxyHelloFramePayload {
    pub supported_versions: Vec<SupportVersion>,
    pub max_frame_size: u32,
    pub capabilities: Vec<HAProxyHelloFrameCapability>,
    pub healthcheck: Option<bool>,
    pub engine_id: Option<String>,
}

/// The mathematical shape of a parsed HAPROXY-HELLO.
pub struct HAProxyHelloV {
    pub supported_versions: Seq<SupportVersion>,
    pub max_frame_size: u32,
    pub capabilities: Seq<HAProxyHelloFrameCapability>,
    pub healthcheck: Option<bool>,
    pub engine_id: Option<Seq<char>>,
}

impl View for HAProxyHelloFrame {
    type V = HAProxyHelloV;

    open spec fn view(&self) -> HAProxyHelloV {
        HAProxyHelloV {
            supported_versions: self.payload.supported_versions@,
            max_frame_size: self.payload.max_frame_size,
            capabilities: self.payload.capabilities@,
            healthcheck: self.payload.healthcheck,
            engine_id: match self.payload.engine_id {
                Some(ref s) => Some(s@),
                None => None,
            },
        }
    }
}

/// A capability the engine or the agent may announce.
#[derive(Clone, Copy, PartialEq, Eq, Structural, Debug)]
pub enum HAProxyHelloFrameCapability {
    Pipelining,
    Async,
    Fragmentation,
}

/// The canonical lowercase name of a capability.
pub open spec fn capability_chars(c: HAProxyHelloFrameCapability) -> Seq<char> {
    match c {
        HAProxyHelloFrameCapability::Pipelining => "pipelining"@,
        HAProxyHelloFrameCapability::Async => "async"@,
        HAProxyHelloFrameCapability::Fragmentation => "fragmentation"@,
    }
}

/// The capability a trimmed token names, if any.
pub open spec fn capability_of_token(b: Seq<u8>) -> Option<HAProxyHelloFrameCapability> {
    if b == encode_utf8("pipelining"@) {
        Some(HAProxyHelloFrameCapability::Pipelining)
    } else if b == encode_utf8("async"@) {
        Some(HAProxyHelloFrameCapability::Async)
    } else if b == encode_utf8("fragmentation"@) {
        Some(HAProxyHelloFrameCapability::Fragmentation)
    } else {
        None
    }
}

/// Parses a comma-separated, trimmed capability list; the empty string is
/// the empty list, and an unrecognized token fails.
pub open spec fn capabilities_parse(b: Seq<u8>) -> Option<Seq<HAProxyHelloFrameCapability>>
    decreases b.len(),
    via capabilities_parse_decreases
{
    if b.len() == 0 {
        Some(Seq::empty())
    } else {
        let d = find_byte(b, 0x2C);
        match capability_of_token(trim_spaces(b.take(d))) {
            None => None,
            Some(c) => if d >= b.len() {
                Some(seq![c])
            } else {
                match capabilities_parse(b.skip(d + 1)) {
                    None => None,
                    Some(tail) => Some(seq![c] + tail),
                }
            },
        }
    }
}

#[via_fn]
proof fn capabilities_parse_decreases(b: Seq<u8>) {
    crate::support_version::lemma_find_byte_in_range(b, 0x2C);
}

/// Parses a comma-separated version list; every token must parse and the
/// list cannot be empty (an empty string is one empty, failing token).
pub open spec fn versions_parse(b: Seq<u8>) -> Option<Seq<SupportVersion>>
    decreases b.len(),
    via versions_parse_decreases
{
    let d = find_byte(b, 0x2C);
    match version_parse(b.take(d)) {
        None => None,
        Some((major, minor, patch)) => {
            let v = SupportVersion { major, minor, patch };
            if d >= b.len() {
                Some(seq![v])
            } else {
                match versions_parse(b.skip(d + 1)) {
                    None => None,
                    Some(tail) => Some(seq![v] + tail),
                }
            }
        },
    }
}

#[via_fn]
proof fn versions_parse_decreases(b: Seq<u8>) {
    crate::support_version::lemma_find_byte_in_range(b, 0x2C);
}

/// The reason a HAPROXY-HELLO fails to validate.
#[derive(Clone, PartialEq, Debug)]
pub enum HAProxyHelloFrameParseError {
    FieldNotFound(String),
    FieldValueInvalid(String),
}

/// The mathematical shape of a HELLO validation error.
pub enum HelloParseErrV {
    FieldNotFound(Seq<char>),
    FieldValueInvalid(Seq<char>),
}

impl View for HAProxyHelloFrameParseError {
    type V = HelloParseErrV;

    open spec fn view(&self) -> HelloParseErrV {
        match self {
            HAProxyHelloFrameParseError::FieldNotFound(s) => HelloParseErrV::FieldNotFound(s@),
            HAProxyHelloFrameParseError::FieldValueInvalid(s) => HelloParseErrV::FieldValueInvalid(
                s@,
            ),
        }
    }
}

/// Validates a decoded frame as a HAPROXY-HELLO: the stream and frame
/// identifiers must be zero, and the required fields must be present and
/// well-typed in the KV-list.
pub open spec fn hello_parse(stream_id: u64, frame_id: u64, p: FramePayloadV) -> Result<
    HAProxyHelloV,
    HelloParseErrV,
> {
    if stream_id != 0 {
        Err(HelloParseErrV::FieldValueInvalid("stream-id"@))
    } else if frame_id != 0 {
        Err(HelloParseErrV::FieldValueInvalid("frame-id"@))
    } else {
        match payload_kv_lookup(p, "supported-versions"@) {
            None => Err(HelloParseErrV::FieldNotFound("supported-versions"@)),
            Some(sv) => match sv {
                TypedDataV::STRING(sv_chars) => match versions_parse(encode_utf8(sv_chars)) {
                    None => Err(HelloParseErrV::FieldValueInvalid("supported-versions"@)),
                    Some(versions) => match payload_kv_lookup(p, "max-frame-size"@) {
                        None => Err(HelloParseErrV::FieldNotFound("max-frame-size"@)),
                        Some(mfs) => match mfs {
                            TypedDataV::UINT32(max_frame_size) => match payload_kv_lookup(
                                p,
                                "capabilities"@,
                            ) {
                                None => Err(HelloParseErrV::FieldNotFound("capabilities"@)),
                                Some(cv) => match cv {
                                    TypedDataV::STRING(cap_chars) => match capabilities_parse(
                                        encode_utf8(cap_chars),
                                    ) {
                                        None => Err(
                                            HelloParseErrV::FieldValueInvalid("capabilities"@),
                                        ),
                                        Some(capabilities) => match payload_kv_lookup(
                                            p,
                                            "healthcheck"@,
                                        ) {
                                            Some(TypedDataV::BOOL(hc)) => hello_with_engine_id(
                                                p,
                                                versions,
                                                max_frame_size,
                                                capabilities,
                                                Some(hc),
                                            ),
                                            Some(_) => Err(
                                                HelloParseErrV::FieldValueInvalid("healthcheck"@),
                                            ),
                                            None => hello_with_engine_id(
                                                p,
                                                versions,
                                                max_frame_size,
                                                capabilities,
                                                None,
                                            ),
                                        },
                                    },
                                    _ => Err(HelloParseErrV::FieldValueInvalid("capabilities"@)),
                                },
                            },
                            _ => Err(HelloParseErrV::FieldValueInvalid("max-frame-size"@)),
                        },
                    },
                },
                _ => Err(HelloParseErrV::FieldValueInvalid("supported-versions"@)),
            },
        }
    }
}

/// The optional engine-id field, finishing a HELLO validation.
pub open spec fn hello_with_engine_id(
    p: FramePayloadV,
    supported_versions: Seq<SupportVersion>,
    max_frame_size: u32,
    capabilities: Seq<HAProxyHelloFrameCapability>,
    healthcheck: Option<bool>,
) -> Result<HAProxyHelloV, HelloParseErrV> {
    match payload_kv_lookup(p, "engine-id"@) {
        Some(TypedDataV::STRING(eid)) => Ok(
            HAProxyHelloV {
                supported_versions,
                max_frame_size,
                capabilities,
                healthcheck,
                engine_id: Some(eid),
            },
        ),
        Some(_) => Err(HelloParseErrV::FieldValueInvalid("engine-id"@)),
        None => Ok(
            HAProxyHelloV {
                supported_versions,
                max_frame_size,
                capabilities,
                healthcheck,
                engine_id: None,
            },
        ),
    }
}

/// The capability a byte slice names after trimming, as executable code.
fn capability_of_token_exec(b: &[u8]) -> (r: Option<HAProxyHelloFrameCapability>)
    ensures
        r == capability_of_token(b@),
{
    if slice_u8_eq(b, "pipelining".as_bytes()) {
        Some(HAProxyHelloFrameCapability::Pipelining)
    } else if slice_u8_eq(b, "async".as_bytes()) {
        Some(HAProxyHelloFrameCapability::Async)
    } else if slice_u8_eq(b, "fragmentation".as_bytes()) {
        Some(HAProxyHelloFrameCapability::Fragmentation)
    } else {
        None
    }
}

/// Parses a comma-separated capability list, as executable code.
fn capabilities_parse_exec(b: &[u8]) -> (r: Option<Vec<HAProxyHelloFrameCapability>>)
    ensures
        match capabilities_parse(b@) {
            Some(cs) => r matches Some(v) && v@ == cs,
            None => r is None,
        },
    decreases b@.len(),
{
    if b.len() == 0 {
        let empty: Vec<HAProxyHelloFrameCapability> = Vec::new();
        assert(empty@ =~= Seq::<HAProxyHelloFrameCapability>::empty());
        return Some(empty);
    }
    let d = crate::support_version::find_byte_exec(b, 0x2C);
    let token = crate::support_version::trim_slice(vstd::slice::slice_subrange(b, 0, d));
    assert(token@ == trim_spaces(b@.take(d as int)));
    let c = match capability_of_token_exec(token) {
        Some(c) => c,
        None => {
            return None;
        },
    };
    if d >= b.len() {
        let mut v: Vec<HAProxyHelloFrameCapability> = Vec::new();
        v.push(c);
        assert(v@ =~= seq![c]);
        Some(v)
    } else {
        let rest = vstd::slice::slice_subrange(b, d + 1, b.len());
        assert(rest@ =~= b@.skip(d + 1));
        match capabilities_parse_exec(rest) {
            Some(tail) => {
                let mut v: Vec<HAProxyHelloFrameCapability> = Vec::new();
                v.push(c);
                let mut tail = tail;
                v.append(&mut tail);
                proof {
                    let spec_tail = capabilities_parse(b@.skip(d + 1)).unwrap();
                    assert(v@ =~= seq![c] + spec_tail);
                }
                Some(v)
            },
            None => None,
        }
    }
}

/// Parses a comma-separated version list, as executable code.
fn versions_parse_exec(b: &[u8]) -> (r: Option<Vec<SupportVersion>>)
    ensures
        match versions_parse(b@) {
            Some(vs) => r matches Some(v) && v@ == vs,
            None => r is None,
        },
    decreases b@.len(),
{
    let d = crate::support_version::find_byte_exec(b, 0x2C);
    let head = match SupportVersion::parse_bytes(vstd::slice::slice_subrange(b, 0, d)) {
        Some(v) => v,
        None => {
            return None;
        },
    };
    if d >= b.len() {
        let mut v: Vec<SupportVersion> = Vec::new();
        v.push(head);
        assert(v@ =~= seq![head]);
        Some(v)
    } else {
        let rest = vstd::slice::slice_subrange(b, d + 1, b.len());
        assert(rest@ =~= b@.skip(d + 1));
        match versions_parse_exec(rest) {
            Some(tail) => {
                let mut v: Vec<SupportVersion> = Vec::new();
                v.push(head);
                let mut tail = tail;
                v.append(&mut tail);
                proof {
                    let spec_tail = versions_parse(b@.skip(d + 1)).unwrap();
                    assert(v@ =~= seq![head] + spec_tail);
                }
                Some(v)
            },
            None => None,
        }
    }
}

impl HAProxyHelloFrame {
    /// Validates a decoded header and payload as a HAPROXY-HELLO.
    pub fn try_from(t: (FrameHeader, FramePayload)) -> (r: Result<
        HAProxyHelloFrame,
        HAProxyHelloFrameParseError,
    >)
        ensures
            match r {
                Ok(f) => hello_parse(t.0.stream_id@, t.0.frame_id@, t.1@) == Ok::<_, HelloParseErrV>(f@),
                Err(e) => hello_parse(t.0.stream_id@, t.0.frame_id@, t.1@) == Err::<HAProxyHelloV, _>(e@),
            },
    {
        let (header, payload) = t;
        if header.stream_id.u64_val() != 0 {
            return Err(
                HAProxyHelloFrameParseError::FieldValueInvalid("stream-id".to_owned()),
            );
        }
        if header.frame_id.u64_val() != 0 {
            return Err(HAProxyHelloFrameParseError::FieldValueInvalid("frame-id".to_owned()));
        }
        let sv = match payload.get_kv_list_value("supported-versions") {
            Some(v) => v,
            None => {
                return Err(
                    HAProxyHelloFrameParseError::FieldNotFound("supported-versions".to_owned()),
                );
            },
        };
        let sv_str = match sv.get_string() {
            Some(s) => s,
            None => {
                return Err(
                    HAProxyHelloFrameParseError::FieldValueInvalid(
                        "supported-versions".to_owned(),
                    ),
                );
            },
        };
        let supported_versions = match versions_parse_exec(sv_str.val().as_bytes()) {
            Some(v) => v,
            None => {
                return Err(
                    HAProxyHelloFrameParseError::FieldValueInvalid(
                        "supported-versions".to_owned(),
                    ),
                );
            },
        };
        let mfs = match payload.get_kv_list_value("max-frame-size") {
            Some(v) => v,
            None => {
                return Err(
                    HAProxyHelloFrameParseError::FieldNotFound("max-frame-size".to_owned()),
                );
            },
        };
        let max_frame_size = match mfs.get_u32() {
            Some(v) => *v,
            None => {
                return Err(
                    HAProxyHelloFrameParseError::FieldValueInvalid("max-frame-size".to_owned()),
                );
            },
        };
        let cv = match payload.get_kv_list_value("capabilities") {
            Some(v) => v,
            None => {
                return Err(
                    HAProxyHelloFrameParseError::FieldNotFound("capabilities".to_owned()),
                );
            },
        };
        let cv_str = match cv.get_string() {
            Some(s) => s,
            None => {
                return Err(
                    HAProxyHelloFrameParseError::FieldValueInvalid("capabilities".to_owned()),
                );
            },
        };
        let capabilities = match capabilities_parse_exec(cv_str.val().as_bytes()) {
            Some(v) => v,
            None => {
                return Err(
                    HAProxyHelloFrameParseError::FieldValueInvalid("capabilities".to_owned()),
                );
            },
        };
        let healthcheck = match payload.get_kv_list_value("healthcheck") {
            Some(v) => match v.get_bool() {
                Some(b) => Some(*b),
                None => {
                    return Err(
                        HAProxyHelloFrameParseError::FieldValueInvalid("healthcheck".to_owned()),
                    );
                },
            },
            None => None,
        };
        let engine_id = match payload.get_kv_list_value("engine-id") {
            Some(v) => match v.get_string() {
                Some(s) => Some(s.val().to_owned()),
                None => {
                    return Err(
                        HAProxyHelloFrameParseError::FieldValueInvalid("engine-id".to_owned()),
                    );
                },
            },
            None => None,
        };
        Ok(
            HAProxyHelloFrame {
                payload: HAProxyHelloFramePayload {
                    supported_versions,
                    max_frame_size,
                    capabilities,
                    healthcheck,
                    engine_id,
                },
            },
        )
    }
}

} // verus!
