use vstd::prelude::*;

verus! {

use crate::frame_flags::FrameFlags;
use crate::frame_payload::{FramePayload, FramePayloadV};
use crate::typed_data::TypedDataV;
use crate::frame_storage::{FrameStorage, FrameStorageV};
use crate::frame_type::FrameType;
use crate::haproxy_hello_frame::{capability_chars, HAProxyHelloFrameCapability,
    HAProxyHelloFramePayload};
use crate::support_version::{version_chars, SupportVersion};
use crate::typed_data::TypedData;
use crate::varint::Varint;
use crate::varint_string::VarintString;

/// The agent's reply to a HAPROXY-HELLO: the fields of an AGENT-HELLO frame.
#[derive(Debug)]
pub struct AgentHelloFrame {
    pub payload: AgentHelloFramePayload,
}

impl AgentHelloFrame {
    pub fn new(payload: AgentHelloFramePayload) -> (r: Self)
        ensures
            r.payload == payload,
    {
        Self { payload }
    }
}

/// The named fields an AGENT-HELLO carries in its KV-list.
#[derive(Debug)]
pub struct AgentHelloFramePayload {
    pub version: SupportVersion,
    pub max_frame_size: u32,
    pub capabilities: Vec<HAProxyHelloFrameCapability>,
}

/// The comma-joined names of a capability list.
pub open spec fn capabilities_chars(cs: Seq<HAProxyHelloFrameCapability>) -> Seq<char>
    decreases cs.len(),
{
    if cs.len() == 0 {
        Seq::empty()
    } else if cs.len() == 1 {
        capability_chars(cs[0])
    } else {
        capability_chars(cs[0]) + seq![','] + capabilities_chars(cs.skip(1))
    }
}

/// The version the agent itself speaks.
pub open spec fn agent_version() -> SupportVersion {
    SupportVersion { major: 2, minor: 0, patch: 0 }
}

/// The highest of the engine's versions that the agent supports, i.e. that
/// is no newer than the agent's own version.
pub open spec fn best_version(vs: Seq<SupportVersion>) -> Option<SupportVersion>
    decreases vs.len(),
{
    if vs.len() == 0 {
        None
    } else {
        let rest = best_version(vs.skip(1));
        let head = vs[0];
        if !version_le(head, agent_version()) {
            rest
        } else {
            match rest {
                None => Some(head),
                Some(b) => if version_le(b, head) {
                    Some(head)
                } else {
                    Some(b)
                },
            }
        }
    }
}

/// Lexicographic order on (major, minor, patch).
pub open spec fn version_le(a: SupportVersion, b: SupportVersion) -> bool {
    if a.major != b.major {
        a.major < b.major
    } else if a.minor != b.minor {
        a.minor < b.minor
    } else {
        a.patch <= b.patch
    }
}

/// Whether `a` is no newer than `b`, as executable code.
pub fn version_le_exec(a: &SupportVersion, b: &SupportVersion) -> (r: bool)
    ensures
        r == version_le(*a, *b),
{
    if a.major != b.major {
        a.major < b.major
    } else if a.minor != b.minor {
        a.minor < b.minor
    } else {
        a.patch <= b.patch
    }
}

/// Picks the highest supported version from the engine's list, as
/// executable code.
pub fn best_version_exec(vs: &Vec<SupportVersion>) -> (r: Option<SupportVersion>)
    ensures
        r == best_version(vs@),
{
    let agent = SupportVersion { major: 2, minor: 0, patch: 0 };
    let mut best: Option<SupportVersion> = None;
    let n = vs.len();
    let mut i: usize = n;
    proof {
        assert(vs@.skip(n as int) =~= Seq::<SupportVersion>::empty());
    }
    while i > 0
        invariant
            0 <= i <= n,
            n == vs@.len(),
            agent == agent_version(),
            best == best_version(vs@.skip(i as int)),
        decreases i,
    {
        i = i - 1;
        let head = vs[i];
        proof {
            assert(vs@.skip(i as int)[0] == vs@[i as int]);
            assert(vs@.skip(i as int).skip(1) =~= vs@.skip(i + 1));
        }
        if version_le_exec(&head, &agent) {
            best = match best {
                None => Some(head),
                Some(b) => if version_le_exec(&b, &head) {
                    Some(head)
                } else {
                    Some(b)
                },
            };
        }
    }
    proof {
        assert(vs@.skip(0) =~= vs@);
    }
    best
}

impl AgentHelloFramePayload {
    /// Fields for the agent's reply: the chosen version, the negotiated
    /// maximum frame size with its floor of 256, and the announced
    /// capabilities.
    pub fn new(
        version: SupportVersion,
        max_frame_size: u32,
        capabilities: Vec<HAProxyHelloFrameCapability>,
    ) -> (r: Self)
        ensures
            r.version == version,
            r.max_frame_size == (if max_frame_size >= 256 {
                max_frame_size
            } else {
                256u32
            }),
            r.capabilities == capabilities,
    {
        let max_frame_size = if max_frame_size >= 256 {
            max_frame_size
        } else {
            256
        };
        Self { version, max_frame_size, capabilities }
    }

    /// The agent's reply to a validated engine HELLO: the highest supported
    /// version among the engine's, if there is one, and the engine's frame
    /// size limit (floored), echoing the engine's capabilities.
    pub fn from_haproxy_hello_frame_payload(
        haproxy_hello_frame_payload: HAProxyHelloFramePayload,
    ) -> (r: Option<Self>)
        ensures
            match best_version(haproxy_hello_frame_payload.supported_versions@) {
                None => r is None,
                Some(v) => r matches Some(p) && p.version == v && p.max_frame_size == (
                if haproxy_hello_frame_payload.max_frame_size >= 256 {
                    haproxy_hello_frame_payload.max_frame_size
                } else {
                    256u32
                }) && p.capabilities@ == haproxy_hello_frame_payload.capabilities@,
            },
    {
        let version = match best_version_exec(&haproxy_hello_frame_payload.supported_versions) {
            Some(v) => v,
            None => {
                return None;
            },
        };
        Some(
            Self::new(
                version,
                haproxy_hello_frame_payload.max_frame_size,
                haproxy_hello_frame_payload.capabilities,
            ),
        )
    }
}

/// The exact frame an AGENT-HELLO reply stands for: FIN set, both
/// identifiers zero, and the three fields in order.
pub open spec fn agent_hello_frame_v(
    version: SupportVersion,
    max_frame_size: u32,
    capabilities: Seq<HAProxyHelloFrameCapability>,
) -> FrameStorageV {
    FrameStorageV {
        frame_type: FrameType::AGENT_HELLO,
        flags: 1,
        stream_id: 0,
        frame_id: 0,
        payload: FramePayloadV::KV_LIST(
            seq![
                ("version"@, TypedDataV::STRING(version_chars(version.major, version.minor))),
                ("max-frame-size"@, TypedDataV::UINT32(max_frame_size)),
                ("capabilities"@, TypedDataV::STRING(capabilities_chars(capabilities))),
            ],
        ),
    }
}

/// Joins capability names with commas, as executable code.
fn capabilities_string(cs: &[HAProxyHelloFrameCapability]) -> (r: String)
    ensures
        r@ == capabilities_chars(cs@),
    decreases cs@.len(),
{
    if cs.len() == 0 {
        let r = "".to_owned();
        proof {
            reveal_strlit("");
            assert(r@ =~= capabilities_chars(cs@));
        }
        r
    } else {
        let name = match cs[0] {
            HAProxyHelloFrameCapability::Pipelining => "pipelining",
            HAProxyHelloFrameCapability::Async => "async",
            HAProxyHelloFrameCapability::Fragmentation => "fragmentation",
        };
        if cs.len() == 1 {
            name.to_owned()
        } else {
            let mut out = name.to_owned();
            proof {
                reveal_strlit(",");
            }
            out.append(",");
            let rest = capabilities_string(vstd::slice::slice_subrange(cs, 1, cs.len()));
            out.append(rest.as_str());
            proof {
                assert(cs@.subrange(1, cs@.len() as int) =~= cs@.skip(1));
                assert(out@ =~= capabilities_chars(cs@));
            }
            out
        }
    }
}

impl AgentHelloFrame {
    /// The whole frame this reply serializes to.
    pub fn to_frame_storage(&self) -> (r: FrameStorage)
        ensures
            r@ == agent_hello_frame_v(
                self.payload.version,
                self.payload.max_frame_size,
                self.payload.capabilities@,
            ),
    {
        let version_string = self.payload.version.to_string();
        let caps_string = capabilities_string(self.payload.capabilities.as_slice());
        let mut kv: Vec<(VarintString, TypedData)> = Vec::new();
        kv.push(
            (
                VarintString::new("version"),
                TypedData::STRING(VarintString(version_string)),
            ),
        );
        kv.push(
            (VarintString::new("max-frame-size"), TypedData::UINT32(self.payload.max_frame_size)),
        );
        kv.push(
            (
                VarintString::new("capabilities"),
                TypedData::STRING(VarintString(caps_string)),
            ),
        );
        let r = FrameStorage {
            frame_type: FrameType::AGENT_HELLO,
            flags: FrameFlags(1),
            stream_id: Varint(0),
            frame_id: Varint(0),
            payload: FramePayload::KV_LIST(kv),
        };
        proof {
            assert(crate::frame_payload::kv_pairs_view(r.payload->KV_LIST_0@) =~= agent_hello_frame_v(
                self.payload.version,
                self.payload.max_frame_size,
                self.payload.capabilities@,
            ).payload->KV_LIST_0);
        }
        r
    }
}

} // verus!
