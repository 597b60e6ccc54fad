use vstd::prelude::*;

verus! {

use crate::ack_frame::ack_frame_v;
use crate::action::ActionV;
use crate::agent_disconnect_frame::{agent_disconnect_frame_v, known_error_frame_v};
use crate::agent_hello_frame::{agent_hello_frame_v, best_version};
use crate::frame_error::FrameKnownError;
use crate::frame_flags::{flags_is_abort, flags_is_fin};
use crate::frame_header::{frame_header_dec, FrameHeader};
use crate::frame_payload::{payload_dec, FramePayload, FramePayloadType};
use crate::frame_storage::{frame_storage_enc, FrameStorageV};
use crate::frame_type::FrameType;
use crate::haproxy_disconnect_frame::{disconnect_parse, HAProxyDisconnectFrame};
use crate::haproxy_hello_frame::{hello_parse, HAProxyHelloFrame, HAProxyHelloFrameCapability};
use crate::notify_frame::{notify_parse, NotifyFrame};

/// One reassembly slot: the accumulated bytes of a fragmented frame, keyed
/// by its stream and frame identifiers and remembering the first fragment's
/// type.
pub struct FrameSlot {
    pub stream_id: u64,
    pub frame_id: u64,
    pub frame_type: FrameType,
    pub buf: Vec<u8>,
}

/// The mathematical shape of a reassembly slot.
pub struct SlotV {
    pub stream_id: u64,
    pub frame_id: u64,
    pub frame_type: FrameType,
    pub buf: Seq<u8>,
}

impl View for FrameSlot {
    type V = SlotV;

    open spec fn view(&self) -> SlotV {
        SlotV {
            stream_id: self.stream_id,
            frame_id: self.frame_id,
            frame_type: self.frame_type,
            buf: self.buf@,
        }
    }
}

/// The per-connection core: the reassembly slots, the handshake flag, and
/// the frame-size bound negotiated by the handshake.
pub struct Frame {
    pub hello_done: bool,
    pub max_frame_size: u32,
    pub slots: Vec<FrameSlot>,
}

/// The mathematical shape of the per-connection state.
pub struct FrameM {
    pub hello_done: bool,
    pub max_frame_size: u32,
    pub slots: Seq<SlotV>,
}

impl View for Frame {
    type V = FrameM;

    open spec fn view(&self) -> FrameM {
        FrameM {
            hello_done: self.hello_done,
            max_frame_size: self.max_frame_size,
            slots: Seq::new(self.slots@.len(), |i: int| self.slots@[i]@),
        }
    }
}

/// The position of the slot keyed `(stream_id, frame_id)`, if one exists.
pub open spec fn slot_find(slots: Seq<SlotV>, stream_id: u64, frame_id: u64) -> Option<int>
    decreases slots.len(),
{
    if slots.len() == 0 {
        None
    } else if slots[0].stream_id == stream_id && slots[0].frame_id == frame_id {
        Some(0)
    } else {
        match slot_find(slots.skip(1), stream_id, frame_id) {
            None => None,
            Some(i) => Some(i + 1),
        }
    }
}

/// A found slot lies within the sequence and carries the key it was found
/// under.
pub proof fn lemma_slot_find_in_range(slots: Seq<SlotV>, stream_id: u64, frame_id: u64)
    ensures
        slot_find(slots, stream_id, frame_id) matches Some(i) ==> 0 <= i < slots.len()
            && slots[i].stream_id == stream_id && slots[i].frame_id == frame_id,
    decreases slots.len(),
{
    if slots.len() > 0 && !(slots[0].stream_id == stream_id && slots[0].frame_id == frame_id) {
        lemma_slot_find_in_range(slots.skip(1), stream_id, frame_id);
    }
}

/// The capabilities this agent announces.
pub open spec fn agent_capabilities() -> Seq<HAProxyHelloFrameCapability> {
    seq![
        HAProxyHelloFrameCapability::Pipelining,
        HAProxyHelloFrameCapability::Async,
        HAProxyHelloFrameCapability::Fragmentation,
    ]
}

/// The response, next state and close decision after a complete frame of
/// the given type has been reassembled: HELLO is answered with AGENT-HELLO
/// (or a DISCONNECT when invalid, unsupported or repeated), DISCONNECT is
/// echoed back, NOTIFY after the handshake is answered with an empty ACK
/// mirroring its identifiers, and anything else is a protocol violation.
#[verifier::opaque]
pub open spec fn dispatch_spec(
    m: FrameM,
    frame_type: FrameType,
    flags: u32,
    stream_id: u64,
    frame_id: u64,
    pb: Seq<u8>,
) -> (FrameM, Option<FrameStorageV>, bool) {
    if frame_type == FrameType::HAPROXY_HELLO {
        if m.hello_done {
            (m, Some(known_error_frame_v(FrameKnownError::invalid_frame_received)), true)
        } else {
            match payload_dec(pb, FramePayloadType::KV_LIST) {
                Err(_) => (
                    m,
                    Some(known_error_frame_v(FrameKnownError::invalid_frame_received)),
                    true,
                ),
                Ok(p) => match hello_parse(stream_id, frame_id, p) {
                    Err(_) => (
                        m,
                        Some(known_error_frame_v(FrameKnownError::invalid_frame_received)),
                        true,
                    ),
                    Ok(hello) => match best_version(hello.supported_versions) {
                        None => (
                            m,
                            Some(known_error_frame_v(FrameKnownError::unsupported_version)),
                            true,
                        ),
                        Some(version) => {
                            let mfs = if hello.max_frame_size >= 256 {
                                hello.max_frame_size
                            } else {
                                256u32
                            };
                            (
                                FrameM {
                                    hello_done: true,
                                    max_frame_size: mfs,
                                    slots: m.slots,
                                },
                                Some(agent_hello_frame_v(version, mfs, agent_capabilities())),
                                hello.healthcheck == Some(true),
                            )
                        },
                    },
                },
            }
        }
    } else if frame_type == FrameType::HAPROXY_DISCONNECT {
        match payload_dec(pb, FramePayloadType::KV_LIST) {
            Err(_) => (m, Some(known_error_frame_v(FrameKnownError::invalid_frame_received)), true),
            Ok(p) => match disconnect_parse(stream_id, frame_id, p) {
                Err(_) => (
                    m,
                    Some(known_error_frame_v(FrameKnownError::invalid_frame_received)),
                    true,
                ),
                Ok(d) => (m, Some(agent_disconnect_frame_v(d.status_code, d.message)), true),
            },
        }
    } else if frame_type == FrameType::NOTIFY {
        if !m.hello_done {
            (m, Some(known_error_frame_v(FrameKnownError::invalid_frame_received)), true)
        } else {
            match payload_dec(pb, FramePayloadType::LIST_OF_MESSAGES) {
                Err(_) => (
                    m,
                    Some(known_error_frame_v(FrameKnownError::invalid_frame_received)),
                    true,
                ),
                Ok(p) => match notify_parse(flags, stream_id, frame_id, p) {
                    Err(_) => (
                        m,
                        Some(known_error_frame_v(FrameKnownError::invalid_frame_received)),
                        true,
                    ),
                    Ok(nf) => (
                        m,
                        Some(ack_frame_v(stream_id, frame_id, Seq::<ActionV>::empty())),
                        false,
                    ),
                },
            }
        }
    } else {
        (m, Some(known_error_frame_v(FrameKnownError::invalid_frame_received)), true)
    }
}

/// Buffering of one non-FIN fragment: only fragmentable types with a
/// non-zero key are accepted, and a slot may never outgrow the negotiated
/// maximum frame size.
#[verifier::opaque]
pub open spec fn fragment_spec(m: FrameM, h: crate::frame_header::FrameHeaderV, rest: Seq<u8>) -> (
    FrameM,
    Option<FrameStorageV>,
    bool,
) {
    if h.stream_id == 0 && h.frame_id == 0 {
        (m, Some(known_error_frame_v(FrameKnownError::invalid_frame_received)), true)
    } else if h.frame_type != FrameType::NOTIFY && h.frame_type != FrameType::UNSET {
        (m, Some(known_error_frame_v(FrameKnownError::invalid_frame_received)), true)
    } else {
        match slot_find(m.slots, h.stream_id, h.frame_id) {
            Some(i) => {
                if m.slots[i].buf.len() + rest.len() > m.max_frame_size {
                    (
                        FrameM { slots: m.slots.remove(i), ..m },
                        Some(known_error_frame_v(FrameKnownError::frame_is_too_big)),
                        true,
                    )
                } else {
                    (
                        FrameM {
                            slots: m.slots.remove(i).push(
                                SlotV { buf: m.slots[i].buf + rest, ..m.slots[i] },
                            ),
                            ..m
                        },
                        None,
                        false,
                    )
                }
            },
            None => {
                if rest.len() > m.max_frame_size {
                    (m, Some(known_error_frame_v(FrameKnownError::frame_is_too_big)), true)
                } else {
                    (
                        FrameM {
                            slots: m.slots.push(
                                SlotV {
                                    stream_id: h.stream_id,
                                    frame_id: h.frame_id,
                                    frame_type: h.frame_type,
                                    buf: rest,
                                },
                            ),
                            ..m
                        },
                        None,
                        false,
                    )
                }
            },
        }
    }
}

/// Completion of a frame whose FIN bit is set: ABORT discards a buffered
/// slot silently; otherwise any buffered fragments are reassembled in front
/// of the remainder, under the stored type, and dispatched.
#[verifier::opaque]
pub open spec fn fin_spec(m: FrameM, h: crate::frame_header::FrameHeaderV, rest: Seq<u8>) -> (
    FrameM,
    Option<FrameStorageV>,
    bool,
) {
    match slot_find(m.slots, h.stream_id, h.frame_id) {
        Some(i) => {
            if flags_is_abort(h.flags) {
                (FrameM { slots: m.slots.remove(i), ..m }, None, false)
            } else if m.slots[i].buf.len() + rest.len() > m.max_frame_size {
                (
                    FrameM { slots: m.slots.remove(i), ..m },
                    Some(known_error_frame_v(FrameKnownError::frame_is_too_big)),
                    true,
                )
            } else {
                dispatch_spec(
                    FrameM { slots: m.slots.remove(i), ..m },
                    m.slots[i].frame_type,
                    h.flags,
                    h.stream_id,
                    h.frame_id,
                    m.slots[i].buf + rest,
                )
            }
        },
        None => dispatch_spec(m, h.frame_type, h.flags, h.stream_id, h.frame_id, rest),
    }
}

/// One step of the per-connection state machine on a length-stripped frame:
/// decode the header; buffer non-FIN fragments of fragmentable types within
/// the negotiated size bound; on FIN, honor ABORT, reassemble any buffered
/// fragments, and dispatch.
pub open spec fn handle_spec(m: FrameM, input: Seq<u8>) -> (FrameM, Option<FrameStorageV>, bool) {
    match frame_header_dec(input) {
        Err(_) => (m, Some(known_error_frame_v(FrameKnownError::invalid_frame_received)), true),
        Ok((h, n)) => {
            let rest = input.skip(n);
            if !flags_is_fin(h.flags) {
                fragment_spec(m, h, rest)
            } else {
                fin_spec(m, h, rest)
            }
        },
    }
}

impl Frame {
    /// A fresh connection: no fragments buffered, the handshake not yet
    /// done, and the size bound at its widest until the handshake narrows
    /// it.
    pub fn new() -> (r: Self)
        ensures
            r@.hello_done == false,
            r@.max_frame_size == u32::MAX,
            r@.slots == Seq::<SlotV>::empty(),
    {
        let r = Frame { hello_done: false, max_frame_size: u32::MAX, slots: Vec::new() };
        proof {
            assert(r@.slots =~= Seq::<SlotV>::empty());
        }
        r
    }

    /// The position of the slot keyed `(stream_id, frame_id)`, if any.
    fn find_slot(&self, stream_id: u64, frame_id: u64) -> (r: Option<usize>)
        ensures
            match r {
                Some(i) => slot_find(self@.slots, stream_id, frame_id) == Some(i as int) && i
                    < self@.slots.len(),
                None => slot_find(self@.slots, stream_id, frame_id) is None,
            },
    {
        let ghost sv = self@.slots;
        let n = self.slots.len();
        let mut i: usize = 0;
        while i < n
            invariant
                0 <= i <= n,
                n == self.slots@.len(),
                sv == self@.slots,
                sv.len() == n,
                forall|j: int| 0 <= j < i ==> !(#[trigger] sv[j].stream_id == stream_id
                    && sv[j].frame_id == frame_id),
            decreases n - i,
        {
            if self.slots[i].stream_id == stream_id && self.slots[i].frame_id == frame_id {
                proof {
                    lemma_slot_find_skip(sv, stream_id, frame_id, i as int);
                }
                return Some(i);
            }
            i = i + 1;
        }
        proof {
            lemma_slot_find_skip(sv, stream_id, frame_id, n as int);
        }
        None
    }

    /// Handles one length-stripped frame, returning the serialized response
    /// frame, if any, and whether the connection must close afterwards.
    /// Handles one length-stripped frame, returning the serialized response
    /// frame, if any, and whether the connection must close afterwards.
    pub fn handle(&mut self, bytes: &Vec<u8>) -> (r: (Option<Vec<u8>>, bool))
        ensures
            ({
                let (m2, resp, close) = handle_spec(old(self)@, bytes@);
                &&& final(self)@ == m2
                &&& close == r.1
                &&& match resp {
                    None => r.0 is None,
                    Some(fv) => r.0 matches Some(b) && b@ == frame_storage_enc(fv),
                }
            }),
    {
        assert(bytes@.skip(0) =~= bytes@);
        let (header, n) = match FrameHeader::decode(bytes.as_slice(), 0) {
            Ok(v) => v,
            Err(_) => {
                return (Some(known_error_response(FrameKnownError::invalid_frame_received)), true);
            },
        };
        if !header.flags.is_fin() {
            self.handle_fragment(header, bytes, n)
        } else {
            self.handle_fin(header, bytes, n)
        }
    }

    /// Buffers one non-FIN fragment.
    #[verifier::rlimit(100)]
    fn handle_fragment(&mut self, header: FrameHeader, bytes: &Vec<u8>, n: usize) -> (r: (
        Option<Vec<u8>>,
        bool,
    ))
        requires
            n <= bytes@.len(),
        ensures
            ({
                let (m2, resp, close) = fragment_spec(old(self)@, header@, bytes@.skip(n as int));
                &&& final(self)@ == m2
                &&& close == r.1
                &&& match resp {
                    None => r.0 is None,
                    Some(fv) => r.0 matches Some(b) && b@ == frame_storage_enc(fv),
                }
            }),
    {
        proof {
            reveal(fragment_spec);
        }
        let ghost m0 = self@;
        let ghost rest = bytes@.skip(n as int);
        let sid = header.stream_id.u64_val();
        let fid = header.frame_id.u64_val();
        let rest_len: usize = bytes.len() - n;
        if sid == 0 && fid == 0 {
            return (Some(known_error_response(FrameKnownError::invalid_frame_received)), true);
        }
        let fragmentable = match header.frame_type {
            FrameType::NOTIFY => true,
            FrameType::UNSET => true,
            _ => false,
        };
        if !fragmentable {
            return (Some(known_error_response(FrameKnownError::invalid_frame_received)), true);
        }
        match self.find_slot(sid, fid) {
            Some(i) => {
                proof {
                    lemma_slot_find_in_range(m0.slots, sid, fid);
                }
                if (rest_len as u64) > (self.max_frame_size as u64) || (self.slots[i].buf.len()
                    as u64) > (self.max_frame_size as u64) - (rest_len as u64) {
                    let slot = self.slots.remove(i);
                    proof {
                        assert(self@.slots =~= m0.slots.remove(i as int));
                    }
                    return (
                        (Some(known_error_response(FrameKnownError::frame_is_too_big)), true)
                    );
                }
                let mut slot = self.slots.remove(i);
                let mut tail = vstd::slice::slice_to_vec(
                    vstd::slice::slice_subrange(bytes.as_slice(), n, bytes.len()),
                );
                slot.buf.append(&mut tail);
                assert(slot@.buf =~= m0.slots[i as int].buf + rest);
                self.slots.push(slot);
                proof {
                    assert(self@.slots =~= m0.slots.remove(i as int).push(
                        SlotV { buf: m0.slots[i as int].buf + rest, ..m0.slots[i as int] },
                    ));
                }
                (None, false)
            },
            None => {
                if (rest_len as u64) > (self.max_frame_size as u64) {
                    return ((Some(known_error_response(FrameKnownError::frame_is_too_big)), true));
                }
                let buf = vstd::slice::slice_to_vec(
                    vstd::slice::slice_subrange(bytes.as_slice(), n, bytes.len()),
                );
                self.slots.push(
                    FrameSlot {
                        stream_id: sid,
                        frame_id: fid,
                        frame_type: header.frame_type,
                        buf,
                    },
                );
                proof {
                    assert(self@.slots =~= m0.slots.push(
                        SlotV {
                            stream_id: sid,
                            frame_id: fid,
                            frame_type: header.frame_type,
                            buf: rest,
                        },
                    ));
                }
                (None, false)
            },
        }
    }

    /// Completes a FIN frame: discards on ABORT, reassembles, dispatches.
    #[verifier::rlimit(100)]
    fn handle_fin(&mut self, header: FrameHeader, bytes: &Vec<u8>, n: usize) -> (r: (
        Option<Vec<u8>>,
        bool,
    ))
        requires
            n <= bytes@.len(),
        ensures
            ({
                let (m2, resp, close) = fin_spec(old(self)@, header@, bytes@.skip(n as int));
                &&& final(self)@ == m2
                &&& close == r.1
                &&& match resp {
                    None => r.0 is None,
                    Some(fv) => r.0 matches Some(b) && b@ == frame_storage_enc(fv),
                }
            }),
    {
        proof {
            reveal(fin_spec);
        }
        let ghost m0 = self@;
        let ghost rest = bytes@.skip(n as int);
        let sid = header.stream_id.u64_val();
        let fid = header.frame_id.u64_val();
        let rest_len: usize = bytes.len() - n;
        match self.find_slot(sid, fid) {
            Some(i) => {
                proof {
                    lemma_slot_find_in_range(m0.slots, sid, fid);
                }
                if header.flags.is_abort() {
                    let slot = self.slots.remove(i);
                    proof {
                        assert(self@.slots =~= m0.slots.remove(i as int));
                    }
                    return (None, false);
                }
                if (rest_len as u64) > (self.max_frame_size as u64) || (self.slots[i].buf.len()
                    as u64) > (self.max_frame_size as u64) - (rest_len as u64) {
                    let slot = self.slots.remove(i);
                    proof {
                        assert(self@.slots =~= m0.slots.remove(i as int));
                    }
                    return ((Some(known_error_response(FrameKnownError::frame_is_too_big)), true));
                }
                let mut slot = self.slots.remove(i);
                proof {
                    assert(self@.slots =~= m0.slots.remove(i as int));
                }
                let mut tail = vstd::slice::slice_to_vec(
                    vstd::slice::slice_subrange(bytes.as_slice(), n, bytes.len()),
                );
                slot.buf.append(&mut tail);
                assert(slot.buf@ =~= m0.slots[i as int].buf + rest);
                self.dispatch(slot.frame_type, header, slot.buf)
            },
            None => {
                let payload = vstd::slice::slice_to_vec(
                    vstd::slice::slice_subrange(bytes.as_slice(), n, bytes.len()),
                );
                self.dispatch(header.frame_type, header, payload)
            },
        }
    }

    /// Dispatches one complete frame of the given type.
    #[verifier::rlimit(100)]
    #[verifier::spinoff_prover]
    fn dispatch(&mut self, frame_type: FrameType, header: FrameHeader, payload_bytes: Vec<u8>) -> (r:
        (Option<Vec<u8>>, bool))
        ensures
            ({
                let (m2, resp, close) = dispatch_spec(
                    old(self)@,
                    frame_type,
                    header.flags@,
                    header.stream_id@,
                    header.frame_id@,
                    payload_bytes@,
                );
                &&& final(self)@ == m2
                &&& close == r.1
                &&& match resp {
                    None => r.0 is None,
                    Some(fv) => r.0 matches Some(b) && b@ == frame_storage_enc(fv),
                }
            }),
    {
        proof {
            reveal(dispatch_spec);
        }
        let ghost m0 = self@;
        assert(payload_bytes@.skip(0) =~= payload_bytes@);
        match frame_type {
            FrameType::HAPROXY_HELLO => {
                if self.hello_done {
                    return (
                        (
                            Some(known_error_response(FrameKnownError::invalid_frame_received)),
                            true,
                        )
                    );
                }
                let payload = match FramePayload::decode(
                    payload_bytes.as_slice(),
                    0,
                    FramePayloadType::KV_LIST,
                ) {
                    Ok(p) => p,
                    Err(_) => {
                        return (
                            (
                                Some(
                                    known_error_response(FrameKnownError::invalid_frame_received),
                                ),
                                true,
                            )
                        );
                    },
                };
                let hello = match HAProxyHelloFrame::try_from((header, payload)) {
                    Ok(h) => h,
                    Err(_) => {
                        return (
                            (
                                Some(
                                    known_error_response(FrameKnownError::invalid_frame_received),
                                ),
                                true,
                            )
                        );
                    },
                };
                let version = match crate::agent_hello_frame::best_version_exec(
                    &hello.payload.supported_versions,
                ) {
                    Some(v) => v,
                    None => {
                        return (
                            (
                                Some(known_error_response(FrameKnownError::unsupported_version)),
                                true,
                            )
                        );
                    },
                };
                let mfs = if hello.payload.max_frame_size >= 256 {
                    hello.payload.max_frame_size
                } else {
                    256
                };
                self.hello_done = true;
                self.max_frame_size = mfs;
                let do_close = match hello.payload.healthcheck {
                    Some(true) => true,
                    _ => false,
                };
                let mut caps: Vec<HAProxyHelloFrameCapability> = Vec::new();
                caps.push(HAProxyHelloFrameCapability::Pipelining);
                caps.push(HAProxyHelloFrameCapability::Async);
                caps.push(HAProxyHelloFrameCapability::Fragmentation);
                assert(caps@ =~= agent_capabilities());
                let reply = crate::agent_hello_frame::AgentHelloFrame::new(
                    crate::agent_hello_frame::AgentHelloFramePayload::new(version, mfs, caps),
                );
                let out = reply.to_frame_storage().to_bytes();
                (Some(out), do_close)
            },
            FrameType::HAPROXY_DISCONNECT => {
                let payload = match FramePayload::decode(
                    payload_bytes.as_slice(),
                    0,
                    FramePayloadType::KV_LIST,
                ) {
                    Ok(p) => p,
                    Err(_) => {
                        return (
                            (
                                Some(
                                    known_error_response(FrameKnownError::invalid_frame_received),
                                ),
                                true,
                            )
                        );
                    },
                };
                let d = match HAProxyDisconnectFrame::try_from((header, payload)) {
                    Ok(d) => d,
                    Err(_) => {
                        return (
                            (
                                Some(
                                    known_error_response(FrameKnownError::invalid_frame_received),
                                ),
                                true,
                            )
                        );
                    },
                };
                let reply = crate::agent_disconnect_frame::AgentDisconnectFrame::new(
                    crate::agent_disconnect_frame::AgentDisconnectFramePayload::new(
                        d.payload.status_code,
                        d.payload.message,
                    ),
                );
                let out = reply.to_frame_storage().to_bytes();
                (Some(out), true)
            },
            FrameType::NOTIFY => {
                if !self.hello_done {
                    return (
                        (
                            Some(known_error_response(FrameKnownError::invalid_frame_received)),
                            true,
                        )
                    );
                }
                let payload = match FramePayload::decode(
                    payload_bytes.as_slice(),
                    0,
                    FramePayloadType::LIST_OF_MESSAGES,
                ) {
                    Ok(p) => p,
                    Err(_) => {
                        return (
                            (
                                Some(
                                    known_error_response(FrameKnownError::invalid_frame_received),
                                ),
                                true,
                            )
                        );
                    },
                };
                let notify = match NotifyFrame::try_from((header, payload)) {
                    Ok(nf) => nf,
                    Err(_) => {
                        return (
                            (
                                Some(
                                    known_error_response(FrameKnownError::invalid_frame_received),
                                ),
                                true,
                            )
                        );
                    },
                };
                let actions: Vec<crate::action::Action> = Vec::new();
                let reply = crate::ack_frame::AckFrame::new(
                    notify.stream_id,
                    notify.frame_id,
                    crate::ack_frame::AckFramePayload::new(actions),
                );
                let out = reply.to_frame_storage().to_bytes();
                proof {
                    assert(crate::frame_payload::actions_view(Seq::<crate::action::Action>::empty())
                        =~= Seq::<ActionV>::empty());
                }
                (Some(out), false)
            },
            _ => {
                (Some(known_error_response(FrameKnownError::invalid_frame_received)), true)
            },
        }
    }
}

/// The serialized AGENT-DISCONNECT that reports a well-known error.
fn known_error_response(e: FrameKnownError) -> (r: Vec<u8>)
    ensures
        r@ == frame_storage_enc(known_error_frame_v(e)),
{
    crate::agent_disconnect_frame::AgentDisconnectFrame::new(
        crate::agent_disconnect_frame::AgentDisconnectFramePayload::from_frame_known_error(e),
    ).to_frame_storage().to_bytes()
}

/// The concatenation of a list of fragment payloads, in order.
pub open spec fn flat_frags(frags: Seq<Seq<u8>>) -> Seq<u8>
    decreases frags.len(),
{
    if frags.len() == 0 {
        Seq::empty()
    } else {
        frags[0] + flat_frags(frags.skip(1))
    }
}

/// The wire form of one non-FIN fragment for the given key and type.
pub open spec fn frag_input(t: FrameType, stream_id: u64, frame_id: u64, p: Seq<u8>) -> Seq<u8> {
    crate::frame_header::frame_header_enc(
        crate::frame_header::FrameHeaderV { frame_type: t, flags: 0, stream_id, frame_id },
    ) + p
}

/// The wire form of the final FIN frame for the given key and type.
pub open spec fn fin_input(t: FrameType, stream_id: u64, frame_id: u64, p: Seq<u8>) -> Seq<u8> {
    crate::frame_header::frame_header_enc(
        crate::frame_header::FrameHeaderV { frame_type: t, flags: 1, stream_id, frame_id },
    ) + p
}

/// The state after handling a sequence of frames in order, ignoring the
/// responses.
pub open spec fn feed(m: FrameM, inputs: Seq<Seq<u8>>) -> FrameM
    decreases inputs.len(),
{
    if inputs.len() == 0 {
        m
    } else {
        feed(handle_spec(m, inputs[0]).0, inputs.skip(1))
    }
}

/// The fragment frames that carry the given payloads, in order.
pub open spec fn frag_inputs(t: FrameType, stream_id: u64, frame_id: u64, frags: Seq<Seq<u8>>) -> Seq<
    Seq<u8>,
> {
    Seq::new(frags.len(), |i: int| frag_input(t, stream_id, frame_id, frags[i]))
}

/// A sequence in which no slot carries the key has no find result.
proof fn lemma_slot_find_none(slots: Seq<SlotV>, stream_id: u64, frame_id: u64)
    ensures
        slot_find(slots, stream_id, frame_id) is None ==> forall|j: int|
            0 <= j < slots.len() ==> !(#[trigger] slots[j].stream_id == stream_id
                && slots[j].frame_id == frame_id),
    decreases slots.len(),
{
    if slots.len() > 0 {
        lemma_slot_find_none(slots.skip(1), stream_id, frame_id);
        if slot_find(slots, stream_id, frame_id) is None {
            assert forall|j: int|
                0 <= j < slots.len() implies !(#[trigger] slots[j].stream_id == stream_id
                && slots[j].frame_id == frame_id) by {
                if j > 0 {
                    assert(slots.skip(1)[j - 1] == slots[j]);
                }
            }
        }
    }
}

/// Appending a slot with a fresh key puts it where the scan finds it.
proof fn lemma_slot_find_push(slots: Seq<SlotV>, s: SlotV, stream_id: u64, frame_id: u64)
    requires
        (slot_find(slots, stream_id, frame_id) is None),
        s.stream_id == stream_id,
        s.frame_id == frame_id,
    ensures
        slot_find(slots.push(s), stream_id, frame_id) == Some(slots.len() as int),
{
    lemma_slot_find_none(slots, stream_id, frame_id);
    assert forall|j: int|
        0 <= j < slots.len() implies !(#[trigger] slots.push(s)[j].stream_id == stream_id
        && slots.push(s)[j].frame_id == frame_id) by {
        assert(slots.push(s)[j] == slots[j]);
    }
    lemma_slot_find_skip(slots.push(s), stream_id, frame_id, slots.len() as int);
    assert(slots.push(s).skip(slots.len() as int) =~= seq![s]);
}

/// Feeding fragments onto an existing slot accumulates their bytes in
/// order, leaving everything else untouched.
proof fn lemma_feed_acc(
    m: FrameM,
    t: FrameType,
    stream_id: u64,
    frame_id: u64,
    acc: Seq<u8>,
    frags: Seq<Seq<u8>>,
)
    requires
        !(stream_id == 0 && frame_id == 0),
        t == FrameType::NOTIFY || t == FrameType::UNSET,
        (slot_find(m.slots, stream_id, frame_id) is None),
        acc.len() + flat_frags(frags).len() <= m.max_frame_size,
    ensures
        (feed(
            FrameM {
                slots: m.slots.push(SlotV { stream_id, frame_id, frame_type: t, buf: acc }),
                ..m
            },
            frag_inputs(t, stream_id, frame_id, frags),
        ) == FrameM {
            slots: m.slots.push(
                SlotV { stream_id, frame_id, frame_type: t, buf: acc + flat_frags(frags) },
            ),
            ..m
        }),
    decreases frags.len(),
{
    reveal(fragment_spec);
    let slot = SlotV { stream_id, frame_id, frame_type: t, buf: acc };
    let st = FrameM { slots: m.slots.push(slot), ..m };
    if frags.len() == 0 {
        assert(acc + flat_frags(frags) =~= acc);
        assert(frag_inputs(t, stream_id, frame_id, frags).len() == 0);
    } else {
        let p0 = frags[0];
        let input = frag_input(t, stream_id, frame_id, p0);
        let h = crate::frame_header::FrameHeaderV {
            frame_type: t,
            flags: 0,
            stream_id,
            frame_id,
        };
        crate::frame_header::lemma_frame_header_round_trip(h, p0);
        let he = crate::frame_header::frame_header_enc(h);
        crate::frame_payload::lemma_skip_concat(he, p0);
        assert(input.skip(he.len() as int) == p0);
        lemma_slot_find_push(m.slots, slot, stream_id, frame_id);
        let i = m.slots.len() as int;
        assert(st.slots[i] == slot);
        assert(acc.len() + p0.len() <= m.max_frame_size) by {
            assert(flat_frags(frags) == p0 + flat_frags(frags.skip(1)));
        }
        let updated = SlotV { stream_id, frame_id, frame_type: t, buf: acc + p0 };
        let step = handle_spec(st, input);
        assert(st.slots.remove(i) =~= m.slots);
        assert(step.0 == FrameM { slots: m.slots.push(updated), ..m });
        lemma_feed_acc(m, t, stream_id, frame_id, acc + p0, frags.skip(1));
        assert((acc + p0).len() + flat_frags(frags.skip(1)).len() <= m.max_frame_size) by {
            assert(flat_frags(frags) == p0 + flat_frags(frags.skip(1)));
        }
        assert(frag_inputs(t, stream_id, frame_id, frags).skip(1) =~= frag_inputs(
            t,
            stream_id,
            frame_id,
            frags.skip(1),
        ));
        assert(frag_inputs(t, stream_id, frame_id, frags)[0] == input);
        assert((acc + p0) + flat_frags(frags.skip(1)) =~= acc + flat_frags(frags));
    }
}

/// Reassembly: a fragmented frame is handled exactly like the unfragmented
/// frame whose payload is the concatenation of the fragments and the FIN
/// remainder.  Feeding the non-FIN fragments buffers them, and the final FIN
/// frame dispatches just as a single frame carrying the whole payload would
/// have from the original state.
pub proof fn lemma_reassembly(
    m: FrameM,
    t: FrameType,
    stream_id: u64,
    frame_id: u64,
    frags: Seq<Seq<u8>>,
    last: Seq<u8>,
)
    requires
        !(stream_id == 0 && frame_id == 0),
        t == FrameType::NOTIFY || t == FrameType::UNSET,
        (slot_find(m.slots, stream_id, frame_id) is None),
        flat_frags(frags).len() + last.len() <= m.max_frame_size,
        frags.len() > 0,
    ensures
        handle_spec(
            feed(m, frag_inputs(t, stream_id, frame_id, frags)),
            fin_input(t, stream_id, frame_id, last),
        ) == handle_spec(m, fin_input(t, stream_id, frame_id, flat_frags(frags) + last)),
{
    reveal(fragment_spec);
    reveal(fin_spec);
    let p0 = frags[0];
    let input0 = frag_input(t, stream_id, frame_id, p0);
    let h0 = crate::frame_header::FrameHeaderV { frame_type: t, flags: 0, stream_id, frame_id };
    crate::frame_header::lemma_frame_header_round_trip(h0, p0);
    crate::frame_payload::lemma_skip_concat(
        crate::frame_header::frame_header_enc(h0),
        p0,
    );
    assert(p0.len() <= m.max_frame_size) by {
        assert(flat_frags(frags) == p0 + flat_frags(frags.skip(1)));
    }
    let slot0 = SlotV { stream_id, frame_id, frame_type: t, buf: p0 };
    let st1 = handle_spec(m, input0).0;
    assert(st1 == FrameM { slots: m.slots.push(slot0), ..m });
    assert(frag_inputs(t, stream_id, frame_id, frags)[0] == input0);
    assert(frag_inputs(t, stream_id, frame_id, frags).skip(1) =~= frag_inputs(
        t,
        stream_id,
        frame_id,
        frags.skip(1),
    ));
    lemma_feed_acc(m, t, stream_id, frame_id, p0, frags.skip(1));
    assert(p0.len() + flat_frags(frags.skip(1)).len() <= m.max_frame_size) by {
        assert(flat_frags(frags) == p0 + flat_frags(frags.skip(1)));
    }
    let whole = flat_frags(frags);
    assert(p0 + flat_frags(frags.skip(1)) == whole);
    let mk = feed(m, frag_inputs(t, stream_id, frame_id, frags));
    let full_slot = SlotV { stream_id, frame_id, frame_type: t, buf: whole };
    assert(mk == FrameM { slots: m.slots.push(full_slot), ..m });
    let hf = crate::frame_header::FrameHeaderV { frame_type: t, flags: 1, stream_id, frame_id };
    crate::frame_header::lemma_frame_header_round_trip(hf, last);
    crate::frame_payload::lemma_skip_concat(
        crate::frame_header::frame_header_enc(hf),
        last,
    );
    crate::frame_header::lemma_frame_header_round_trip(hf, whole + last);
    crate::frame_payload::lemma_skip_concat(
        crate::frame_header::frame_header_enc(hf),
        whole + last,
    );
    lemma_slot_find_push(m.slots, full_slot, stream_id, frame_id);
    let i = m.slots.len() as int;
    assert(mk.slots.remove(i) =~= m.slots);
    assert(FrameM { slots: mk.slots.remove(i), ..mk } == m);
}

/// Scanning past `k` non-matching slots shifts the found index by `k`.
proof fn lemma_slot_find_skip(slots: Seq<SlotV>, stream_id: u64, frame_id: u64, k: int)
    requires
        0 <= k <= slots.len(),
        forall|j: int| 0 <= j < k ==> !(#[trigger] slots[j].stream_id == stream_id
            && slots[j].frame_id == frame_id),
    ensures
        slot_find(slots, stream_id, frame_id) == match slot_find(
            slots.skip(k),
            stream_id,
            frame_id,
        ) {
            None => None::<int>,
            Some(i) => Some(i + k),
        },
    decreases k,
{
    if k > 0 {
        lemma_slot_find_skip(slots.skip(1), stream_id, frame_id, k - 1);
        assert(slots.skip(1).skip(k - 1) =~= slots.skip(k));
    } else {
        assert(slots.skip(0) =~= slots);
    }
}

} // verus!
