use spoa::{
    Frame, FrameCodec, FrameFlags, FramePayload, FrameStorage, FrameType, TypedData, Varint,
    VarintString,
};

fn hello_frame_bytes(healthcheck: bool) -> Vec<u8> {
    let mut kv: Vec<(VarintString, TypedData)> = Vec::new();
    kv.push((
        VarintString::new("supported-versions"),
        TypedData::STRING(VarintString::new("2.0")),
    ));
    kv.push((VarintString::new("max-frame-size"), TypedData::UINT32(16380)));
    kv.push((
        VarintString::new("capabilities"),
        TypedData::STRING(VarintString::new("pipelining,async")),
    ));
    kv.push((
        VarintString::new("engine-id"),
        TypedData::STRING(VarintString::new("6bdec4ec-6b9a-4705-83f4-8817766c0c57")),
    ));
    if healthcheck {
        kv.push((VarintString::new("healthcheck"), TypedData::BOOL(true)));
    }
    let frame = FrameStorage {
        frame_type: FrameType::HAPROXY_HELLO,
        flags: FrameFlags::new(true, false),
        stream_id: Varint::from(0u32),
        frame_id: Varint::from(0u32),
        payload: FramePayload::KV_LIST(kv),
    };
    frame.to_bytes()
}

fn notify_frame_bytes() -> Vec<u8> {
    b"\x03\0\0\0\x01\0\x01\x04demo\x02\narg_method\x08\x03GET\x08arg_path\x08\x01/".to_vec()
}

fn kv_string(frame: &FrameStorage, name: &str) -> String {
    frame
        .payload
        .get_kv_list_value(name)
        .unwrap()
        .get_string()
        .unwrap()
        .val()
        .to_string()
}

fn kv_u32(frame: &FrameStorage, name: &str) -> u32 {
    *frame.payload.get_kv_list_value(name).unwrap().get_u32().unwrap()
}

#[test]
fn healthcheck_hello_closes() {
    let mut frame = Frame::new();
    let (resp, close) = frame.handle(&hello_frame_bytes(true));
    let resp = resp.unwrap();
    assert_eq!(resp[0], 101);
    let reply = FrameStorage::decode(&resp).unwrap();
    assert_eq!(reply.frame_type, FrameType::AGENT_HELLO);
    assert_eq!(reply.stream_id.u64_val(), 0);
    assert_eq!(reply.frame_id.u64_val(), 0);
    assert_eq!(kv_string(&reply, "version"), "2.0");
    assert_eq!(kv_u32(&reply, "max-frame-size"), 16380);
    assert_eq!(kv_string(&reply, "capabilities"), "pipelining,async,fragmentation");
    assert!(close);
}

#[test]
fn normal_hello_stays_open() {
    let mut frame = Frame::new();
    let (resp, close) = frame.handle(&hello_frame_bytes(false));
    let reply = FrameStorage::decode(&resp.unwrap()).unwrap();
    assert_eq!(reply.frame_type, FrameType::AGENT_HELLO);
    assert_eq!(kv_string(&reply, "version"), "2.0");
    assert_eq!(kv_u32(&reply, "max-frame-size"), 16380);
    assert_eq!(kv_string(&reply, "capabilities"), "pipelining,async,fragmentation");
    assert!(!close);
}

#[test]
fn notify_after_hello_gets_ack() {
    let mut frame = Frame::new();
    let (_, close) = frame.handle(&hello_frame_bytes(false));
    assert!(!close);
    let (resp, close) = frame.handle(&notify_frame_bytes());
    let reply = FrameStorage::decode(&resp.unwrap()).unwrap();
    assert_eq!(reply.frame_type, FrameType::ACK);
    assert_eq!(reply.stream_id.u64_val(), 0);
    assert_eq!(reply.frame_id.u64_val(), 1);
    match reply.payload {
        FramePayload::LIST_OF_ACTIONS(actions) => assert_eq!(actions.len(), 0),
        _ => panic!("expected an action list"),
    }
    assert!(!close);
}

#[test]
fn notify_before_hello_is_rejected() {
    let mut frame = Frame::new();
    let (resp, close) = frame.handle(&notify_frame_bytes());
    let reply = FrameStorage::decode(&resp.unwrap()).unwrap();
    assert_eq!(reply.frame_type, FrameType::AGENT_DISCONNECT);
    assert_eq!(kv_u32(&reply, "status-code"), 4);
    assert!(close);
}

#[test]
fn disconnect_is_echoed_and_closes() {
    let mut frame = Frame::new();
    let bytes =
        b"\x02\0\0\0\x01\0\0\x0bstatus-code\x03\n\x07message\x08\x1bfragmentation not supported";
    let (resp, close) = frame.handle(&bytes.to_vec());
    let reply = FrameStorage::decode(&resp.unwrap()).unwrap();
    assert_eq!(reply.frame_type, FrameType::AGENT_DISCONNECT);
    assert_eq!(kv_u32(&reply, "status-code"), 10);
    assert_eq!(kv_string(&reply, "message"), "fragmentation not supported");
    assert!(close);
}

#[test]
fn malformed_typed_data_disconnects() {
    let mut frame = Frame::new();
    // HELLO header, then a KV-list whose value has the impossible tag 0xff
    let bytes: Vec<u8> = vec![0x01, 0, 0, 0, 0x01, 0, 0, 0x01, b'k', 0xff];
    let (resp, close) = frame.handle(&bytes);
    let reply = FrameStorage::decode(&resp.unwrap()).unwrap();
    assert_eq!(reply.frame_type, FrameType::AGENT_DISCONNECT);
    assert_eq!(kv_u32(&reply, "status-code"), 4);
    assert_eq!(kv_string(&reply, "message"), "invalid frame received");
    assert!(close);
}

#[test]
fn fragmented_notify_gets_one_ack() {
    let mut frame = Frame::new();
    let (_, close) = frame.handle(&hello_frame_bytes(false));
    assert!(!close);

    let payload = b"\x04demo\x02\narg_method\x08\x03GET\x08arg_path\x08\x01/";
    let (part1, part2) = payload.split_at(7);

    // first fragment: NOTIFY, FIN not set, (stream-id 0, frame-id 1)
    let mut first: Vec<u8> = vec![0x03, 0, 0, 0, 0x00, 0, 0x01];
    first.extend_from_slice(part1);
    let (resp, close) = frame.handle(&first);
    assert!(resp.is_none());
    assert!(!close);

    // final fragment: same key, FIN set
    let mut second: Vec<u8> = vec![0x03, 0, 0, 0, 0x01, 0, 0x01];
    second.extend_from_slice(part2);
    let (resp, close) = frame.handle(&second);
    let reply = FrameStorage::decode(&resp.unwrap()).unwrap();
    assert_eq!(reply.frame_type, FrameType::ACK);
    assert_eq!(reply.stream_id.u64_val(), 0);
    assert_eq!(reply.frame_id.u64_val(), 1);
    assert!(!close);
}

#[test]
fn aborted_fragment_is_discarded() {
    let mut frame = Frame::new();
    let (_, close) = frame.handle(&hello_frame_bytes(false));
    assert!(!close);

    // buffer a fragment, then abort it: FIN+ABORT on the same key
    let first: Vec<u8> = vec![0x03, 0, 0, 0, 0x00, 0, 0x01, 0x04, b'd', b'e'];
    let (resp, close) = frame.handle(&first);
    assert!(resp.is_none());
    assert!(!close);

    let abort: Vec<u8> = vec![0x03, 0, 0, 0, 0x03, 0, 0x01];
    let (resp, close) = frame.handle(&abort);
    assert!(resp.is_none());
    assert!(!close);
}

#[test]
fn fragment_with_zero_key_is_rejected() {
    let mut frame = Frame::new();
    let bytes: Vec<u8> = vec![0x03, 0, 0, 0, 0x00, 0, 0];
    let (resp, close) = frame.handle(&bytes);
    let reply = FrameStorage::decode(&resp.unwrap()).unwrap();
    assert_eq!(reply.frame_type, FrameType::AGENT_DISCONNECT);
    assert_eq!(kv_u32(&reply, "status-code"), 4);
    assert!(close);
}

#[test]
fn oversized_fragments_disconnect() {
    let mut frame = Frame::new();
    // engine announces a small frame size limit
    let mut kv: Vec<(VarintString, TypedData)> = Vec::new();
    kv.push((
        VarintString::new("supported-versions"),
        TypedData::STRING(VarintString::new("2.0")),
    ));
    kv.push((VarintString::new("max-frame-size"), TypedData::UINT32(16)));
    kv.push((
        VarintString::new("capabilities"),
        TypedData::STRING(VarintString::new("")),
    ));
    let hello = FrameStorage {
        frame_type: FrameType::HAPROXY_HELLO,
        flags: FrameFlags::new(true, false),
        stream_id: Varint::from(0u32),
        frame_id: Varint::from(0u32),
        payload: FramePayload::KV_LIST(kv),
    };
    let (resp, close) = frame.handle(&hello.to_bytes());
    let reply = FrameStorage::decode(&resp.unwrap()).unwrap();
    // the floor of 256 applies to the reply
    assert_eq!(kv_u32(&reply, "max-frame-size"), 256);
    assert!(!close);

    // fragments may accumulate up to the negotiated size, not beyond
    let mut first: Vec<u8> = vec![0x03, 0, 0, 0, 0x00, 0, 0x01];
    first.extend_from_slice(&[0u8; 200]);
    let (resp, close) = frame.handle(&first);
    assert!(resp.is_none());
    assert!(!close);

    let mut second: Vec<u8> = vec![0x03, 0, 0, 0, 0x00, 0, 0x01];
    second.extend_from_slice(&[0u8; 100]);
    let (resp, close) = frame.handle(&second);
    let reply = FrameStorage::decode(&resp.unwrap()).unwrap();
    assert_eq!(reply.frame_type, FrameType::AGENT_DISCONNECT);
    assert_eq!(kv_u32(&reply, "status-code"), 3);
    assert!(close);
}

#[test]
fn unsupported_version_disconnects() {
    let mut frame = Frame::new();
    let mut kv: Vec<(VarintString, TypedData)> = Vec::new();
    kv.push((
        VarintString::new("supported-versions"),
        TypedData::STRING(VarintString::new("3.0")),
    ));
    kv.push((VarintString::new("max-frame-size"), TypedData::UINT32(16380)));
    kv.push((
        VarintString::new("capabilities"),
        TypedData::STRING(VarintString::new("pipelining")),
    ));
    let hello = FrameStorage {
        frame_type: FrameType::HAPROXY_HELLO,
        flags: FrameFlags::new(true, false),
        stream_id: Varint::from(0u32),
        frame_id: Varint::from(0u32),
        payload: FramePayload::KV_LIST(kv),
    };
    let (resp, close) = frame.handle(&hello.to_bytes());
    let reply = FrameStorage::decode(&resp.unwrap()).unwrap();
    assert_eq!(reply.frame_type, FrameType::AGENT_DISCONNECT);
    assert_eq!(kv_u32(&reply, "status-code"), 8);
    assert_eq!(kv_string(&reply, "message"), "unsupported version");
    assert!(close);
}

#[test]
fn length_prefix_round_trip() {
    let frame_bytes = notify_frame_bytes();
    let mut wire: Vec<u8> = Vec::new();
    FrameCodec::encode(&frame_bytes, &mut wire);
    assert_eq!(wire.len(), frame_bytes.len() + 4);
    let (decoded, end) = FrameCodec::decode(&wire).unwrap();
    assert_eq!(decoded, frame_bytes);
    assert_eq!(end, wire.len());

    // a partial frame stays buffered
    let partial = &wire[0..wire.len() - 1];
    assert!(FrameCodec::decode(partial).is_none());
}
