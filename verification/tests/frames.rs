use spoa::{
    Action, ActionParseError, ActionVarScope, FrameHeader, FramePayload, FramePayloadType,
    FrameStorage, FrameType, HAProxyDisconnectFrame, HAProxyHelloFrame,
    HAProxyHelloFrameParseError, NotifyFrame, SupportVersion, TypedData, VarintString,
};

fn decode_header_and_payload(bytes: &[u8]) -> (FrameHeader, FramePayload) {
    let (header, n) = FrameHeader::decode(bytes, 0).unwrap();
    let payload_type = match header.frame_type {
        FrameType::NOTIFY => FramePayloadType::LIST_OF_MESSAGES,
        FrameType::ACK => FramePayloadType::LIST_OF_ACTIONS,
        _ => FramePayloadType::KV_LIST,
    };
    let payload = FramePayload::decode(bytes, n, payload_type).unwrap();
    (header, payload)
}

#[test]
fn haproxy_hello_frame_test_from() {
    let bytes = b"\x01\0\0\0\x01\0\0\x12supported-versions\x08\x032.0\x0emax-frame-size\x03\xfc\xf0\x06\x0ccapabilities\x08\x10pipelining,async\tengine-id\x08$6bdec4ec-6b9a-4705-83f4-8817766c0c57";
    let (header, payload) = decode_header_and_payload(bytes);

    assert_eq!(header.frame_type, FrameType::HAPROXY_HELLO);
    assert_eq!(header.flags.is_fin(), true);
    assert_eq!(header.flags.is_abort(), false);
    assert_eq!(header.stream_id.u64_val(), 0);
    assert_eq!(header.frame_id.u64_val(), 0);

    let frame = HAProxyHelloFrame::try_from((header, payload)).unwrap();

    assert_eq!(
        frame.payload.supported_versions,
        vec![SupportVersion::new(2, 0, 0)]
    );
    assert_eq!(frame.payload.max_frame_size, 16380);
    assert_eq!(frame.payload.healthcheck, None);
    assert_eq!(
        frame.payload.engine_id,
        Some("6bdec4ec-6b9a-4705-83f4-8817766c0c57".to_string())
    );
}

#[test]
fn haproxy_hello_rejects_nonzero_ids() {
    // same HELLO but with stream-id 1 in the header
    let bytes = b"\x01\0\0\0\x01\x01\0\x12supported-versions\x08\x032.0\x0emax-frame-size\x03\xfc\xf0\x06\x0ccapabilities\x08\x10pipelining,async";
    let (header, payload) = decode_header_and_payload(bytes);
    let err = HAProxyHelloFrame::try_from((header, payload)).unwrap_err();
    assert_eq!(
        err,
        HAProxyHelloFrameParseError::FieldValueInvalid("stream-id".to_string())
    );
}

#[test]
fn haproxy_disconnect_frame_test_from() {
    let bytes = b"\x02\0\0\0\x01\0\0\x0bstatus-code\x03\n\x07message\x08\x1bfragmentation not supported";
    let (header, payload) = decode_header_and_payload(bytes);

    assert_eq!(header.frame_type, FrameType::HAPROXY_DISCONNECT);
    assert_eq!(header.flags.is_fin(), true);
    assert_eq!(header.flags.is_abort(), false);
    assert_eq!(header.stream_id.u64_val(), 0);
    assert_eq!(header.frame_id.u64_val(), 0);

    let frame = HAProxyDisconnectFrame::try_from((header, payload)).unwrap();

    assert_eq!(frame.payload.status_code, 10);
    assert_eq!(frame.payload.message, "fragmentation not supported");
}

#[test]
fn notify_frame_test_from() {
    let bytes = b"\x03\0\0\0\x01\0\x01\x04demo\x02\narg_method\x08\x03GET\x08arg_path\x08\x01/";
    let (header, payload) = decode_header_and_payload(bytes);

    assert_eq!(header.frame_type, FrameType::NOTIFY);
    assert_eq!(header.flags.is_fin(), true);
    assert_eq!(header.flags.is_abort(), false);
    assert_ne!(header.frame_id.u64_val(), 0);

    let frame = NotifyFrame::try_from((header, payload)).unwrap();

    assert_eq!(frame.payload.messages.len(), 1);
    let message = &frame.payload.messages[0];
    assert_eq!(message.name, VarintString::new("demo"));
    assert_eq!(message.args.len(), 2);
    assert_eq!(message.args[0].0, VarintString::new("arg_method"));
    assert_eq!(message.args[0].1, TypedData::STRING(VarintString::new("GET")));
    assert_eq!(message.args[1].0, VarintString::new("arg_path"));
    assert_eq!(message.args[1].1, TypedData::STRING(VarintString::new("/")));
}

#[test]
fn kv_list_last_occurrence_wins() {
    let mut kv: Vec<(VarintString, TypedData)> = Vec::new();
    kv.push((VarintString::new("k"), TypedData::UINT32(1)));
    kv.push((VarintString::new("other"), TypedData::NULL));
    kv.push((VarintString::new("k"), TypedData::UINT32(2)));
    let payload = FramePayload::KV_LIST(kv);
    assert_eq!(payload.get_kv_list_value("k"), Some(&TypedData::UINT32(2)));
    assert_eq!(payload.get_kv_list_value("missing"), None);
}

#[test]
fn frame_storage_round_trip() {
    let bytes = b"\x03\0\0\0\x01\0\x01\x04demo\x02\narg_method\x08\x03GET\x08arg_path\x08\x01/";
    let frame = FrameStorage::decode(bytes).unwrap();
    let out = frame.to_bytes();
    assert_eq!(out, bytes.to_vec());
}

#[test]
fn frame_storage_rejects_unset() {
    // header with type 0 (UNSET), FIN set, zero ids, empty payload
    let bytes = b"\x00\0\0\0\x01\0\0";
    assert!(FrameStorage::decode(bytes).is_err());
}

#[test]
fn action_round_trip() {
    let set = Action::set_val(
        ActionVarScope::TRANSACTION,
        VarintString::new("var_name_1"),
        TypedData::STRING(VarintString::new("var-value-1")),
    );
    let mut buf: Vec<u8> = Vec::new();
    set.write_to(&mut buf);
    assert_eq!(buf[0], 1);
    assert_eq!(buf[1], 3);
    assert_eq!(buf[2], 2);
    let (decoded, end) = Action::decode(&buf, 0).unwrap();
    assert_eq!(decoded, set);
    assert_eq!(end, buf.len());

    let unset = Action::unset_val(ActionVarScope::REQUEST, VarintString::new("gone"));
    let mut buf: Vec<u8> = Vec::new();
    unset.write_to(&mut buf);
    assert_eq!(buf[0], 2);
    assert_eq!(buf[1], 2);
    assert_eq!(buf[2], 3);
    let (decoded, end) = Action::decode(&buf, 0).unwrap();
    assert_eq!(decoded, unset);
    assert_eq!(end, buf.len());
}

#[test]
fn action_decode_errors() {
    // unknown action type
    let bytes: Vec<u8> = vec![9, 3, 0, 0];
    assert_eq!(Action::decode(&bytes, 0).unwrap_err(), ActionParseError::InvalidType);
    // SET-VAR must announce three arguments
    let bytes: Vec<u8> = vec![1, 2, 0, 0];
    assert_eq!(Action::decode(&bytes, 0).unwrap_err(), ActionParseError::InvalidNBArgs);
    // unknown scope
    let bytes: Vec<u8> = vec![2, 2, 9, 0];
    assert_eq!(Action::decode(&bytes, 0).unwrap_err(), ActionParseError::InvalidVarScope);
}

#[test]
fn unknown_capability_is_rejected() {
    let bytes = b"\x01\0\0\0\x01\0\0\x12supported-versions\x08\x032.0\x0emax-frame-size\x03\xfc\xf0\x06\x0ccapabilities\x08\x05bogus";
    let (header, payload) = decode_header_and_payload(bytes);
    let err = HAProxyHelloFrame::try_from((header, payload)).unwrap_err();
    assert_eq!(
        err,
        HAProxyHelloFrameParseError::FieldValueInvalid("capabilities".to_string())
    );
}

#[test]
fn empty_capability_list_is_allowed() {
    let bytes = b"\x01\0\0\0\x01\0\0\x12supported-versions\x08\x032.0\x0emax-frame-size\x03\xfc\xf0\x06\x0ccapabilities\x08\x00";
    let (header, payload) = decode_header_and_payload(bytes);
    let frame = HAProxyHelloFrame::try_from((header, payload)).unwrap();
    assert_eq!(frame.payload.capabilities.len(), 0);
    assert_eq!(frame.payload.engine_id, None);
}

#[test]
fn missing_field_is_reported() {
    // no max-frame-size field
    let bytes = b"\x01\0\0\0\x01\0\0\x12supported-versions\x08\x032.0\x0ccapabilities\x08\x00";
    let (header, payload) = decode_header_and_payload(bytes);
    let err = HAProxyHelloFrame::try_from((header, payload)).unwrap_err();
    assert_eq!(
        err,
        HAProxyHelloFrameParseError::FieldNotFound("max-frame-size".to_string())
    );
}
