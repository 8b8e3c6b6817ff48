use fps_unlock::codec::{create_raw_value_from_json, decode_tiered, keep_text_bytes, next_tier, parse_raw_value, sanitize, strip_zero_bytes, with_payload, DecodeError, DecodeTier, RawConfigValue};

const REG_BINARY: u32 = 3;

fn raw(bytes: &[u8]) -> RawConfigValue {
    RawConfigValue { bytes: bytes.to_vec(), type_tag: REG_BINARY }
}

fn interleave(text: &[u8], filler: &[u8]) -> Vec<u8> {
    let mut out = Vec::new();
    for &b in text {
        out.push(b);
        out.extend_from_slice(filler);
    }
    out
}

#[test]
fn clean_payload_decodes_directly() {
    let d = decode_tiered(&raw(b"{\"a\":1}")).unwrap();
    assert_eq!(d.tier, DecodeTier::Direct);
    assert_eq!(d.value["a"].as_u64(), Some(1));
}

#[test]
fn zero_bytes_need_second_tier() {
    let payload = interleave(b"{\"a\":1}", &[0]);
    let d = decode_tiered(&raw(&payload)).unwrap();
    assert_eq!(d.tier, DecodeTier::ZerosStripped);
    assert_eq!(d.value["a"].as_u64(), Some(1));
}

#[test]
fn control_bytes_need_third_tier() {
    let payload = interleave(b"{\"a\":1}", &[0, 1]);
    let d = decode_tiered(&raw(&payload)).unwrap();
    assert_eq!(d.tier, DecodeTier::Sanitized);
    assert_eq!(d.value["a"].as_u64(), Some(1));
}

#[test]
fn hopeless_payload_is_a_decode_error() {
    assert_eq!(parse_raw_value(&raw(b"not json")).err(), Some(DecodeError::Unparseable));
    assert_eq!(parse_raw_value(&raw(b"")).err(), Some(DecodeError::Unparseable));
}

#[test]
fn stripping_keeps_order() {
    assert_eq!(strip_zero_bytes(&[0, 1, 0, 2, 3, 0]), vec![1, 2, 3]);
    assert_eq!(keep_text_bytes(&[b'a', 1, b'\t', 0x7F, b'\n', 0xC3, b'\r', b'~']), vec![b'a', b'\t', b'\n', b'\r', b'~']);
    assert_eq!(sanitize(&[b'x', 0, 2], DecodeTier::Direct), vec![b'x', 0, 2]);
    assert_eq!(sanitize(&[b'x', 0, 2], DecodeTier::ZerosStripped), vec![b'x', 2]);
    assert_eq!(sanitize(&[b'x', 0, 2], DecodeTier::Sanitized), vec![b'x']);
}

#[test]
fn tiers_escalate_in_order() {
    assert_eq!(next_tier(DecodeTier::Direct), Some(DecodeTier::ZerosStripped));
    assert_eq!(next_tier(DecodeTier::ZerosStripped), Some(DecodeTier::Sanitized));
    assert_eq!(next_tier(DecodeTier::Sanitized), None);
}

#[test]
fn encode_keeps_type_tag() {
    let original = RawConfigValue { bytes: b"\x00garbage".to_vec(), type_tag: 42 };
    let v: serde_json::Value = serde_json::from_str("{\"FPS\":120}").unwrap();
    let encoded = create_raw_value_from_json(&v, &original).unwrap();
    assert_eq!(encoded.type_tag, 42);
    assert_eq!(encoded.bytes, b"{\"FPS\":120}".to_vec());
    let again = with_payload(vec![1, 2], &original);
    assert_eq!(again.type_tag, 42);
    assert_eq!(again.bytes, vec![1, 2]);
}

#[test]
fn decode_encode_round_trip() {
    let payload = interleave(b"{\"FPS\":60,\"Name\":\"x\",\"Nested\":{\"k\":[1,2]}}", &[0]);
    let original = raw(&payload);
    let mut v = parse_raw_value(&original).unwrap();
    v["FPS"] = serde_json::Value::from(120u32);
    let encoded = create_raw_value_from_json(&v, &original).unwrap();
    let back = decode_tiered(&encoded).unwrap();
    assert_eq!(back.tier, DecodeTier::Direct);
    assert_eq!(back.value, v);
    assert_eq!(encoded.type_tag, REG_BINARY);
}

#[test]
fn accented_string_decodes_at_first_tier() {
    let d = decode_tiered(&raw(&[0x22, 0xC3, 0xA9, 0x22])).unwrap();
    assert_eq!(d.tier, DecodeTier::Direct);
    assert_eq!(d.value.as_str(), Some("é"));
}

#[test]
fn high_byte_needs_third_tier() {
    let d = decode_tiered(&raw(&[0x7B, 0x80, 0x22, 0x61, 0x22, 0x3A, 0x31, 0x7D])).unwrap();
    assert_eq!(d.tier, DecodeTier::Sanitized);
    assert_eq!(d.value["a"].as_u64(), Some(1));
}
