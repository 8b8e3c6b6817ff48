use vstd::prelude::*;

verus! {

#[verifier::external_type_specification]
#[verifier::external_body]
pub struct ExJsonValue(serde_json::Value);

#[verifier::external_type_specification]
#[verifier::external_body]
pub struct ExJsonError(serde_json::Error);

/// Whether serde_json parses `b` as one JSON document.
pub uninterp spec fn json_accepts(b: Seq<u8>) -> bool;

/// The value serde_json parses from `b`, where it accepts `b`.
pub uninterp spec fn json_value_of(b: Seq<u8>) -> serde_json::Value;

/// Relies on `serde_json::from_slice`: whether it succeeds, and the value it
/// returns, depend on the bytes alone.
#[verifier::external_body]
fn parse_json(b: &[u8]) -> (r: Result<serde_json::Value, serde_json::Error>)
    ensures
        r is Ok <==> json_accepts(b@),
        r matches Ok(v) ==> v == json_value_of(b@),
{
    serde_json::from_slice(b)
}

/// Relies on `serde_json::to_vec`, which writes the JSON text of a value
/// into a `Vec`. It cannot fail on a `Value`: the writer cannot fail, a
/// `Value`'s maps have string keys, and its numbers are never NaN.
#[verifier::external_body]
fn serialize_json(v: &serde_json::Value) -> (r: Result<Vec<u8>, serde_json::Error>)
    ensures
        r is Ok,
{
    serde_json::to_vec(v)
}

/// A binary configuration value as a settings store holds it: the payload
/// and the store's type marker, which is never derived from the payload.
pub struct RawConfigValue {
    pub bytes: Vec<u8>,
    pub type_tag: u32,
}

/// No sanitization step made the payload parse.
#[derive(Clone, Copy, Debug, PartialEq, Eq)]
pub enum DecodeError {
    Unparseable,
}

/// The serializer refused the value; it does not for any JSON value.
#[derive(Clone, Copy, Debug, PartialEq, Eq)]
pub enum EncodeError {
    Unserializable,
}

/// The sanitization steps of decoding, from mildest to most aggressive.
#[derive(Clone, Copy, Debug, PartialEq, Eq)]
pub enum DecodeTier {
    /// The payload as stored.
    Direct,
    /// The payload without its zero bytes.
    ZerosStripped,
    /// The payload without zero bytes and without anything but printable
    /// ASCII, tab, line feed and carriage return.
    Sanitized,
}

/// A decoded value and the step at which its payload first parsed.
pub struct Decoded {
    pub value: serde_json::Value,
    pub tier: DecodeTier,
}

/// Bytes that survive the last sanitization step.
pub open spec fn is_text_byte(b: u8) -> bool {
    (32 <= b <= 126) || b == 9 || b == 10 || b == 13
}

/// `s` without its zero bytes, order kept.
pub open spec fn without_zeros(s: Seq<u8>) -> Seq<u8>
    decreases s.len(),
{
    if s.len() == 0 {
        s
    } else if s.last() != 0 {
        without_zeros(s.drop_last()).push(s.last())
    } else {
        without_zeros(s.drop_last())
    }
}

/// `s` with only its text bytes, order kept.
pub open spec fn text_only(s: Seq<u8>) -> Seq<u8>
    decreases s.len(),
{
    if s.len() == 0 {
        s
    } else if is_text_byte(s.last()) {
        text_only(s.drop_last()).push(s.last())
    } else {
        text_only(s.drop_last())
    }
}

/// The bytes that `tier` hands to the parser for `payload`.
pub open spec fn tier_bytes(payload: Seq<u8>, tier: DecodeTier) -> Seq<u8> {
    match tier {
        DecodeTier::Direct => payload,
        DecodeTier::ZerosStripped => without_zeros(payload),
        DecodeTier::Sanitized => text_only(without_zeros(payload)),
    }
}

/// The first step whose bytes parse, if any.
pub open spec fn first_tier(payload: Seq<u8>) -> Option<DecodeTier> {
    if json_accepts(tier_bytes(payload, DecodeTier::Direct)) {
        Some(DecodeTier::Direct)
    } else if json_accepts(tier_bytes(payload, DecodeTier::ZerosStripped)) {
        Some(DecodeTier::ZerosStripped)
    } else if json_accepts(tier_bytes(payload, DecodeTier::Sanitized)) {
        Some(DecodeTier::Sanitized)
    } else {
        None
    }
}

/// The step after `tier`, if any.
pub open spec fn next_tier_spec(tier: DecodeTier) -> Option<DecodeTier> {
    match tier {
        DecodeTier::Direct => Some(DecodeTier::ZerosStripped),
        DecodeTier::ZerosStripped => Some(DecodeTier::Sanitized),
        DecodeTier::Sanitized => None,
    }
}

proof fn lemma_without_zeros(s: Seq<u8>)
    ensures
        forall|i: int| 0 <= i < without_zeros(s).len() ==> #[trigger] without_zeros(s)[i] != 0,
    decreases s.len(),
{
    if s.len() > 0 {
        let t = without_zeros(s.drop_last());
        lemma_without_zeros(s.drop_last());
        assert forall|i: int| 0 <= i < without_zeros(s).len() implies #[trigger] without_zeros(s)[i] != 0 by {
            if i < t.len() {
                assert(without_zeros(s)[i] == t[i]);
            }
        }
    }
}

proof fn lemma_text_only(s: Seq<u8>)
    ensures
        forall|i: int| 0 <= i < text_only(s).len() ==> is_text_byte(#[trigger] text_only(s)[i]),
    decreases s.len(),
{
    if s.len() > 0 {
        let t = text_only(s.drop_last());
        lemma_text_only(s.drop_last());
        assert forall|i: int| 0 <= i < text_only(s).len() implies is_text_byte(#[trigger] text_only(s)[i]) by {
            if i < t.len() {
                assert(text_only(s)[i] == t[i]);
            }
        }
    }
}

/// The ladder only ever removes: the zero-stripped bytes hold no zero byte,
/// and the sanitized bytes hold nothing but text bytes, so neither zeros nor
/// control bytes come back at the last step.
pub proof fn lemma_tiers_only_strip(payload: Seq<u8>)
    ensures
        forall|i: int| 0 <= i < tier_bytes(payload, DecodeTier::ZerosStripped).len()
            ==> #[trigger] tier_bytes(payload, DecodeTier::ZerosStripped)[i] != 0,
        forall|i: int| 0 <= i < tier_bytes(payload, DecodeTier::Sanitized).len()
            ==> is_text_byte(#[trigger] tier_bytes(payload, DecodeTier::Sanitized)[i]),
{
    lemma_without_zeros(payload);
    lemma_text_only(without_zeros(payload));
}

/// Removes every zero byte of `b`.
pub fn strip_zero_bytes(b: &[u8]) -> (r: Vec<u8>)
    ensures
        r@ == without_zeros(b@),
{
    let mut r: Vec<u8> = Vec::new();
    let mut i: usize = 0;
    while i < b.len()
        invariant
            i <= b@.len(),
            r@ == without_zeros(b@.subrange(0, i as int)),
        decreases b@.len() - i,
    {
        assert(b@.subrange(0, i + 1).drop_last() == b@.subrange(0, i as int));
        if b[i] != 0 {
            r.push(b[i]);
        }
        i += 1;
    }
    assert(b@.subrange(0, b@.len() as int) == b@);
    r
}

/// Keeps only the printable ASCII bytes of `b`, with tab, line feed and
/// carriage return.
pub fn keep_text_bytes(b: &[u8]) -> (r: Vec<u8>)
    ensures
        r@ == text_only(b@),
{
    let mut r: Vec<u8> = Vec::new();
    let mut i: usize = 0;
    while i < b.len()
        invariant
            i <= b@.len(),
            r@ == text_only(b@.subrange(0, i as int)),
        decreases b@.len() - i,
    {
        assert(b@.subrange(0, i + 1).drop_last() == b@.subrange(0, i as int));
        let c = b[i];
        if (32 <= c && c <= 126) || c == 9 || c == 10 || c == 13 {
            r.push(c);
        }
        i += 1;
    }
    assert(b@.subrange(0, b@.len() as int) == b@);
    r
}

fn copy_bytes(b: &[u8]) -> (r: Vec<u8>)
    ensures
        r@ == b@,
{
    let mut r: Vec<u8> = Vec::new();
    let mut i: usize = 0;
    while i < b.len()
        invariant
            i <= b@.len(),
            r@ == b@.subrange(0, i as int),
        decreases b@.len() - i,
    {
        r.push(b[i]);
        i += 1;
    }
    assert(b@.subrange(0, b@.len() as int) == b@);
    r
}

/// The bytes that `tier` hands to the parser for `payload`.
pub fn sanitize(payload: &[u8], tier: DecodeTier) -> (r: Vec<u8>)
    ensures
        r@ == tier_bytes(payload@, tier),
{
    match tier {
        DecodeTier::Direct => copy_bytes(payload),
        DecodeTier::ZerosStripped => strip_zero_bytes(payload),
        DecodeTier::Sanitized => {
            let z = strip_zero_bytes(payload);
            keep_text_bytes(z.as_slice())
        },
    }
}

/// The step to try after `tier` fails, if any is left.
pub fn next_tier(tier: DecodeTier) -> (r: Option<DecodeTier>)
    ensures
        r == next_tier_spec(tier),
{
    match tier {
        DecodeTier::Direct => Some(DecodeTier::ZerosStripped),
        DecodeTier::ZerosStripped => Some(DecodeTier::Sanitized),
        DecodeTier::Sanitized => None,
    }
}

/// Decodes the payload of `raw` as JSON, trying the payload as stored, then
/// without zero bytes, then with only text bytes, and stopping at the first
/// step that parses.
pub fn decode_tiered(raw: &RawConfigValue) -> (r: Result<Decoded, DecodeError>)
    ensures
        r is Ok <==> first_tier(raw.bytes@) is Some,
        r matches Ok(d) ==> first_tier(raw.bytes@) == Some(d.tier),
        r matches Ok(d) ==> d.value == json_value_of(tier_bytes(raw.bytes@, d.tier)),
        r is Err ==> r == Err::<Decoded, DecodeError>(DecodeError::Unparseable),
{
    let mut tier = DecodeTier::Direct;
    loop
        invariant
            forall|t: DecodeTier|
                #![trigger tier_bytes(raw.bytes@, t)]
                (t == DecodeTier::Direct || (t == DecodeTier::ZerosStripped && tier == DecodeTier::Sanitized))
                    && t != tier ==> !json_accepts(tier_bytes(raw.bytes@, t)),
            tier == DecodeTier::ZerosStripped ==> !json_accepts(tier_bytes(raw.bytes@, DecodeTier::Direct)),
        decreases (match tier {
            DecodeTier::Direct => 2int,
            DecodeTier::ZerosStripped => 1int,
            DecodeTier::Sanitized => 0int,
        }),
    {
        let bytes = sanitize(raw.bytes.as_slice(), tier);
        match parse_json(bytes.as_slice()) {
            Ok(value) => {
                return Ok(Decoded { value, tier });
            },
            Err(_) => {},
        }
        match next_tier(tier) {
            Some(t) => {
                tier = t;
            },
            None => {
                return Err(DecodeError::Unparseable);
            },
        }
    }
}

/// Decodes the payload of `raw` as JSON; see `decode_tiered`.
pub fn parse_raw_value(raw: &RawConfigValue) -> (r: Result<serde_json::Value, DecodeError>)
    ensures
        r is Ok <==> first_tier(raw.bytes@) is Some,
        r matches Ok(v) ==> v == json_value_of(tier_bytes(raw.bytes@, first_tier(raw.bytes@)->Some_0)),
        r is Err ==> r == Err::<serde_json::Value, DecodeError>(DecodeError::Unparseable),
{
    match decode_tiered(raw) {
        Ok(d) => Ok(d.value),
        Err(e) => Err(e),
    }
}

/// A raw value that holds `bytes` under the type marker of `original`.
pub fn with_payload(bytes: Vec<u8>, original: &RawConfigValue) -> (r: RawConfigValue)
    ensures
        r.bytes@ == bytes@,
        r.type_tag == original.type_tag,
{
    RawConfigValue { bytes, type_tag: original.type_tag }
}

/// Encodes `json_value` as the payload of a raw value that keeps the type
/// marker of `original_raw_value`. Encoding a JSON value always succeeds.
pub fn create_raw_value_from_json(json_value: &serde_json::Value, original_raw_value: &RawConfigValue) -> (r: Result<RawConfigValue, EncodeError>)
    ensures
        r is Ok,
        r matches Ok(v) ==> v.type_tag == original_raw_value.type_tag,
{
    match serialize_json(json_value) {
        Ok(bytes) => Ok(with_payload(bytes, original_raw_value)),
        Err(_) => Err(EncodeError::Unserializable),
    }
}

} // verus!
