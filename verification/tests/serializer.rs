use serenade::serializer::first_supporting;
use std::collections::BTreeMap;

use serde_json::Value;

use serenade::serializer::{
    deserialize_value, encode_toon_string, serde_supports_format, serialize_value, version,
    Decoder, Encoder, JsonDecoder, JsonEncoder, NormalizationContext, SerializerError,
    ToonDecoder, ToonEncoder, FORMAT_JSON, FORMAT_TOON,
};

type ProductDto = BTreeMap<String, String>;

fn json(text: &str) -> Value {
    serde_json::from_str(text).expect("literal JSON")
}

#[test]
fn version_is_semverish() {
    assert_ne!(version(), "");
}

#[test]
fn serde_bridge_json_roundtrip() {
    let mut dto = ProductDto::new();
    dto.insert("sku".to_owned(), "SKU-1".to_owned());
    dto.insert("price_cents".to_owned(), "1999".to_owned());
    let bytes = serialize_value(&dto, FORMAT_JSON).expect("serialize");
    let back: ProductDto = deserialize_value(&bytes, FORMAT_JSON).expect("deserialize");
    assert_eq!(back, dto);
    assert!(serde_supports_format("JSON"));
    assert!(!serde_supports_format("xml"));
}

#[test]
fn serde_bridge_rejects_unknown_format() {
    let err = serialize_value(&1_u32, "xml").expect_err("xml");
    assert!(matches!(err, SerializerError::UnsupportedFormat { .. }));
}

#[test]
fn json_encoder_decoder_roundtrip() {
    let value = json(r#"{"a": 1}"#);
    let bytes = JsonEncoder.encode(&value, FORMAT_JSON).expect("encode");
    let back = JsonDecoder.decode(&bytes, FORMAT_JSON).expect("decode");
    assert_eq!(back, value);
}

#[test]
fn json_codec_rejects_other_format() {
    let err = JsonEncoder.encode(&json("true"), "yaml").expect_err("yaml");
    assert!(matches!(err, SerializerError::UnsupportedFormat { .. }));
    let err = JsonDecoder.decode(b"{}", "yaml").expect_err("yaml");
    assert!(matches!(err, SerializerError::UnsupportedFormat { .. }));
}

#[test]
fn toon_codec_roundtrip() {
    let value = json(r#"{"sku": "HOODIE", "qty": 2}"#);
    let text = encode_toon_string(&value).expect("toon");
    assert!(text.contains("sku"));
    let bytes = ToonEncoder.encode(&value, "TOON").expect("encode");
    let back = ToonDecoder.decode(&bytes, FORMAT_TOON).expect("decode");
    assert_eq!(back, value);
    assert!(matches!(ToonEncoder.encode(&value, FORMAT_JSON), Err(SerializerError::UnsupportedFormat { .. })));
    assert!(matches!(ToonDecoder.decode(&[0xff], FORMAT_TOON), Err(SerializerError::Codec { .. })));
}

#[test]
fn normalization_context_attributes() {
    let mut ctx = NormalizationContext::new();
    ctx.set("groups", "api");
    assert_eq!(ctx.get("groups"), Some("api"));
    assert_eq!(ctx.get("missing"), None);
    ctx.set("groups", "admin");
    assert_eq!(ctx.get("groups"), Some("admin"));
}

#[test]
fn deserialize_value_codec_error_on_bad_json() {
    let err = deserialize_value::<ProductDto>(b"not-json", FORMAT_JSON).expect_err("bad");
    assert!(matches!(err, SerializerError::Codec { .. }));
}

#[test]
fn deserialize_value_rejects_type_mismatch() {
    let err = deserialize_value::<ProductDto>(br#"{"sku":1}"#, FORMAT_JSON).expect_err("type");
    assert!(matches!(err, SerializerError::Codec { .. }));
}

#[test]
fn deserialize_value_rejects_unknown_format() {
    let err = deserialize_value::<u32>(b"1", "xml").expect_err("xml");
    assert!(matches!(err, SerializerError::UnsupportedFormat { .. }));
}

#[test]
fn serializer_error_texts() {
    assert_eq!(SerializerError::UnsupportedFormat { format: "xml".to_owned() }.describe(), "unsupported format `xml`");
    assert_eq!(SerializerError::Codec { message: "m".to_owned() }.describe(), "codec error: m");
}

#[test]
fn first_supporting_picks_the_first_true_answer() {
    assert_eq!(first_supporting(&[]), None);
    assert_eq!(first_supporting(&[false, false]), None);
    assert_eq!(first_supporting(&[false, true, true]), Some(1));
}

#[test]
fn codecs_produce_the_outside_crates_bytes_and_values() {
    let value = json(r#"{"answer":42,"name":"x"}"#);
    let bytes = JsonEncoder.encode(&value, FORMAT_JSON).expect("json");
    assert_eq!(bytes, br#"{"answer":42,"name":"x"}"#.to_vec());
    let back = JsonDecoder.decode(&bytes, "JSON").expect("decode");
    assert_eq!(back, value);
    let toon = ToonEncoder.encode(&json(r#"{"answer":42}"#), FORMAT_TOON).expect("toon");
    assert_eq!(toon, b"answer: 42".to_vec());
    assert_eq!(encode_toon_string(&json(r#"{"answer":42}"#)).expect("toon"), "answer: 42");
    assert_eq!(ToonDecoder.decode(b"answer: 42\n", FORMAT_TOON).expect("decode"), json(r#"{"answer":42}"#));
}
