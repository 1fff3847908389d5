//! Format codecs between the intermediate JSON value and bytes.

use vstd::prelude::*;

use crate::serializer::error::{is_unsupported_format, SerializerError};
use crate::text::{chars_eq_ignore_ascii_case, chars_of, eq_ignore_ascii_case, utf8_bytes, utf8_encode};

verus! {

/// The intermediate value codecs encode and decode.
#[verifier::external_type_specification]
#[verifier::external_body]
pub struct ExJsonValue(serde_json::Value);

/// JSON format name used by the built-in codecs.
pub const FORMAT_JSON: &'static str = "json";

/// TOON v4.1 format name.
pub const FORMAT_TOON: &'static str = "toon";

/// Whether `format` names `name`, ignoring ASCII case.
pub open spec fn names_format(format: Seq<char>, name: Seq<char>) -> bool {
    eq_ignore_ascii_case(format, name)
}

/// Whether `format` names `name`, ignoring ASCII case.
fn format_is(format: &str, name: &str) -> (r: bool)
    ensures
        r == names_format(format@, name@),
{
    let f = chars_of(format);
    let n = chars_of(name);
    chars_eq_ignore_ascii_case(f.as_slice(), n.as_slice())
}

/// The error for an unsupported `format`.
fn unsupported(format: &str) -> (r: SerializerError)
    ensures
        is_unsupported_format(r, format@),
{
    SerializerError::UnsupportedFormat { format: format.to_owned() }
}

/// The bytes `serde_json::to_vec` writes for `v`: compact JSON, members in
/// the map's order.
pub uninterp spec fn json_value_bytes(v: serde_json::Value) -> Seq<u8>;

/// The value `serde_json::from_slice` reads from `bytes` when they are one
/// JSON value.
pub uninterp spec fn json_value_of(bytes: Seq<u8>) -> serde_json::Value;

/// What `reddb_io_toon::encode` gives for `v` converted with
/// `Value::from_json_value`: the TOON text, or the error's text.
pub uninterp spec fn toon_encoded(v: serde_json::Value) -> Result<Seq<char>, Seq<char>>;

/// The value `std::str::from_utf8` then `reddb_io_toon::decode`, converted
/// with `to_json_value`, reads from `bytes` when they decode.
pub uninterp spec fn toon_value_of(bytes: Seq<u8>) -> serde_json::Value;

/// `serde_json::to_vec`, keeping the error's text. Writing a `Value` into a
/// `Vec` cannot fail: its map keys are strings and its numbers finite.
#[verifier::external_body]
fn json_to_bytes(data: &serde_json::Value) -> (r: Result<Vec<u8>, String>)
    ensures
        r is Ok && r->Ok_0@ == json_value_bytes(*data),
{
    serde_json::to_vec(data).map_err(|e| e.to_string())
}

/// The text of the error `serde_json::from_slice` reports for `bytes` when
/// they are not one JSON value, or `None` when they are.
pub uninterp spec fn json_parse_error(bytes: Seq<u8>) -> Option<Seq<char>>;

/// The text of the error `std::str::from_utf8` then `reddb_io_toon::decode`
/// reports for `bytes`, or `None` when they decode.
pub uninterp spec fn toon_decode_error(bytes: Seq<u8>) -> Option<Seq<char>>;

/// The error's text of a failed decode.
pub open spec fn error_text<T>(r: Result<T, String>) -> Option<Seq<char>> {
    match r {
        Ok(_) => None,
        Err(m) => Some(m@),
    }
}

/// `serde_json::from_slice`, keeping the error's text.
#[verifier::external_body]
pub(crate) fn json_from_bytes(data: &[u8]) -> (r: Result<serde_json::Value, String>)
    ensures
        error_text(r) == json_parse_error(data@),
        r is Ok ==> r->Ok_0 == json_value_of(data@),
{
    serde_json::from_slice(data).map_err(|e| e.to_string())
}

/// The text of a result, or of its error.
pub open spec fn text_result(r: Result<String, String>) -> Result<Seq<char>, Seq<char>> {
    match r {
        Ok(t) => Ok(t@),
        Err(m) => Err(m@),
    }
}

/// `reddb_io_toon::encode` of the value converted with `Value::from_json_value`,
/// keeping the error's text. The encoder's `expect` calls guard its own
/// checks (depth validated before shape detection, rows found by shape
/// detection); no value reaches them.
#[verifier::external_body]
fn toon_to_text(data: &serde_json::Value) -> (r: Result<String, String>)
    ensures
        text_result(r) == toon_encoded(*data),
{
    reddb_io_toon::encode(&reddb_io_toon::Value::from_json_value(data.clone())).map_err(|e| e.to_string())
}

/// `std::str::from_utf8`, then `reddb_io_toon::decode` converted with
/// `to_json_value`, keeping the error's text. The decoder runs its grammar
/// on a scoped thread with a large stack, and panics when the system cannot
/// start that thread: what happens then rests on the machine, not on `data`.
#[verifier::external_body]
fn toon_from_bytes(data: &[u8]) -> (r: Result<serde_json::Value, String>)
    ensures
        error_text(r) == toon_decode_error(data@),
        r is Ok ==> r->Ok_0 == toon_value_of(data@),
{
    let text = std::str::from_utf8(data).map_err(|e| e.to_string())?;
    reddb_io_toon::decode(text).map(|v| v.to_json_value()).map_err(|e| e.to_string())
}

/// Encodes an intermediate value into bytes for a format.
pub trait Encoder {
    /// Whether this encoder may answer `r` when asked whether it handles
    /// `format`. The default admits every answer: an encoder that keeps it
    /// claims nothing.
    closed spec fn may_support(&self, format: Seq<char>, r: bool) -> bool {
        true
    }

    /// Whether this encoder may answer `r` to an encode for `format`. The
    /// default admits every answer.
    closed spec fn may_encode(&self, data: serde_json::Value, format: Seq<char>, r: Result<Vec<u8>, SerializerError>) -> bool {
        true
    }

    /// Whether this encoder handles `format`.
    fn supports(&self, format: &str) -> (r: bool)
        ensures
            self.may_support(format@, r),
    ;

    /// Encodes `data` for `format`.
    fn encode(&self, data: &serde_json::Value, format: &str) -> (r: Result<Vec<u8>, SerializerError>)
        ensures
            self.may_encode(*data, format@, r),
    ;
}

/// Decodes bytes into an intermediate value for a format.
pub trait Decoder {
    /// Whether this decoder may answer `r` when asked whether it handles
    /// `format`. The default admits every answer: a decoder that keeps it
    /// claims nothing.
    closed spec fn may_support(&self, format: Seq<char>, r: bool) -> bool {
        true
    }

    /// Whether this decoder may answer `r` to a decode of `data` for
    /// `format`. The default admits every answer.
    closed spec fn may_decode(&self, data: Seq<u8>, format: Seq<char>, r: Result<serde_json::Value, SerializerError>) -> bool {
        true
    }

    /// Whether this decoder handles `format`.
    fn supports(&self, format: &str) -> (r: bool)
        ensures
            self.may_support(format@, r),
    ;

    /// Decodes `data` for `format`.
    fn decode(&self, data: &[u8], format: &str) -> (r: Result<serde_json::Value, SerializerError>)
        ensures
            self.may_decode(data@, format@, r),
    ;
}

/// Whether `r` is what a codec for format `name` answers on an encode or a
/// decode for `format` whose codec work gives `done`: an unsupported-format
/// error for another format.
pub open spec fn codec_answer<T>(name: Seq<char>, format: Seq<char>, r: Result<T, SerializerError>, done: bool) -> bool {
    if names_format(format, name) {
        done
    } else {
        r matches Err(e) && is_unsupported_format(e, format)
    }
}

/// Whether `r` is the outcome of a decode whose parser reported `error`:
/// the parsed `value` when it reported none, else the codec error with its
/// text.
pub open spec fn decoded_as(r: Result<serde_json::Value, SerializerError>, error: Option<Seq<char>>, value: serde_json::Value) -> bool {
    match error {
        None => r == Ok::<serde_json::Value, SerializerError>(value),
        Some(m) => r matches Err(SerializerError::Codec { message }) && message@ == m,
    }
}

/// Whether `r` is what an encode whose encoder gave `encoded` answers: its
/// text as UTF-8 bytes, or the codec error carrying the encoder's message.
pub open spec fn encoded_as(r: Result<Vec<u8>, SerializerError>, encoded: Result<Seq<char>, Seq<char>>) -> bool {
    match encoded {
        Ok(t) => r matches Ok(b) && b@ == utf8_encode(t),
        Err(m) => r matches Err(SerializerError::Codec { message }) && message@ == m,
    }
}

/// The first index whose answer is `true`: the codec, normalizer or
/// denormalizer that handles a request when each was asked in order whether
/// it supports it; `None` when none does.
pub fn first_supporting(answers: &[bool]) -> (r: Option<usize>)
    ensures
        match r {
            Some(i) => i < answers@.len() && answers@[i as int] && forall|j: int| 0 <= j < i ==> !answers@[j],
            None => forall|j: int| 0 <= j < answers@.len() ==> !answers@[j],
        },
{
    let mut i: usize = 0;
    while i < answers.len()
        invariant
            0 <= i <= answers@.len(),
            forall|j: int| 0 <= j < i ==> !answers@[j],
        decreases answers@.len() - i,
    {
        if answers[i] {
            return Some(i);
        }
        i = i + 1;
    }
    None
}

/// The codec error carrying `message`.
fn codec_error(message: String) -> (r: SerializerError)
    ensures
        r matches SerializerError::Codec { message: m } && m@ == message@,
{
    SerializerError::Codec { message }
}

/// JSON encoder.
#[derive(Debug, Default, Clone, Copy)]
pub struct JsonEncoder;

impl Encoder for JsonEncoder {
    open spec fn may_support(&self, format: Seq<char>, r: bool) -> bool {
        r == names_format(format, FORMAT_JSON@)
    }

    open spec fn may_encode(&self, data: serde_json::Value, format: Seq<char>, r: Result<Vec<u8>, SerializerError>) -> bool {
        codec_answer(FORMAT_JSON@, format, r, r matches Ok(b) && b@ == json_value_bytes(data))
    }

    fn supports(&self, format: &str) -> (r: bool)
        ensures
            r == names_format(format@, FORMAT_JSON@),
    {
        format_is(format, FORMAT_JSON)
    }

    fn encode(&self, data: &serde_json::Value, format: &str) -> (r: Result<Vec<u8>, SerializerError>)
        ensures
            !names_format(format@, FORMAT_JSON@) ==> (r matches Err(e) && is_unsupported_format(e, format@)),
            names_format(format@, FORMAT_JSON@) ==> (r matches Ok(b) && b@ == json_value_bytes(*data)),
    {
        if !self.supports(format) {
            return Err(unsupported(format));
        }
        match json_to_bytes(data) {
            Ok(bytes) => Ok(bytes),
            Err(m) => Err(codec_error(m)),
        }
    }
}

/// JSON decoder.
#[derive(Debug, Default, Clone, Copy)]
pub struct JsonDecoder;

impl Decoder for JsonDecoder {
    open spec fn may_support(&self, format: Seq<char>, r: bool) -> bool {
        r == names_format(format, FORMAT_JSON@)
    }

    open spec fn may_decode(&self, data: Seq<u8>, format: Seq<char>, r: Result<serde_json::Value, SerializerError>) -> bool {
        codec_answer(FORMAT_JSON@, format, r, decoded_as(r, json_parse_error(data), json_value_of(data)))
    }

    fn supports(&self, format: &str) -> (r: bool)
        ensures
            r == names_format(format@, FORMAT_JSON@),
    {
        format_is(format, FORMAT_JSON)
    }

    fn decode(&self, data: &[u8], format: &str) -> (r: Result<serde_json::Value, SerializerError>)
        ensures
            !names_format(format@, FORMAT_JSON@) ==> (r matches Err(e) && is_unsupported_format(e, format@)),
            names_format(format@, FORMAT_JSON@) ==> decoded_as(r, json_parse_error(data@), json_value_of(data@)),
    {
        if !self.supports(format) {
            return Err(unsupported(format));
        }
        match json_from_bytes(data) {
            Ok(v) => Ok(v),
            Err(m) => Err(codec_error(m)),
        }
    }
}

/// TOON v4.1 encoder.
#[derive(Debug, Default, Clone, Copy)]
pub struct ToonEncoder;

impl Encoder for ToonEncoder {
    open spec fn may_support(&self, format: Seq<char>, r: bool) -> bool {
        r == names_format(format, FORMAT_TOON@)
    }

    open spec fn may_encode(&self, data: serde_json::Value, format: Seq<char>, r: Result<Vec<u8>, SerializerError>) -> bool {
        codec_answer(FORMAT_TOON@, format, r, encoded_as(r, toon_encoded(data)))
    }

    fn supports(&self, format: &str) -> (r: bool)
        ensures
            r == names_format(format@, FORMAT_TOON@),
    {
        format_is(format, FORMAT_TOON)
    }

    fn encode(&self, data: &serde_json::Value, format: &str) -> (r: Result<Vec<u8>, SerializerError>)
        ensures
            !names_format(format@, FORMAT_TOON@) ==> (r matches Err(e) && is_unsupported_format(e, format@)),
            names_format(format@, FORMAT_TOON@) ==> encoded_as(r, toon_encoded(*data)),
    {
        if !self.supports(format) {
            return Err(unsupported(format));
        }
        match toon_to_text(data) {
            Ok(text) => Ok(utf8_bytes(chars_of(text.as_str()).as_slice())),
            Err(m) => Err(codec_error(m)),
        }
    }
}

/// TOON v4.1 decoder.
#[derive(Debug, Default, Clone, Copy)]
pub struct ToonDecoder;

impl Decoder for ToonDecoder {
    open spec fn may_support(&self, format: Seq<char>, r: bool) -> bool {
        r == names_format(format, FORMAT_TOON@)
    }

    open spec fn may_decode(&self, data: Seq<u8>, format: Seq<char>, r: Result<serde_json::Value, SerializerError>) -> bool {
        codec_answer(FORMAT_TOON@, format, r, decoded_as(r, toon_decode_error(data), toon_value_of(data)))
    }

    fn supports(&self, format: &str) -> (r: bool)
        ensures
            r == names_format(format@, FORMAT_TOON@),
    {
        format_is(format, FORMAT_TOON)
    }

    fn decode(&self, data: &[u8], format: &str) -> (r: Result<serde_json::Value, SerializerError>)
        ensures
            !names_format(format@, FORMAT_TOON@) ==> (r matches Err(e) && is_unsupported_format(e, format@)),
            names_format(format@, FORMAT_TOON@) ==> decoded_as(r, toon_decode_error(data@), toon_value_of(data@)),
    {
        if !self.supports(format) {
            return Err(unsupported(format));
        }
        match toon_from_bytes(data) {
            Ok(v) => Ok(v),
            Err(m) => Err(codec_error(m)),
        }
    }
}

/// The value as UTF-8 TOON text, for LLM prompts.
pub fn encode_toon_string(data: &serde_json::Value) -> (r: Result<String, SerializerError>)
    ensures
        match toon_encoded(*data) {
            Ok(t) => r matches Ok(s) && s@ == t,
            Err(m) => r matches Err(SerializerError::Codec { message }) && message@ == m,
        },
{
    match toon_to_text(data) {
        Ok(text) => Ok(text),
        Err(m) => Err(codec_error(m)),
    }
}

/// Whether the serde bridge handles `format` (JSON only).
pub fn serde_supports_format(format: &str) -> (r: bool)
    ensures
        r == names_format(format@, FORMAT_JSON@),
{
    format_is(format, FORMAT_JSON)
}

/// `serde_json::to_value`, keeping the error's text.
#[verifier::external_body]
fn to_json_value<T: serde::Serialize>(value: &T) -> (r: Result<serde_json::Value, String>) {
    serde_json::to_value(value).map_err(|e| e.to_string())
}

/// `serde_json::from_value`, keeping the error's text.
#[verifier::external_body]
fn from_json_value<T: serde::de::DeserializeOwned>(value: serde_json::Value) -> (r: Result<T, String>) {
    serde_json::from_value(value).map_err(|e| e.to_string())
}

/// Serializes `value` for `format` through serde (JSON only): a serde
/// failure or an unsupported format is an error.
pub fn serialize_value<T: serde::Serialize>(value: &T, format: &str) -> (r: Result<Vec<u8>, SerializerError>)
    ensures
        r matches Err(e) ==> (e is Codec || is_unsupported_format(e, format@)),
        r is Ok ==> names_format(format@, FORMAT_JSON@),
        !names_format(format@, FORMAT_JSON@) ==> r is Err,
        r matches Ok(b) ==> exists|v: serde_json::Value| b@ == #[trigger] json_value_bytes(v),
{
    let data = match to_json_value(value) {
        Ok(v) => v,
        Err(m) => return Err(codec_error(m)),
    };
    JsonEncoder.encode(&data, format)
}

/// Deserializes `data` for `format` through serde (JSON only): an
/// unsupported format, bytes that are not JSON, or a value of another shape
/// is an error.
pub fn deserialize_value<T: serde::de::DeserializeOwned>(data: &[u8], format: &str) -> (r: Result<T, SerializerError>)
    ensures
        !names_format(format@, FORMAT_JSON@) ==> (r matches Err(e) && is_unsupported_format(e, format@)),
        names_format(format@, FORMAT_JSON@) ==> (r is Ok || r matches Err(SerializerError::Codec { .. })),
        names_format(format@, FORMAT_JSON@) && json_parse_error(data@) is Some ==> (r matches Err(
            SerializerError::Codec { message },
        ) && json_parse_error(data@) == Some(message@)),
{
    let value = match JsonDecoder.decode(data, format) {
        Ok(v) => v,
        Err(e) => return Err(e),
    };
    match from_json_value(value) {
        Ok(t) => Ok(t),
        Err(m) => Err(codec_error(m)),
    }
}

} // verus!
