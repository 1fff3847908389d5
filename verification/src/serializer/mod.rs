//! DTO serialization support: the normalization context, JSON and TOON
//! codecs, and the serde bridge.

pub mod codec;
pub mod context;
pub mod error;

pub use codec::{
    deserialize_value, encode_toon_string, first_supporting, serde_supports_format, serialize_value, Decoder,
    Encoder, JsonDecoder, JsonEncoder, ToonDecoder, ToonEncoder, FORMAT_JSON, FORMAT_TOON,
};
pub use context::NormalizationContext;
pub use error::{version, SerializerError};
