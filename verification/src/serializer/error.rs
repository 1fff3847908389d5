//! Serializer errors.

use vstd::prelude::*;

verus! {

/// Crate version for diagnostics.
pub fn version() -> (r: &'static str)
    ensures
        r@ == "0.1.0"@,
{
    "0.1.0"
}

/// Failure while normalizing, denormalizing, encoding, or decoding.
#[derive(Debug, Clone, PartialEq, Eq)]
pub enum SerializerError {
    /// No encoder or decoder supports the requested format.
    UnsupportedFormat {
        /// Format name (for example `json`).
        format: String,
    },
    /// No normalizer or denormalizer accepts the value or type.
    UnsupportedType {
        /// Format name being used.
        format: String,
        /// Detail about the missing handler.
        message: String,
    },
    /// Encoding or decoding the wire format failed.
    Codec {
        /// Underlying codec message.
        message: String,
    },
    /// Normalization or denormalization failed.
    Normalization {
        /// Underlying normalization message.
        message: String,
    },
}

/// The human-readable text of an error.
pub open spec fn serializer_error_text(e: SerializerError) -> Seq<char> {
    match e {
        SerializerError::UnsupportedFormat { format } => "unsupported format `"@ + format@ + "`"@,
        SerializerError::UnsupportedType { format, message } => "unsupported type for format `"@ + format@ + "`: "@ + message@,
        SerializerError::Codec { message } => "codec error: "@ + message@,
        SerializerError::Normalization { message } => "normalization error: "@ + message@,
    }
}

/// Whether `e` is the unsupported-format error for `format`.
pub open spec fn is_unsupported_format(e: SerializerError, format: Seq<char>) -> bool {
    e matches SerializerError::UnsupportedFormat { format: f } && f@ == format
}

impl SerializerError {
    /// The human-readable text of this error.
    pub fn describe(&self) -> (r: String)
        ensures
            r@ == serializer_error_text(*self),
    {
        let mut out = String::new();
        match self {
            SerializerError::UnsupportedFormat { format } => {
                out.append("unsupported format `");
                out.append(format.as_str());
                out.append("`");
            },
            SerializerError::UnsupportedType { format, message } => {
                out.append("unsupported type for format `");
                out.append(format.as_str());
                out.append("`: ");
                out.append(message.as_str());
            },
            SerializerError::Codec { message } => {
                out.append("codec error: ");
                out.append(message.as_str());
            },
            SerializerError::Normalization { message } => {
                out.append("normalization error: ");
                out.append(message.as_str());
            },
        }
        out
    }
}

} // verus!
