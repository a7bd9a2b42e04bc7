//! Tagged base64: a short mnemonic tag, a `~` delimiter, and a URL-safe
//! base64 payload that carries a one-byte CRC-8 checksum in front of the
//! data, so that binary values can be shown, copied and put in URLs safely.

pub mod b64;
pub mod checksum;
pub mod laws;
pub mod tagged;

pub use tagged::{to_string, JsTaggedBase64, TB64Error, TaggedBase64, TB64_DELIM};
