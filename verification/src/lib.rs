//! Conversion between the Z85 and Base64 binary-to-text encodings, in two
//! envelope forms: a bare encoded string carrying an explicit pad count, and
//! a data URL carrying a MIME type and an encoding marker.
//!
//! Z85 encodes 4-byte blocks as 5 characters, so byte buffers are padded with
//! zero bytes up to a multiple of 4 before encoding; the number of pad bytes
//! is appended to the encoded text after a colon, and stripped again after
//! decoding. Base64 (the standard padded alphabet) preserves length by
//! itself and needs no such field.

pub mod alphabets;
pub mod codec;
pub mod convert;
pub mod efficiency;
pub mod envelope;
pub mod errors;
pub mod options;
pub mod strutil;

pub use codec::decode_z85;
pub use codec::encode_z85;
pub use convert::base64_to_z85;
pub use convert::z85_to_base64;
pub use efficiency::get_encoding_efficiency;
pub use efficiency::EfficiencyReport;
pub use envelope::base64_to_z85_with_options;
pub use envelope::z85_to_base64_with_options;
pub use errors::ConvertError;
pub use options::ConversionOptions;
pub use options::DataType;
