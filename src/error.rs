use vstd::prelude::*;

verus! {

#[verifier::external_type_specification]
#[verifier::external_body]
pub struct ExIoError(std::io::Error);

#[verifier::external_type_specification]
#[verifier::external_body]
pub struct ExUtf8Error(std::str::Utf8Error);

#[verifier::external_type_specification]
#[verifier::external_body]
pub struct ExParseIntError(std::num::ParseIntError);

#[verifier::external_type_specification]
#[verifier::external_body]
pub struct ExImageError(image::ImageError);

/// The ways in which reading or rendering a PDF can fail.
#[derive(Debug)]
pub enum PDF2ImageError {
    /// Spawning a tool, feeding it or waiting for it failed.
    Io(std::io::Error),
    /// Text expected from a tool was not valid UTF-8.
    Utf8(std::str::Utf8Error),
    /// An integer could not be parsed.
    ParseInt(std::num::ParseIntError),
    /// A tool's output was not a decodable image.
    ImageError(image::ImageError),
    /// The options builder was left in an inconsistent state.
    RenderOptionsBuilder(String),
    /// `pdfinfo` reported no usable `Pages:` line.
    UnableToExtractPageCount,
    /// `pdfinfo` reported no usable `Encrypted:` line.
    UnableToExtractEncryptionStatus,
    /// The PDF is encrypted and the options carry no password.
    NoPasswordForEncryptedPDF,
}

} // verus!
