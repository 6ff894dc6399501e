use vstd::prelude::*;
use vstd::string::*;

verus! {

/// Errors returned by the classifier and the encoder.
#[derive(Debug)]
pub enum QRError {
    /// The content is empty.
    InvalidInput(String),
    /// The content is longer than its mode or the chosen level allows.
    InvalidLength(String),
    /// A character outside the alphabet of the chosen mode reached the packer.
    EncodingError(String),
    /// Final data was asked for while no version is resolved.
    InvalidVersion(String),
}

impl QRError {
    /// The error as a line of text: its kind, then its detail.
    pub fn message(&self) -> (r: String)
        ensures
            self matches QRError::InvalidInput(m) ==> r@ == "Invalid input: "@ + m@,
            self matches QRError::InvalidLength(m) ==> r@ == "Invalid length: "@ + m@,
            self matches QRError::EncodingError(m) ==> r@ == "Encoding error: "@ + m@,
            self matches QRError::InvalidVersion(m) ==> r@ == "Invalid version: "@ + m@,
    {
        match self {
            QRError::InvalidInput(msg) => String::from_str("Invalid input: ").concat(
                msg.as_str(),
            ),
            QRError::InvalidLength(msg) => String::from_str("Invalid length: ").concat(
                msg.as_str(),
            ),
            QRError::EncodingError(msg) => String::from_str("Encoding error: ").concat(msg.as_str()),
            QRError::InvalidVersion(msg) => String::from_str("Invalid version: ").concat(
                msg.as_str(),
            ),
        }
    }
}

} // verus!
