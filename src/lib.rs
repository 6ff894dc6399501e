pub mod bits;
pub mod encoder;
pub mod error;
pub mod input;
pub mod layout;
pub mod versions;

pub use encoder::ErrorCorrectionLevel;
pub use encoder::QRData;
pub use error::QRError;
pub use input::InputMode;
pub use input::QRInput;
