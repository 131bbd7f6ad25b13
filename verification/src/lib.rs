//! Cursor and position primitives for a regex matching engine: a uniform view
//! over search text that can be scanned either as decoded Unicode scalar
//! values or as raw bytes, with identical position bookkeeping in both modes.

pub mod decode;
pub mod input;
pub mod literals;
pub mod scalar;

pub use input::ByteInput;
pub use input::CharInput;
pub use input::Input;
pub use input::InputAt;
pub use literals::LiteralSearcher;
pub use scalar::Char;
