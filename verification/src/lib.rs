//! A zero-copy lexer for the primitive tokens of JSON text held in a byte slice.
pub mod ascii;
pub mod error;
pub mod escape;
pub mod lexer;
pub mod num;
pub mod offset;
pub mod read;
pub mod slicelexer;
pub mod text;

pub use escape::Escape;
pub use lexer::Lexer;
pub use num::NumParts;
pub use offset::Offset;
pub use read::Read;
pub use slicelexer::SliceLexer;
