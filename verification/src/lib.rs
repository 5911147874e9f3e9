//! A pull-based byte-stream tokenizer.
//!
//! A [`lexer::Lexer`] owns a byte buffer and a cursor; each call to
//! [`lexer::Lexer::next`] classifies the bytes at the cursor, consumes them,
//! and returns one [`token::Token`].  The whole classification is specified by
//! the spec-level scanner in [`model`], and the stream-wide guarantees
//! (tiling of the buffer, termination, halt-on-invalid) are proved in
//! [`laws`].

pub mod model;
pub mod token;
pub mod lexer;
pub mod laws;

pub use lexer::Lexer;
pub use token::Token;
pub use token::TokenKind;
