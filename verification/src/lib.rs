//! A two-pass assembler for a small 8-bit machine with a 16-bit address space.
//!
//! Source text is scanned into tokens, the tokens are grouped into logical
//! lines, a first pass over the lines records the address of every label, and
//! a second pass encodes one byte per instruction line into a zero-filled
//! image of 65536 bytes.
//!
//! Every stage has a mathematical model (a `spec fn`) and the executable code
//! is proved to compute exactly that model.

pub mod chars;
pub mod token;
pub mod error;
pub mod lexer;
pub mod spelling;
pub mod labels;
pub mod lines;
pub mod opcode;
pub mod encoder;
pub mod assembler;
pub mod lemmas;

pub use assembler::{assemble, assemble_bytes};
pub use encoder::{encode, encode_line, get_label, resolve_labels, Encoding};
pub use error::AsmError;
pub use labels::LabelTable;
pub use lexer::{parse_label, tokenize};
pub use lines::group_lines;
pub use token::{Label, Nibble, Token};
