//! Buffered, incremental parsing over a byte source that delivers its data in
//! unpredictable pieces.
//!
//! A parser is run on the bytes that have accumulated; only when it reports
//! that they start a value and do not complete it are more bytes read. The
//! bytes that a parser used are consumed, the others stay for the next
//! parser.
//!
//! - `window`: the buffer, a block of storage with a range of unconsumed
//!   bytes, which is shifted to the front when room is needed and grows
//!   when that is not enough;
//! - `reader`: a source together with its window;
//! - `outcome`, `error`: what a parser reports, and what a parse fails with;
//! - `fill`: how many bytes a fill asks for;
//! - `driver`: the steps of a parse, decided one by one;
//! - `seek`: the seeks of the source that a seek of the reader takes;
//! - `run`, `laws`: a whole parse as a function of parser and source, and
//!   what holds of every one;
//! - `memory`: a source held in memory, and the parse over it.

pub mod driver;
pub mod error;
pub mod fill;
pub mod laws;
pub mod memory;
pub mod outcome;
pub mod reader;
pub mod run;
pub mod seek;
pub mod window;
