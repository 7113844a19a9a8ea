//! A sequential connection acceptor with line-oriented request framing,
//! together with a handful of small verified utilities.
//!
//! The core of the library is the request framer: given the bytes of a
//! request stream, it splits off the leading header block (the run of
//! non-empty lines up to the first empty line) and reports exactly how many
//! bytes of the stream belong to that block.  Around it stand a model of a
//! bound listener, an acceptor that hands out connections strictly one at a
//! time, and the error taxonomy for binding, accepting and line decoding.

pub mod acceptor;
pub mod decimal;
pub mod errors;
pub mod framer;
pub mod gui;
pub mod largest;
pub mod listener;
pub mod rect;
pub mod slices;
pub mod strings;
pub mod words;
