//! Outer zip ("zip longest") over two pull-based producers.
//!
//! [`ZipOption`] pairs the items of two producers position by position and
//! goes on until both are drained, putting `None` in the slot of the side
//! that ran out first.

pub mod lemmas;
pub mod pairing;
pub mod producer;
pub mod slice_producer;
pub mod zip_option;

pub use producer::{BackProducer, Producer};
pub use slice_producer::SliceProducer;
pub use zip_option::{GetZipOption, ZipOption};
