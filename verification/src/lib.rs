//! Fixed-capacity heap arrays and single-value heap boxes.
//!
//! A [`HeapArray`] is a block of elements whose length changes only on an
//! explicit reallocation; a [`cbox::CBox`] holds exactly one value. Both are
//! described by mathematical views, and every operation carries a contract
//! over those views.

pub mod array;
pub mod block;
pub mod bytes;
pub mod cbox;
pub mod element;
pub mod ints;
pub mod iter;
pub mod laws;
pub mod raw;
pub mod text;
pub mod value;

pub use array::HeapArray;
pub use element::Element;
pub use iter::Iter;
pub use raw::box_slice;
pub use text::to_hex_string;
