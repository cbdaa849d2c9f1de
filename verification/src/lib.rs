//! A fixed-capacity set of small unsigned integers, stored as a packed bitmap.
//!
//! A `BitmapSet<SIZE>` holds values in `[0, 8 * SIZE)`, one bit each, in
//! `SIZE` bytes, for `SIZE` from 1 to 32. The value `v` lives in byte `v / 8`
//! under the mask `1 << (v % 8)`. The view of a set is the mathematical set of
//! its members; every operation states what it does to the view and to the
//! bytes.

pub mod bits;
pub mod bulk;
pub mod fmt;
pub mod iter;
pub mod laws;
pub mod render;
pub mod set;

pub use iter::Iter;
pub use set::BitmapSet;
