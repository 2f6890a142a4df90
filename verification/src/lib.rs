//! Memory primitives for programs that run without a heap: a bump-pointer
//! [`Arena`] that carves regions out of one backing block, and a
//! fixed-capacity byte [`Buffer`] with read and write cursors.

pub mod arena;
pub mod buffer;
pub mod layout;
pub mod ring;

pub use arena::Arena;
pub use buffer::Buffer;
pub use layout::{Bump, Request};
pub use ring::Ring;
