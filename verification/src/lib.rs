//! Position-addressed views over a FlexBuffers encoding, and the selection
//! steps that walk them.
//!
//! A FlexBuffers buffer holds a tree of values, each cell with its own type
//! tag. This library answers path queries on such a buffer without building
//! the tree: a [`value::FbValue`] points at one cell and decodes it when
//! asked, one level deep, and the steps of [`value_walker::ValueWalker`] take
//! a batch of views to the next batch. Nothing here writes to a buffer.
//!
//! - [`tag`]: the type tags and the variant each decodes to.
//! - [`value`]: views, map views, and what a view decodes to.
//! - [`number`]: numbers and their equality.
//! - [`value_walker`]: the selection steps and what holds of them.
//! - [`position`]: reading a cell's offset out of a reader's rendering.
//! - [`decoder`]: the calls into the `flexbuffers` crate, which are taken on
//!   trust.

pub mod decoder;
pub mod number;
pub mod position;
pub mod tag;
pub mod value;
pub mod value_walker;
