//! Struct layout by declared offsets.
//!
//! A declaration lists fields in order; some of them carry the absolute byte
//! offset at which they must sit. This crate turns such a declaration into an
//! ordinary struct whose field list holds, before every field with an offset,
//! a byte array that fills the gap. The length of each array is kept as a
//! symbolic expression over `size_of`, so that the compiler of the resulting
//! struct, which knows the sizes, does the arithmetic.
//!
//! The resulting struct has its fields at the declared offsets only when it is
//! laid out in declaration order without implicit padding (`repr(C)` with
//! suitably aligned fields, or `repr(packed)`).
//!
//! - [`fields`] and [`declaration`] hold the declaration as it was read from
//!   a token stream. Reading is the caller's: `syn` panics on literals that
//!   it does not know.
//! - [`layout`] walks the field list and synthesizes the padding
//!   ([`padding`], [`naming`]).
//! - [`laws`] proves where the fields of a layout sit, whatever the sizes of
//!   their types.
//! - [`render`] writes the result down as a `syn::ItemStruct`.
//! - [`syntax`] declares what is taken from `syn`, `quote` and `proc_macro2`.

pub mod naming;
pub mod syntax;
pub mod fields;
pub mod padding;
pub mod layout;
pub mod declaration;
pub mod laws;
pub mod render;

pub use declaration::{AssembledStruct, PaddedStruct};
pub use fields::{FieldWithPadding, PaddedStructField, StructField};
pub use layout::{lay_out, AssembledField, OffsetOrderError};
pub use naming::generate_padding_name;
pub use padding::{generate_padding, PaddingField, SizeExpr};
pub use render::{generate, pad_struct, GenerationError};
