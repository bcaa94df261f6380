//! Hierarchical, namespaced tags on media files and a small boolean
//! query language to select files by their tags.
//!
//! A [`Tag`] is a label such as `nature:tree/person:john`; a criteria
//! matches it by its path, namespaces set aside. An expression such as
//! `tree AND (john OR NOT oak)` is compiled by [`filter::parse`] into a
//! postfix program, which [`evaluate::evaluate`] runs against the tags of
//! a file. A [`Media`] holds what is known of one file in memory; adding
//! and removing tags change that, and [`Media::save`] writes the tags into
//! the metadata block of the file.
//!
//! The library never touches the disk. Callers look at the file system
//! and hand over what they found: a [`media::DiskReport`] to load or
//! refresh a file, a modification time to test for staleness, a
//! [`walk::Visit`] for each path of a directory walk.
//!
//! Pattern matching is done by the `regex` crate and the metadata block is
//! held by the `xmp_toolkit` crate. What these do is trusted and stated in
//! [`pattern`] and [`xmp`], as are a few primitives of the standard library
//! in [`text`] and the comparison of two times in [`media`]; everything
//! else is proved.

pub mod compile_laws;
pub mod error;
pub mod evaluate;
pub mod evaluate_laws;
pub mod filter;
pub mod media;
pub mod pattern;
pub mod query;
pub mod tag;
pub mod tag_list;
pub mod text;
pub mod walk;
pub mod xmp;

pub use crate::error::TagError;
pub use crate::media::Media;
pub use crate::query::compile_and_select;
pub use crate::tag::Tag;
