//! Generation of `SystemDesc` implementations.
//!
//! A structure definition comes in as plain data ([`ast`]). Its fields are
//! classified ([`classify`]) and its `#[system_desc(..)]` attributes are read
//! ([`attributes`]). From these the source text of a descriptor type, of its
//! constructor and of the `SystemDesc` implementation that builds the system
//! is written ([`system_desc`]). The few calls into other crates stand in
//! [`foreign`].

pub mod ast;
pub mod attributes;
pub mod classify;
pub mod foreign;
pub mod system_desc;
pub mod text;
