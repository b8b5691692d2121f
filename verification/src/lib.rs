//! Symbol extraction and resolution for Ruby code bases organised into packs.
//!
//! A file is walked once, by the strict walk of `parser` or by the
//! lightweight walk of `experimental`, both over the syntax tree of `nodes`.
//! The walk yields the references that the file makes and the constants that
//! it defines. A `constant_resolver` then tells for each reference which file
//! defines the constant it names, from the definitions of all files or from
//! the paths of the files alone (`zeitwerk`).

pub mod associations;
pub mod constant_resolver;
pub mod erb;
pub mod experimental;
pub mod local_references;
pub mod names;
pub mod nodes;
pub mod parser;
pub mod processed_file;
pub mod references;
pub mod span;
pub mod text;
pub mod zeitwerk;
