//! Readers for bilingual translation-interchange documents.
//!
//! Term bases, translation memories, localization-interchange files and
//! bilingual spreadsheets are brought into one document model of segments:
//! ordered runs of text and inline markup. The segments can then be flattened
//! to plain text, searched, and counted per language.
//!
//! A document is first read into tokens ([`token`]). The segment reader
//! ([`inline`]) turns the tokens of translatable content into nodes
//! ([`segment`]), and one record assembler for each format ([`tbx`], [`tmx`],
//! [`xliff`]) builds the records around them, token by token ([`assemble`]).
//! Tables come as rows of cells ([`xlsx`]). [`reader`] chooses the reader for
//! a file, [`search`] and [`rendition`] look for text in records, and
//! [`meta`] counts records by language.
//!
//! Nothing here opens a file: the readers take the text, the archive entry or
//! the rows that were read for them. What is taken on trust from the
//! tokenizer, the pattern matcher and the standard library stands in small
//! functions without a proof, each next to its use, with a note on what is
//! claimed of it.

pub mod assemble;
pub mod attributes;
pub mod error;
pub mod inline;
pub mod rendition;
pub mod search;
pub mod meta;
pub mod reader;
pub mod segment;
pub mod tbx;
pub mod text;
pub mod tmx;
pub mod xliff;
pub mod xlsx;
pub mod token;

pub use attributes::{get_attributes, Attributes};
pub use error::ParseError;
pub use meta::{GetMeta, MetaInfo};
pub use reader::{
    kind_of_path, read_file_with_parser, FileKind, Input, IsTranslationXML, TranslationFile,
};
pub use search::{search_in_transunits, MatchResult, SearchInFile, SearchString};
pub use segment::{extract_text, is_text_node, SegNode};
