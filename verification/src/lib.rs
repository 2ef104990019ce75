//! Bilingual text tables for Kingdom Come: Deliverance.
//!
//! A language archive holds one text table per managed file: rows of cells, of which
//! the first cell is the entry identifier and the third cell the text. This library
//! parses such tables, keeps them by language and file, and merges the tables of a
//! primary and a secondary language into one table per file, entry by entry, under
//! rules that depend on the file and on the entry. It also holds the decisions around
//! that: reading the list of language pairs, which languages a run has to read and
//! when a pair can be processed, and where the game is installed.
//!
//! The library reads and writes no files. Its callers hand it the content of archive
//! members and what they found on the machine, and write what it gives back.
//!
//! Every function is verified against its contract. What is taken on trust of the
//! crates `indexmap` and `quick-xml`, of `std::str::from_utf8` and of `std::io::Error`
//! stands in `index_map`, `xml_reader` and `bilingual_generator_errors`, each item with
//! a comment that says what is claimed of it.

pub mod bilingual_generator;
pub mod bilingual_generator_errors;
pub mod bilingual_set;
pub mod corpus;
pub mod index_map;
pub mod merge_rules;
pub mod pair_processor;
pub mod path_finder;
pub mod pipeline;
pub mod table_parser;
pub mod text;
pub mod text_table;
pub mod xml_reader;
