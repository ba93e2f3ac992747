//! Extraction of people, events, times and places from classical Chinese
//! dynastic histories, with the extraction rules stated as contracts.

pub mod aggregate;
pub mod dataset;
pub mod event;
pub mod extract;
pub mod intext;
pub mod locate;
pub mod numeral;
pub mod order;
pub mod parser;
pub mod pattern;
pub mod person;
pub mod place;
pub mod query;
pub mod regime;
pub mod report;
pub mod scan;
pub mod scanner;
pub mod stats;
pub mod surname;
pub mod tally;
pub mod text;
pub mod timeline;
pub mod titles;
pub mod types;
pub mod words;
