//! Rendering of DNS resource records as aligned, optionally colored text
//! lines, and the reading of the command line that asks for them.
//!
//! A [`record::ResourceRecord`] and an [`config::OutputConfig`] go into a
//! [`format::RecordFormatter`], whose `format` gives the line: the record
//! type, the name, the time to live and the record data, in this order.

pub mod cli;
pub mod config;
pub mod duration;
pub mod error;
pub mod escape;
pub mod format;
pub mod palette;
pub mod record;
pub mod text;
