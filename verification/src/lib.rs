//! Parsing and manipulation of the formatted text output ("F06" files) of
//! Nastran-like finite element solvers, with verified contracts: a one-pass
//! line parser with block decoders, data blocks that can be merged, sorted,
//! compared and extracted from, and the conversion of parsed files into a
//! fixed-width CSV layout.

pub mod text;

pub mod elements;
pub mod blocktypes;
pub mod flavour;
pub mod geometry;
pub mod indexing;
pub mod order;
pub mod indexmap;
pub mod numbers;
pub mod util;
pub mod headers;
pub mod blocks;
pub mod columns;
pub mod decoders;
pub mod f06file;
pub mod parser;
pub mod compare;
pub mod extraction;
pub mod diff;
pub mod layout;
pub mod formatting;
pub mod index_fns;
pub mod from_f06;
pub mod amounts;
pub mod metrics;
pub mod templates;
pub mod script;
pub mod display;
pub mod record_filter;
