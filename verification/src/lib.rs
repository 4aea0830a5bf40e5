//! Analytics over a year of monthly trip-record partitions.
//!
//! A logical table is the ordered union of its partitions. Two descriptive
//! aggregations are defined over it, each reachable through a composable plan
//! builder and through a textual query; both surfaces produce the same plan
//! value, and one engine evaluates it.
//!
//! - [`dataset`]: the checks on the data directory and the expected files.
//! - [`value`], [`table`]: cells, schemas, partitions and the logical table.
//! - [`plan`]: plans and the builder; [`lexer`], [`text`], [`interpret`]: the
//!   textual surface, from characters to the plan of the builder.
//! - [`group`], [`project`], [`sort`], [`engine`]: evaluation of a plan.
//! - [`queries`]: the two aggregations of the yearly report.
//! - [`laws`], [`report`], [`agreement`]: what is proved of every evaluation,
//!   of the two aggregations, and of their two surfaces.
//!
//! Amounts are whole numbers of the smallest unit of the currency. Sums are
//! exact, and averages and ratios are exact fractions; a cell that has no
//! value, or whose value cannot be held, is undefined.

pub mod agreement;
pub mod dataset;
pub mod engine;
pub mod error;
pub mod group;
pub mod interpret;
pub mod laws;
pub mod lexer;
pub mod names;
pub mod plan;
pub mod project;
pub mod queries;
pub mod report;
pub mod sort;
pub mod table;
pub mod text;
pub mod value;
