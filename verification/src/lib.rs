//! A verified filter–aggregate–prompt–parse pipeline over tabular weather and
//! environmental readings.
//!
//! A request names a location (and, for the monthly variant, a year and
//! month). The library selects the matching rows of an in-memory dataset,
//! optionally aggregates them into year-month buckets (mean for numeric
//! columns, mode for text columns), renders the result into a delimited
//! prompt for a text-completion service, and parses the service's
//! `Key: value` reply into a fully populated report. Every stage converges to
//! a default report on failure; none aborts.
//!
//! Numeric cells are fixed-point values counted in thousandths ("milli"), so
//! the arithmetic carries exact contracts. The completion call itself is the
//! caller's: the library prepares the request, decodes the reply envelope,
//! and assembles the report from whatever outcome the caller observed.

pub mod aggregate;
pub mod dataset;
pub mod date;
pub mod gateway;
pub mod laws;
pub mod num;
pub mod parser;
pub mod prompt;
pub mod report;
pub mod reduce;
pub mod select;
pub mod text;
