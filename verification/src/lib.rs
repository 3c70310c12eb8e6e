//! Parsing and trace synthesis for an espresso shot-profile language.
//!
//! A profile document is UTF-8 text holding a whitespace-separated list of
//! commands; one of those commands carries the "advanced shot" step sequence,
//! itself a brace-delimited list of steps, each an ordered list of typed
//! properties.  The library parses that language, builds a sorted catalog of
//! the accepted profiles, and converts a step sequence into three ordered
//! line-segment traces (temperature, pressure, flow) over elapsed time.
//!
//! Numeric values are kept as exact decimals ([`num::Num`]): a mantissa and a
//! count of fraction digits.  Values whose exact representation would not fit
//! that form are rejected as malformed.

use vstd::prelude::*;

pub mod num;
pub mod scan;
pub mod parser;
pub mod command;
pub mod profile;
pub mod catalog;
pub mod scale;
pub mod graph;

verus! {

/// Everything that can go wrong while parsing a document, analyzing a step
/// sequence, or looking up a preset.
#[derive(Clone, Copy, Debug, PartialEq, Eq, Structural)]
pub enum Error {
    /// A value token is malformed, or a number is too large to represent
    /// exactly.
    MalformedValue,
    /// An enum-tag value matched none of its closed set of tags.
    UnrecognizedTag,
    /// A brace-delimited string was opened but never closed.
    UnterminatedString,
    /// A step lacks one of its required properties (seconds, transition,
    /// pump), or a document lacks its title, notes or step text.
    MissingRequiredProp,
    /// A catalog lookup named no known preset.
    UnknownPresetName,
}

} // verus!
