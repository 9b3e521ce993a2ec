//! Errors and operations of setting config values from strings, and the
//! range check of numerical values.
use vstd::prelude::*;

verus! {

/// Why a config path or value was refused.
#[derive(Debug)]
pub enum ConfigFromStrPathErr {
    /// The path goes on where it should end.
    EndOfPath(String),
    /// The path names no known value.
    PathNotFound { path: String, allowed_paths: Vec<String> },
    /// The value could not be parsed.
    ParsingErr(String),
    /// The value is not allowed.
    ValidationError(String),
    /// A fatal error below the top level.
    FatalErr(String),
}

/// Why setting a config value from a string failed.
#[derive(Debug)]
pub enum ConfigFromStrErr {
    PathErr(ConfigFromStrPathErr),
    FatalErr(String),
}

/// What setting a config value from a string does.
#[derive(Debug, Clone)]
pub enum ConfigFromStrOperation {
    /// Sets the value.
    SetValue,
    Push,
    Pop,
    Rem,
    Reset,
    /// Any other operation.
    Other(Vec<u8>),
}

impl Default for ConfigFromStrOperation {
    fn default() -> (r: Self)
        ensures
            r is SetValue,
    {
        ConfigFromStrOperation::SetValue
    }
}

/// Relies on `format!`: the message names the value and the range.
#[verifier::external_body]
fn range_message(min: i128, max: i128, val: i128) -> String {
    format!("Numerical value out of allowed range: {val} not in [{min}, {max}]")
}

/// Accepts `val` if it lies in `[min, max]`; otherwise a validation error.
pub fn validate_numerical(min: i128, max: i128, val: i128) -> (r: Result<(), ConfigFromStrErr>)
    ensures
        r is Ok <==> min <= val <= max,
        r matches Err(e) ==> e matches ConfigFromStrErr::PathErr(
            ConfigFromStrPathErr::ValidationError(_),
        ),
{
    if min > val || max < val {
        Err(ConfigFromStrErr::PathErr(ConfigFromStrPathErr::ValidationError(range_message(min, max, val))))
    } else {
        Ok(())
    }
}

} // verus!
