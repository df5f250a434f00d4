//! Command-line argument validation. The surrounding argument parsing and
//! process plumbing live outside the library; the rules that decide whether
//! a set of arguments is acceptable live here.

use vstd::prelude::*;
use crate::typo_fixer::Temperature;

verus! {

/// How results are printed.
#[derive(Clone, Copy, Debug, PartialEq, Eq, Structural)]
pub enum OutputFormat {
    /// Plain corrected text.
    Text,
    /// JSON format with metadata.
    Json,
    /// Verbose format with before/after comparison.
    Verbose,
}

/// Why a set of arguments was rejected, in the order the checks run.
#[derive(Clone, Copy, Debug, PartialEq, Eq, Structural)]
pub enum ArgsError {
    /// Neither input text nor the stdin flag was given.
    MissingInput,
    /// Both input text and the stdin flag were given.
    ConflictingInput,
    /// The temperature lies outside `0.0 ..= 2.0`.
    TemperatureOutOfRange,
    /// The token bound lies outside `1 ..= 512`.
    MaxTokensOutOfRange,
}

/// The command-line arguments, the temperature carried as raw bits.
#[derive(Clone, Debug)]
pub struct Args {
    /// Input text to fix typos in.
    pub input: Option<String>,
    /// Read input from stdin instead of the command line.
    pub stdin: bool,
    /// Model identifier on the model hub.
    pub model: String,
    /// Sampling temperature: zero is deterministic, higher more creative.
    pub temperature: Temperature,
    /// Most tokens to generate.
    pub max_tokens: usize,
    /// Output format.
    pub output: OutputFormat,
    /// Verbose output.
    pub verbose: bool,
    /// Batch mode: process multiple lines.
    pub batch: bool,
}

impl Args {
    /// Input text was given on the command line.
    pub open spec fn input_given(&self) -> bool {
        self.input is Some
    }

    /// The arguments pass validation: exactly one input source, the
    /// temperature within `0.0 ..= 2.0`, the token bound within `1 ..= 512`.
    pub open spec fn valid_spec(&self) -> bool {
        &&& self.input_given() || self.stdin
        &&& !(self.input_given() && self.stdin)
        &&& self.temperature.in_range_spec()
        &&& 1 <= self.max_tokens <= 512
    }

    /// Validate the arguments; the error names the first failing check.
    pub fn validate(&self) -> (r: Result<(), ArgsError>)
        ensures
            r is Ok <==> self.valid_spec(),
            r == Err::<(), ArgsError>(ArgsError::MissingInput) <==> !self.input_given()
                && !self.stdin,
            r == Err::<(), ArgsError>(ArgsError::ConflictingInput) <==> self.input_given()
                && self.stdin,
            r == Err::<(), ArgsError>(ArgsError::TemperatureOutOfRange) <==> (self.input_given()
                != self.stdin) && !self.temperature.in_range_spec(),
            r == Err::<(), ArgsError>(ArgsError::MaxTokensOutOfRange) <==> (self.input_given()
                != self.stdin) && self.temperature.in_range_spec() && !(1 <= self.max_tokens
                <= 512),
    {
        if self.input.is_none() && !self.stdin {
            return Err(ArgsError::MissingInput);
        }
        if self.input.is_some() && self.stdin {
            return Err(ArgsError::ConflictingInput);
        }
        if !self.temperature.in_range() {
            return Err(ArgsError::TemperatureOutOfRange);
        }
        if self.max_tokens == 0 || self.max_tokens > 512 {
            return Err(ArgsError::MaxTokensOutOfRange);
        }
        Ok(())
    }
}

} // verus!
