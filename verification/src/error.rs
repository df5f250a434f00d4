//! The pipeline's error taxonomy: configuration, model loading, generation,
//! and extraction that found nothing usable.

use vstd::prelude::*;

verus! {

/// What can go wrong along the fix-text pipeline. Each variant but
/// `EmptyOutput` carries the full human-readable message of its phase.
#[derive(Debug)]
pub enum FixError {
    /// A model configuration file could not be read or parsed.
    Configuration(String),
    /// The engine failed to load the model.
    Load(String),
    /// The engine failed to produce output for a prompt.
    Generation(String),
    /// The engine's output reduced to nothing usable after cleaning.
    EmptyOutput,
}

impl FixError {
    /// The message a caller should show for this error.
    pub open spec fn message_view(&self) -> Seq<char> {
        match self {
            FixError::Configuration(m) => m@,
            FixError::Load(m) => m@,
            FixError::Generation(m) => m@,
            FixError::EmptyOutput => "Model produced empty output"@,
        }
    }

    /// Return the error's message, exactly [`Self::message_view`].
    pub fn message(&self) -> (r: String)
        ensures
            r@ == self.message_view(),
    {
        match self {
            FixError::Configuration(m) => m.clone(),
            FixError::Load(m) => m.clone(),
            FixError::Generation(m) => m.clone(),
            FixError::EmptyOutput => String::from_str("Model produced empty output"),
        }
    }
}

} // verus!
