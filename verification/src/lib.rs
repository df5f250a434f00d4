//! A library for fixing typos in free-form text with a fine-tuned sequence
//! model run by the candle-coreml inference engine. The library builds a
//! few-shot prompt, dispatches generation (greedy or temperature-sampled),
//! and post-processes the raw generated text into a clean corrected string;
//! every step of that pipeline carries a verified contract.

use vstd::prelude::*;

pub mod chars;
pub mod cli;
mod engine;
pub mod error;
pub mod extract;
pub mod prompt;
pub mod sanitize;
pub mod typo_fixer;

pub use typo_fixer::TypoFixer;

verus! {

use crate::error::FixError;
use crate::typo_fixer::{
    config_file_error, hub_load_error, is_pipeline_output, local_load_error, spec_nonblank_lines,
    Temperature,
};

/// Main library interface for fixing typos: a thin facade over
/// [`TypoFixer`] with the same contracts.
pub struct TypoFixerLib {
    typo_fixer: TypoFixer,
}

impl TypoFixerLib {
    /// The underlying typo-fixer session.
    pub closed spec fn fixer_view(self) -> TypoFixer {
        self.typo_fixer
    }

    /// Create an instance by downloading a model from the model hub; without
    /// a model identifier, the default typo-fixer model is loaded.
    pub fn new(model_id: Option<String>, verbose: bool) -> (r: Result<Self, FixError>)
        ensures
            r matches Ok(l) ==> l.fixer_view().fresh(verbose),
            r matches Err(e) ==> hub_load_error(e),
    {
        let id: String = match model_id {
            Some(m) => m,
            None => String::from_str("mazhewitt/qwen-typo-fixer"),
        };
        match TypoFixer::new(id.as_str(), verbose) {
            Ok(t) => Ok(Self { typo_fixer: t }),
            Err(e) => Err(e),
        }
    }

    /// Create an instance from a local model directory, with the engine's
    /// default configuration.
    pub fn new_from_local(model_path: String, verbose: bool) -> (r: Result<Self, FixError>)
        ensures
            r matches Ok(l) ==> l.fixer_view().fresh(verbose),
            r matches Err(e) ==> local_load_error(e),
    {
        match TypoFixer::new_from_local(model_path.as_str(), verbose) {
            Ok(t) => Ok(Self { typo_fixer: t }),
            Err(e) => Err(e),
        }
    }

    /// Create an instance from a local model directory and an optional
    /// engine configuration a caller discovered.
    pub fn new_from_local_with_config(
        model_path: &str,
        verbose: bool,
        config: Option<candle_coreml::QwenConfig>,
    ) -> (r: Result<Self, FixError>)
        ensures
            r matches Ok(l) ==> l.fixer_view().fresh(verbose),
            r matches Err(e) ==> local_load_error(e),
    {
        match TypoFixer::new_from_local_with_config(model_path, verbose, config) {
            Ok(t) => Ok(Self { typo_fixer: t }),
            Err(e) => Err(e),
        }
    }

    /// Create an instance from a local model directory and an explicit
    /// configuration file.
    pub fn new_with_config_file(config_path: &str, model_path: &str, verbose: bool) -> (r: Result<
        Self,
        FixError,
    >)
        ensures
            r matches Ok(l) ==> l.fixer_view().fresh(verbose),
            r matches Err(e) ==> config_file_error(e) || local_load_error(e),
    {
        match TypoFixer::new_with_config_file(config_path, model_path, verbose) {
            Ok(t) => Ok(Self { typo_fixer: t }),
            Err(e) => Err(e),
        }
    }

    /// Fix typos in the given text with the default settings.
    pub fn fix_typos(&mut self, text: &str) -> (r: Result<String, FixError>)
        ensures
            final(self).fixer_view().template_view() == old(self).fixer_view().template_view(),
            r matches Ok(out) ==> is_pipeline_output(out@),
            r matches Err(e) ==> e is Generation || e is EmptyOutput,
    {
        self.typo_fixer.fix_text(text)
    }

    /// Fix typos with a custom temperature and token bound.
    pub fn fix_typos_with_options(
        &mut self,
        text: &str,
        temperature: Temperature,
        max_tokens: Option<usize>,
    ) -> (r: Result<String, FixError>)
        ensures
            final(self).fixer_view().template_view() == old(self).fixer_view().template_view(),
            r matches Ok(out) ==> is_pipeline_output(out@),
            r matches Err(e) ==> e is Generation || e is EmptyOutput,
    {
        self.typo_fixer.fix_text_with_options(text, temperature, max_tokens)
    }

    /// Fix typos line by line, skipping blank lines; the pairs of input line
    /// and corrected text come back in the input's order. An input with
    /// nothing to process cannot fail and yields the empty batch.
    pub fn fix_typos_batch(
        &mut self,
        text: &str,
        temperature: Temperature,
        max_tokens: Option<usize>,
    ) -> (r: Result<Vec<(String, String)>, FixError>)
        ensures
            final(self).fixer_view().template_view() == old(self).fixer_view().template_view(),
            r matches Ok(v) ==> {
                &&& v@.len() == spec_nonblank_lines(text@).len()
                &&& forall|i: int|
                    0 <= i < v@.len() ==> (#[trigger] v@[i]).0@ == spec_nonblank_lines(text@)[i]
                &&& forall|i: int| 0 <= i < v@.len() ==> is_pipeline_output((#[trigger] v@[i]).1@)
            },
            r matches Err(e) ==> e is Generation || e is EmptyOutput,
            spec_nonblank_lines(text@).len() == 0 ==> (r matches Ok(v) && v@.len() == 0),
    {
        self.typo_fixer.fix_batch(text, temperature, max_tokens)
    }

    /// Mutable access to the session's prompt template.
    pub fn prompt_template_mut(&mut self) -> (r: &mut crate::prompt::PromptTemplate)
        ensures
            *r == old(self).fixer_view().template_view(),
            final(self).fixer_view().template_view() == *final(r),
    {
        self.typo_fixer.prompt_template_mut()
    }
}

} // verus!
