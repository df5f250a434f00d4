//! Core typo fixing: a session object owning the engine's model handle and a
//! prompt template, and the request/response pipeline of prompt building,
//! generation dispatch, output extraction and sanitizing.

use vstd::prelude::*;
use crate::engine;
use crate::error::FixError;
use crate::extract::{extract_correction, spec_extract, spec_lines, split_first_line};
use crate::sanitize::{sanitize_and_autocorrect, spec_sanitize};
use crate::prompt::{PromptTemplate, default_examples};
use crate::chars::{spec_trim, starts_with, trim_str};
use candle_coreml::{QwenConfig, QwenModel};

verus! {

/// A sampling temperature, carried as the raw bits of an IEEE
/// single-precision number so that the verified pipeline holds it as a plain
/// value and hands it to the engine bit for bit.
#[derive(Clone, Copy, PartialEq, Eq, Structural, Debug)]
pub struct Temperature {
    pub bits: u32,
}

impl Temperature {
    /// Exactly zero (positive or negative), the greedy-decoding selector.
    /// An IEEE single is zero exactly when all bits but the sign are clear.
    pub open spec fn is_deterministic_spec(self) -> bool {
        self.bits & 0x7FFF_FFFFu32 == 0
    }

    /// Within the accepted range `0.0 ..= 2.0`. For an IEEE single this
    /// means: negative zero, or a non-negative value whose bits do not
    /// exceed those of 2.0 (`0x4000_0000`) — the bit patterns of
    /// non-negative singles are ordered as their values, and every NaN
    /// pattern lies above.
    pub open spec fn in_range_spec(self) -> bool {
        self.bits == 0x8000_0000u32 || self.bits <= 0x4000_0000u32
    }

    /// The deterministic temperature, zero.
    pub fn zero() -> (t: Self)
        ensures
            t.is_deterministic_spec(),
            t.in_range_spec(),
            t.bits == 0u32,
    {
        proof {
            assert(0u32 & 0x7FFF_FFFFu32 == 0u32) by (bit_vector);
        }
        Temperature { bits: 0 }
    }

    /// A temperature from the raw bits of an IEEE single.
    pub fn from_bits(bits: u32) -> (t: Self)
        ensures
            t.bits == bits,
    {
        Temperature { bits }
    }

    /// Whether this temperature selects greedy decoding.
    pub fn is_deterministic(&self) -> (b: bool)
        ensures
            b == self.is_deterministic_spec(),
    {
        self.bits & 0x7FFF_FFFF == 0
    }

    /// Whether this temperature lies within `0.0 ..= 2.0`.
    pub fn in_range(&self) -> (b: bool)
        ensures
            b == self.in_range_spec(),
    {
        self.bits == 0x8000_0000 || self.bits <= 0x4000_0000
    }
}

/// How one generation call decodes: greedily, or sampling at a temperature.
/// Resolved once per call from the request's temperature.
#[derive(Clone, Copy, PartialEq, Eq, Structural, Debug)]
pub enum GenerationMode {
    Deterministic,
    Sampled(Temperature),
}

impl GenerationMode {
    /// The mode a temperature selects: exactly zero means greedy decoding.
    pub open spec fn spec_of(t: Temperature) -> GenerationMode {
        if t.is_deterministic_spec() {
            GenerationMode::Deterministic
        } else {
            GenerationMode::Sampled(t)
        }
    }

    /// Resolve the mode for a temperature, exactly [`Self::spec_of`].
    pub fn of_temperature(t: Temperature) -> (m: Self)
        ensures
            m == Self::spec_of(t),
    {
        if t.is_deterministic() {
            GenerationMode::Deterministic
        } else {
            GenerationMode::Sampled(t)
        }
    }
}

/// The token bound used when a caller names none.
pub const DEFAULT_MAX_TOKENS: usize = 25;

/// A hub-load failure carrying its phase's context: either the loader could
/// not be created, or the load through it failed.
pub open spec fn hub_load_error(e: FixError) -> bool {
    e is Load && (starts_with(e.message_view(), "Failed to create UnifiedModelLoader: "@)
        || starts_with(e.message_view(), "Failed to load model using UnifiedModelLoader: "@))
}

/// A local-directory load failure carrying its phase's context.
pub open spec fn local_load_error(e: FixError) -> bool {
    e is Load && starts_with(
        e.message_view(),
        "Failed to load QwenModel from local directory: "@,
    )
}

/// A configuration-file failure carrying its phase's context.
pub open spec fn config_file_error(e: FixError) -> bool {
    e is Configuration && starts_with(
        e.message_view(),
        "Failed to load model configuration file: "@,
    )
}

/// What the pipeline returns when it succeeds: the sanitized form of an
/// extraction of some raw engine output.
pub open spec fn is_pipeline_output(out: Seq<char>) -> bool {
    exists|raw: Seq<char>|
        match #[trigger] spec_extract(raw) {
            Some(e) => out == spec_sanitize(e),
            None => false,
        }
}

/// The lines among `ls` whose trimmed text is non-empty, in order.
pub open spec fn keep_nonblank(ls: Seq<Seq<char>>) -> Seq<Seq<char>>
    decreases ls.len(),
{
    if ls.len() == 0 {
        Seq::empty()
    } else if spec_trim(ls[0]).len() > 0 {
        seq![ls[0]] + keep_nonblank(ls.drop_first())
    } else {
        keep_nonblank(ls.drop_first())
    }
}

/// The items batch mode processes: the text's lines, blank ones skipped,
/// in their original order and untrimmed.
pub open spec fn spec_nonblank_lines(s: Seq<char>) -> Seq<Seq<char>> {
    keep_nonblank(spec_lines(s))
}

/// Split a text into its non-blank lines, exactly [`spec_nonblank_lines`].
pub fn split_nonblank_lines(text: &str) -> (v: Vec<String>)
    ensures
        v@.map_values(|s: String| s@) == spec_nonblank_lines(text@),
{
    let mut v: Vec<String> = Vec::new();
    let mut rest: &str = text;
    while !rest.is_empty()
        invariant
            spec_nonblank_lines(text@) == v@.map_values(|s: String| s@) + keep_nonblank(
                spec_lines(rest@),
            ),
        decreases rest@.len(),
    {
        let (line, next) = split_first_line(rest);
        let t = trim_str(line);
        let ghost prev = v@.map_values(|s: String| s@);
        proof {
            assert(spec_lines(rest@).drop_first() =~= spec_lines(next@));
        }
        if !t.as_str().is_empty() {
            v.push(String::from_str(line));
            proof {
                assert(keep_nonblank(spec_lines(rest@)) == seq![line@] + keep_nonblank(
                    spec_lines(next@),
                ));
                assert(v@.map_values(|s: String| s@) =~= prev + seq![line@]);
                assert(prev + (seq![line@] + keep_nonblank(spec_lines(next@))) =~= (prev + seq![
                    line@,
                ]) + keep_nonblank(spec_lines(next@)));
            }
        } else {
            proof {
                assert(keep_nonblank(spec_lines(rest@)) == keep_nonblank(spec_lines(next@)));
            }
        }
        rest = next;
    }
    proof {
        assert(spec_lines(rest@) =~= Seq::<Seq<char>>::empty());
        assert(keep_nonblank(spec_lines(rest@)) =~= Seq::<Seq<char>>::empty());
        assert(v@.map_values(|s: String| s@) + Seq::<Seq<char>>::empty() =~= v@.map_values(
            |s: String| s@,
        ));
    }
    v
}

/// Core typo fixer: the engine's model handle, the prompt template, and the
/// verbosity flag the session was created with.
pub struct TypoFixer {
    model: QwenModel,
    prompt_template: PromptTemplate,
    verbose: bool,
}

impl TypoFixer {
    /// The session's prompt template.
    pub closed spec fn template_view(self) -> PromptTemplate {
        self.prompt_template
    }

    /// The session's model handle.
    pub closed spec fn model_view(self) -> QwenModel {
        self.model
    }

    /// The verbosity flag the session was created with.
    pub closed spec fn verbose_view(self) -> bool {
        self.verbose
    }

    /// A session as every constructor hands it out: the default few-shot
    /// examples, and the verbosity the caller asked for.
    pub open spec fn fresh(self, verbose: bool) -> bool {
        self.template_view().examples_view() == default_examples() && self.verbose_view()
            == verbose
    }

    /// Create a typo fixer by loading the model from the model hub.
    pub fn new(model_id: &str, verbose: bool) -> (r: Result<Self, FixError>)
        ensures
            r matches Ok(f) ==> f.fresh(verbose),
            r matches Err(e) ==> hub_load_error(e),
    {
        Self::new_with_config(model_id, verbose, None)
    }

    /// Create a typo fixer with a custom engine configuration. The unified
    /// loader derives the configuration from the downloaded model itself, so
    /// the handed-in configuration is not consulted on this path.
    pub fn new_with_config(
        model_id: &str,
        verbose: bool,
        custom_config: Option<QwenConfig>,
    ) -> (r: Result<Self, FixError>)
        ensures
            r matches Ok(f) ==> f.fresh(verbose),
            r matches Err(e) ==> hub_load_error(e),
    {
        Self::load_model(model_id, verbose, custom_config)
    }

    /// Load the model from the hub through the unified loader.
    fn load_model(model_id: &str, verbose: bool, _custom_config: Option<QwenConfig>) -> (r: Result<
        Self,
        FixError,
    >)
        ensures
            r matches Ok(f) ==> f.fresh(verbose),
            r matches Err(e) ==> hub_load_error(e),
    {
        let loader = match engine::loader_new() {
            Ok(l) => l,
            Err(m) => {
                let mut msg = String::from_str("Failed to create UnifiedModelLoader: ");
                msg.append(m.as_str());
                proof {
                    assert(msg@.subrange(
                        0,
                        "Failed to create UnifiedModelLoader: "@.len() as int,
                    ) =~= "Failed to create UnifiedModelLoader: "@);
                }
                return Err(FixError::Load(msg));
            },
        };
        let model = match engine::loader_load_model(&loader, model_id) {
            Ok(m) => m,
            Err(m) => {
                let mut msg = String::from_str("Failed to load model using UnifiedModelLoader: ");
                msg.append(m.as_str());
                proof {
                    assert(msg@.subrange(
                        0,
                        "Failed to load model using UnifiedModelLoader: "@.len() as int,
                    ) =~= "Failed to load model using UnifiedModelLoader: "@);
                }
                return Err(FixError::Load(msg));
            },
        };
        Ok(TypoFixer { model, prompt_template: PromptTemplate::new(), verbose })
    }

    /// Create a typo fixer from a local model directory, with the engine's
    /// default configuration. Callers that discover a configuration on disk
    /// hand it to [`Self::new_from_local_with_config`] instead.
    pub fn new_from_local(model_path: &str, verbose: bool) -> (r: Result<Self, FixError>)
        ensures
            r matches Ok(f) ==> f.fresh(verbose),
            r matches Err(e) ==> local_load_error(e),
    {
        Self::new_from_local_with_config(model_path, verbose, None)
    }

    /// Create a typo fixer from a local model directory and an optional
    /// engine configuration.
    pub fn new_from_local_with_config(
        model_path: &str,
        verbose: bool,
        config: Option<QwenConfig>,
    ) -> (r: Result<Self, FixError>)
        ensures
            r matches Ok(f) ==> f.fresh(verbose),
            r matches Err(e) ==> local_load_error(e),
    {
        let model = match engine::load_from_directory(model_path, config) {
            Ok(m) => m,
            Err(m) => {
                let mut msg = String::from_str("Failed to load QwenModel from local directory: ");
                msg.append(m.as_str());
                proof {
                    assert(msg@.subrange(
                        0,
                        "Failed to load QwenModel from local directory: "@.len() as int,
                    ) =~= "Failed to load QwenModel from local directory: "@);
                }
                return Err(FixError::Load(msg));
            },
        };
        Ok(TypoFixer { model, prompt_template: PromptTemplate::new(), verbose })
    }

    /// Create a typo fixer from a local model directory and a configuration
    /// file in the engine's JSON format. A file that cannot be read or
    /// parsed is a configuration error, and no model load is attempted.
    pub fn new_with_config_file(config_path: &str, model_path: &str, verbose: bool) -> (r: Result<
        Self,
        FixError,
    >)
        ensures
            r matches Ok(f) ==> f.fresh(verbose),
            r matches Err(e) ==> config_file_error(e) || local_load_error(e),
    {
        let model_config = match engine::model_config_from_file(config_path) {
            Ok(c) => c,
            Err(m) => {
                let mut msg = String::from_str("Failed to load model configuration file: ");
                msg.append(m.as_str());
                proof {
                    assert(msg@.subrange(
                        0,
                        "Failed to load model configuration file: "@.len() as int,
                    ) =~= "Failed to load model configuration file: "@);
                }
                return Err(FixError::Configuration(msg));
            },
        };
        let qwen_config = engine::qwen_config_from_model_config(model_config);
        Self::new_from_local_with_config(model_path, verbose, Some(qwen_config))
    }

    /// Fix typos in the given text with the default settings: greedy
    /// decoding and the default token bound.
    pub fn fix_text(&mut self, text: &str) -> (r: Result<String, FixError>)
        ensures
            final(self).template_view() == old(self).template_view(),
            final(self).verbose_view() == old(self).verbose_view(),
            r matches Ok(out) ==> is_pipeline_output(out@),
            r matches Err(e) ==> e is Generation || e is EmptyOutput,
    {
        self.fix_text_with_options(text, Temperature::zero(), None)
    }

    /// Fix typos with a custom temperature and token bound: build the
    /// few-shot prompt, dispatch generation (greedy exactly when the
    /// temperature is zero), extract the corrected line from the raw output
    /// and sanitize it.
    pub fn fix_text_with_options(
        &mut self,
        text: &str,
        temperature: Temperature,
        max_tokens: Option<usize>,
    ) -> (r: Result<String, FixError>)
        ensures
            final(self).template_view() == old(self).template_view(),
            final(self).verbose_view() == old(self).verbose_view(),
            r matches Ok(out) ==> is_pipeline_output(out@),
            r matches Err(e) ==> e is Generation || e is EmptyOutput,
    {
        let prompt = self.prompt_template.create_correction_prompt(text);
        proof {
            reveal_strlit("Fix typos in these sentences:\n\n");
            assert(prompt@.len() > 0);
        }
        let max_tokens = match max_tokens {
            Some(m) => m,
            None => DEFAULT_MAX_TOKENS,
        };
        let mode = GenerationMode::of_temperature(temperature);
        let raw = match mode {
            GenerationMode::Deterministic => {
                match self.generate_deterministic(prompt.as_str(), max_tokens) {
                    Ok(s) => s,
                    Err(e) => {
                        return Err(e);
                    },
                }
            },
            GenerationMode::Sampled(t) => {
                match self.generate_with_temperature(prompt.as_str(), t, max_tokens) {
                    Ok(s) => s,
                    Err(e) => {
                        return Err(e);
                    },
                }
            },
        };
        let cleaned = match extract_correction(raw.as_str()) {
            Ok(s) => s,
            Err(e) => {
                return Err(e);
            },
        };
        let out = sanitize_and_autocorrect(cleaned.as_str());
        proof {
            let w = raw@;
            assert(match spec_extract(w) {
                Some(e) => out@ == spec_sanitize(e),
                None => false,
            });
            assert(is_pipeline_output(out@));
        }
        Ok(out)
    }

    /// Generate text with greedy decoding; a failure carries the phase:
    /// its message opens with the deterministic phase's own prefix.
    fn generate_deterministic(&mut self, prompt: &str, max_tokens: usize) -> (r: Result<
        String,
        FixError,
    >)
        requires
            prompt@.len() > 0,
        ensures
            final(self).template_view() == old(self).template_view(),
            final(self).verbose_view() == old(self).verbose_view(),
            r matches Err(e) ==> e is Generation && starts_with(
                e.message_view(),
                "Failed to generate tokens deterministically: "@,
            ),
    {
        match engine::generate_text(&mut self.model, prompt, max_tokens, 0) {
            Ok(s) => Ok(s),
            Err(m) => {
                let mut msg = String::from_str("Failed to generate tokens deterministically: ");
                msg.append(m.as_str());
                proof {
                    assert(msg@.subrange(
                        0,
                        "Failed to generate tokens deterministically: "@.len() as int,
                    ) =~= "Failed to generate tokens deterministically: "@);
                }
                Err(FixError::Generation(msg))
            },
        }
    }

    /// Generate text with temperature sampling; a failure carries the
    /// phase: its message opens with the sampled phase's own prefix.
    fn generate_with_temperature(
        &mut self,
        prompt: &str,
        temperature: Temperature,
        max_tokens: usize,
    ) -> (r: Result<String, FixError>)
        requires
            prompt@.len() > 0,
        ensures
            final(self).template_view() == old(self).template_view(),
            final(self).verbose_view() == old(self).verbose_view(),
            r matches Err(e) ==> e is Generation && starts_with(
                e.message_view(),
                "Failed to generate tokens with temperature: "@,
            ),
    {
        match engine::generate_text(&mut self.model, prompt, max_tokens, temperature.bits) {
            Ok(s) => Ok(s),
            Err(m) => {
                let mut msg = String::from_str("Failed to generate tokens with temperature: ");
                msg.append(m.as_str());
                proof {
                    assert(msg@.subrange(
                        0,
                        "Failed to generate tokens with temperature: "@.len() as int,
                    ) =~= "Failed to generate tokens with temperature: "@);
                }
                Err(FixError::Generation(msg))
            },
        }
    }

    /// Fix typos line by line: split the input into lines, skip blank ones,
    /// run the single-item pipeline on each in original order, and collect
    /// the (input line, corrected) pairs in that order. A failure on one
    /// line aborts the whole batch; an input with nothing to process cannot
    /// fail and yields the empty batch.
    pub fn fix_batch(
        &mut self,
        text: &str,
        temperature: Temperature,
        max_tokens: Option<usize>,
    ) -> (r: Result<Vec<(String, String)>, FixError>)
        ensures
            final(self).template_view() == old(self).template_view(),
            final(self).verbose_view() == old(self).verbose_view(),
            r matches Ok(v) ==> {
                &&& v@.len() == spec_nonblank_lines(text@).len()
                &&& forall|i: int|
                    0 <= i < v@.len() ==> (#[trigger] v@[i]).0@ == spec_nonblank_lines(text@)[i]
                &&& forall|i: int| 0 <= i < v@.len() ==> is_pipeline_output((#[trigger] v@[i]).1@)
            },
            r matches Err(e) ==> e is Generation || e is EmptyOutput,
            spec_nonblank_lines(text@).len() == 0 ==> (r matches Ok(v) && v@.len() == 0),
    {
        let lines = split_nonblank_lines(text);
        let mut results: Vec<(String, String)> = Vec::new();
        let mut i: usize = 0;
        while i < lines.len()
            invariant
                self.template_view() == old(self).template_view(),
                self.verbose_view() == old(self).verbose_view(),
                lines@.map_values(|s: String| s@) == spec_nonblank_lines(text@),
                0 <= i <= lines.len(),
                results@.len() == i,
                forall|k: int|
                    0 <= k < i ==> (#[trigger] results@[k]).0@ == spec_nonblank_lines(text@)[k],
                forall|k: int| 0 <= k < i ==> is_pipeline_output((#[trigger] results@[k]).1@),
            decreases lines.len() - i,
        {
            let corrected = match self.fix_text_with_options(
                lines[i].as_str(),
                temperature,
                max_tokens,
            ) {
                Ok(c) => c,
                Err(e) => {
                    return Err(e);
                },
            };
            let original = lines[i].clone();
            proof {
                assert(original@ == lines@.map_values(|s: String| s@)[i as int]);
            }
            results.push((original, corrected));
            i += 1;
        }
        Ok(results)
    }

    /// Mutable access to the prompt template, for customization.
    pub fn prompt_template_mut(&mut self) -> (r: &mut PromptTemplate)
        ensures
            *r == old(self).template_view(),
            final(self).template_view() == *final(r),
            final(self).model_view() == old(self).model_view(),
            final(self).verbose_view() == old(self).verbose_view(),
    {
        &mut self.prompt_template
    }

    /// Shared access to the prompt template.
    pub fn prompt_template(&self) -> (r: &PromptTemplate)
        ensures
            *r == self.template_view(),
    {
        &self.prompt_template
    }
}

} // verus!
