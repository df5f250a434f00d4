//! The boundary to the candle-coreml inference engine. Every item here is
//! trusted: the declarations make the engine's types usable in signatures,
//! and each wrapper makes exactly one engine call. Loading and generation
//! depend on model files on disk and on the hardware, so the wrappers
//! promise nothing of what comes back beyond its shape.

use vstd::prelude::*;

verus! {

#[verifier::external_type_specification]
#[verifier::external_body]
pub struct ExQwenModel(candle_coreml::QwenModel);

#[verifier::external_type_specification]
#[verifier::external_body]
pub struct ExQwenConfig(candle_coreml::QwenConfig);

#[verifier::external_type_specification]
#[verifier::external_body]
pub struct ExModelConfig(candle_coreml::ModelConfig);

#[verifier::external_type_specification]
#[verifier::external_body]
pub struct ExUnifiedModelLoader(candle_coreml::UnifiedModelLoader);

/// Relies on candle_coreml's `UnifiedModelLoader::new`: sets up the loader's
/// cache and config generator, which touches the local cache directory.
#[verifier::external_body]
pub(crate) fn loader_new() -> (r: Result<candle_coreml::UnifiedModelLoader, String>) {
    candle_coreml::UnifiedModelLoader::new().map_err(|e| e.to_string())
}

/// Relies on candle_coreml's `UnifiedModelLoader::load_model`: downloads the
/// model by its hub identifier if need be, generates a configuration and
/// loads the components. The outcome depends on the network, the disk and
/// the platform, so nothing is promised of it.
#[verifier::external_body]
pub(crate) fn loader_load_model(
    loader: &candle_coreml::UnifiedModelLoader,
    model_id: &str,
) -> (r: Result<candle_coreml::QwenModel, String>) {
    loader.load_model(model_id).map_err(|e| e.to_string())
}

/// Relies on candle_coreml's `QwenModel::load_from_directory`: loads the
/// model components from a local directory, falling back to the engine's
/// default configuration when none is handed in.
#[verifier::external_body]
pub(crate) fn load_from_directory(
    model_dir: &str,
    config: Option<candle_coreml::QwenConfig>,
) -> (r: Result<candle_coreml::QwenModel, String>) {
    candle_coreml::QwenModel::load_from_directory(std::path::Path::new(model_dir), config).map_err(
        |e| e.to_string(),
    )
}

/// Relies on candle_coreml's `ModelConfig::load_from_file`: reads and parses
/// a JSON model-configuration file from disk.
#[verifier::external_body]
pub(crate) fn model_config_from_file(path: &str) -> (r: Result<candle_coreml::ModelConfig, String>) {
    candle_coreml::ModelConfig::load_from_file(std::path::Path::new(path)).map_err(|e| e.to_string())
}

/// Relies on candle_coreml's `QwenConfig::from_model_config`: turns a parsed
/// model configuration into the engine's configuration type.
#[verifier::external_body]
pub(crate) fn qwen_config_from_model_config(config: candle_coreml::ModelConfig) -> (r:
    candle_coreml::QwenConfig) {
    candle_coreml::QwenConfig::from_model_config(config)
}

/// Relies on candle_coreml's `QwenModel::generate_text`: runs the model on the
/// prompt and returns the decoded generation. The temperature travels as the
/// raw bits of an IEEE single, turned back into the engine's argument type by
/// `bytemuck::cast`, which reinterprets the four bytes unchanged. The outcome
/// depends on the loaded model files and hardware, so nothing is promised of
/// the returned text. The prompt must be non-empty: an empty one can
/// tokenize to zero tokens, on which the engine's position arithmetic
/// underflows instead of returning an error.
#[verifier::external_body]
pub(crate) fn generate_text(
    model: &mut candle_coreml::QwenModel,
    prompt: &str,
    max_tokens: usize,
    temperature_bits: u32,
) -> (r: Result<String, String>)
    requires
        prompt@.len() > 0,
{
    model
        .generate_text(prompt, max_tokens, bytemuck::cast(temperature_bits))
        .map_err(|e| e.to_string())
}

} // verus!
