use typo_fixer_cli::cli::{Args, ArgsError, OutputFormat};
use typo_fixer_cli::typo_fixer::{GenerationMode, Temperature};

fn base_args() -> Args {
    Args {
        input: Some("test input".to_string()),
        stdin: false,
        model: "test-model".to_string(),
        temperature: Temperature::from_bits(0.5f32.to_bits()),
        max_tokens: 50,
        output: OutputFormat::Text,
        verbose: false,
        batch: false,
    }
}

#[test]
fn test_args_valid_with_input() {
    assert!(base_args().validate().is_ok());
}

#[test]
fn test_args_valid_with_stdin() {
    let mut args = base_args();
    args.input = None;
    args.stdin = true;
    assert!(args.validate().is_ok());
}

#[test]
fn test_args_no_input_rejected() {
    let mut args = base_args();
    args.input = None;
    assert_eq!(args.validate(), Err(ArgsError::MissingInput));
}

#[test]
fn test_args_both_input_and_stdin_rejected() {
    let mut args = base_args();
    args.stdin = true;
    assert_eq!(args.validate(), Err(ArgsError::ConflictingInput));
}

#[test]
fn test_temperature_range_validation() {
    let mut args = base_args();
    args.temperature = Temperature::from_bits(3.0f32.to_bits());
    assert_eq!(args.validate(), Err(ArgsError::TemperatureOutOfRange));

    args.temperature = Temperature::from_bits((-0.5f32).to_bits());
    assert_eq!(args.validate(), Err(ArgsError::TemperatureOutOfRange));

    args.temperature = Temperature::from_bits(f32::NAN.to_bits());
    assert_eq!(args.validate(), Err(ArgsError::TemperatureOutOfRange));

    args.temperature = Temperature::from_bits(2.0f32.to_bits());
    assert!(args.validate().is_ok());

    args.temperature = Temperature::from_bits((-0.0f32).to_bits());
    assert!(args.validate().is_ok());

    args.temperature = Temperature::from_bits(0.5f32.to_bits());
    assert!(args.validate().is_ok());
}

#[test]
fn test_max_tokens_range_validation() {
    let mut args = base_args();
    args.max_tokens = 0;
    assert_eq!(args.validate(), Err(ArgsError::MaxTokensOutOfRange));

    args.max_tokens = 513;
    assert_eq!(args.validate(), Err(ArgsError::MaxTokensOutOfRange));

    args.max_tokens = 512;
    assert!(args.validate().is_ok());

    args.max_tokens = 1;
    assert!(args.validate().is_ok());
}

#[test]
fn test_temperature_zero_is_deterministic() {
    assert!(Temperature::from_bits(0.0f32.to_bits()).is_deterministic());
    assert!(Temperature::from_bits((-0.0f32).to_bits()).is_deterministic());
    assert!(!Temperature::from_bits(0.1f32.to_bits()).is_deterministic());
    assert!(Temperature::zero().is_deterministic());
}

#[test]
fn test_generation_mode_resolution() {
    assert_eq!(
        GenerationMode::of_temperature(Temperature::zero()),
        GenerationMode::Deterministic
    );
    let sampled = Temperature::from_bits(0.7f32.to_bits());
    assert_eq!(
        GenerationMode::of_temperature(sampled),
        GenerationMode::Sampled(sampled)
    );
}
