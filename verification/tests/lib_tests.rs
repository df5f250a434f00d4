use typo_fixer_cli::error::FixError;
use typo_fixer_cli::TypoFixerLib;

#[test]
fn test_library_creation_fails_without_model() {
    // Without a reachable model hub and CoreML hardware, loading must fail,
    // and the failure must be reported as a load error.
    let result = TypoFixerLib::new(Some("nonexistent/invalid-model".to_string()), false);
    assert!(result.is_err(), "Expected loading to fail with invalid model");
    if let Err(e) = result {
        assert!(matches!(e, FixError::Load(_)));
        // the message names its phase: creating the loader or loading with it
        assert!(
            e.message()
                .starts_with("Failed to create UnifiedModelLoader: ")
                || e.message()
                    .starts_with("Failed to load model using UnifiedModelLoader: ")
        );
    }
}

#[test]
fn test_config_file_creation_fails_without_file() {
    // A missing configuration file is a configuration error, caught before
    // any model loading starts.
    let result = TypoFixerLib::new_with_config_file(
        "this/config/file/does/not/exist.json",
        "this/model/dir/does/not/exist",
        false,
    );
    assert!(result.is_err());
    if let Err(e) = result {
        assert!(matches!(e, FixError::Configuration(_)));
        assert!(e
            .message()
            .starts_with("Failed to load model configuration file"));
    }
}
