#[test]
fn test_model_id_validation() {
    // Test that we can validate model IDs
    let valid_model_ids = [
        "mazhewitt/qwen-typo-fixer",
        "anemll/anemll-Qwen-Qwen3-0.6B-ctx512_0.3.4",
        "huggingface/model-name",
    ];

    let invalid_model_ids = ["", "invalid", "too/many/slashes/here"];

    for valid_id in &valid_model_ids {
        assert!(is_valid_model_id(valid_id), "Should be valid: {}", valid_id);
    }

    for invalid_id in &invalid_model_ids {
        assert!(
            !is_valid_model_id(invalid_id),
            "Should be invalid: {}",
            invalid_id
        );
    }
}

// Helper function to validate HuggingFace model IDs
fn is_valid_model_id(model_id: &str) -> bool {
    if model_id.is_empty() {
        return false;
    }

    let parts: Vec<&str> = model_id.split('/').collect();

    // Should have exactly 2 parts: username/model-name
    if parts.len() != 2 {
        return false;
    }

    // Both parts should be non-empty
    parts[0].len() > 0 && parts[1].len() > 0
}
