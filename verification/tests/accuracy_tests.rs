use typo_fixer_cli::extract::extract_correction;
use typo_fixer_cli::sanitize::sanitize_and_autocorrect;

#[test]
fn test_expected_typo_corrections() {
    // Test cases similar to what we'd expect from your Python demo
    let test_cases = vec![
        ("this sentance has typoos", vec!["sentence", "typos"]),
        ("the quik brown fox", vec!["quick"]),
        ("i cant beleive it", vec!["can't", "believe"]),
        ("recieve the package", vec!["receive"]),
        ("seperate the items", vec!["separate"]),
        ("it occured yesterday", vec!["occurred"]),
    ];

    println!("🧪 Testing expected typo correction patterns");

    for (input, expected_fixes) in test_cases {
        println!(
            "📝 Test case: '{}' should contain: {:?}",
            input, expected_fixes
        );

        // This is a validation of our test cases themselves
        // In a real test with the model, we'd validate that the model output contains these fixes
        for expected in expected_fixes {
            assert!(
                !input.to_lowercase().contains(&expected.to_lowercase()),
                "Input '{}' should not already contain correct word '{}'",
                input,
                expected
            );
        }
    }

    println!("✅ Test case structure validation passed");
    println!("💡 These test cases are ready for use with the actual typo-fixer model");
}

#[test]
fn test_performance_expectations() {
    println!("🧪 Testing performance expectations and benchmarks");

    // This test documents our performance expectations
    // Once we have the typo-fixer model working, we can add actual benchmarks

    let expected_latency_ms = 1000; // Target: < 1 second per correction
    let expected_accuracy = 0.90; // Target: > 90% accuracy (from Python demo)
    let max_model_size_gb = 3.0; // Target: < 3GB total model size

    println!("📊 Performance targets:");
    println!("   • Latency: < {} ms per correction", expected_latency_ms);
    println!(
        "   • Accuracy: > {:.0}% correction rate",
        expected_accuracy * 100.0
    );
    println!("   • Model size: < {:.1} GB", max_model_size_gb);

    // These will be real benchmarks once the model is working
    assert!(expected_latency_ms > 0);
    assert!(expected_accuracy > 0.0 && expected_accuracy <= 1.0);
    assert!(max_model_size_gb > 0.0);

    println!("✅ Performance expectations documented");
}

#[test]
fn test_post_processing_is_deterministic_and_corrects() {
    // The deterministic tail of the pipeline: extraction then sanitizing.
    // For a raw output echoing the flawed input, the safety net still
    // produces the corrected words, and repeated runs agree exactly.
    let raw = "this sentance has typoos";
    let first = sanitize_and_autocorrect(&extract_correction(raw).unwrap());
    let second = sanitize_and_autocorrect(&extract_correction(raw).unwrap());
    assert_eq!(first, second);
    assert!(first.contains("sentence"));
    assert!(first.contains("typos"));
    assert_eq!(first, "this sentence has typos");
}
