use typo_fixer_cli::prompt::PromptTemplate;

#[test]
fn test_prompt_template_creation() {
    let template = PromptTemplate::new();
    assert!(template.example_count() > 0);
    assert_eq!(template.example_count(), 3); // Optimized examples count
}

#[test]
fn test_create_correction_prompt() {
    let template = PromptTemplate::new();
    let prompt = template.create_correction_prompt("this sentance has typoos");

    // Check that prompt contains few-shot examples
    assert!(prompt.contains("Fix typos in these sentences:"));
    assert!(prompt.contains("Input: I beleive this is teh answer."));
    assert!(prompt.contains("Output: I believe this is the answer."));

    // Check that it contains our input
    assert!(prompt.contains("Input: this sentance has typoos"));
    assert!(prompt.ends_with("Output:"));
}

#[test]
fn test_add_custom_example() {
    let mut template = PromptTemplate::new();
    let initial_count = template.example_count();

    template.add_example("definately wrong".to_string(), "definitely wrong".to_string());

    assert_eq!(template.example_count(), initial_count + 1);

    let prompt = template.create_correction_prompt("test");
    // few-shot prompt includes examples before replacement; ensure custom example present
    assert!(prompt.contains("definately wrong"));
    assert!(prompt.contains("definitely wrong"));
}

#[test]
fn test_clear_examples() {
    let mut template = PromptTemplate::new();
    assert!(template.example_count() > 0);

    template.clear_examples();
    assert_eq!(template.example_count(), 0);

    let prompt = template.create_correction_prompt("test");
    // With no examples, still returns few-shot header + our input
    assert!(prompt.starts_with("Fix typos in these sentences:"));
    assert!(prompt.contains("Input: test"));
    assert!(prompt.ends_with("Output:"));
}

#[test]
fn test_prompt_structure() {
    let template = PromptTemplate::new();
    let prompt = template.create_correction_prompt("hello wrold");

    // Check basic structure
    let lines: Vec<&str> = prompt.lines().collect();
    assert_eq!(lines[0], "Fix typos in these sentences:");
    assert_eq!(lines[1], "");

    // Should end with our input
    assert!(prompt.ends_with("Input: hello wrold\nOutput:"));
}

#[test]
fn test_prompt_with_empty_examples_is_exact() {
    let mut template = PromptTemplate::new();
    template.clear_examples();
    let prompt = template.create_correction_prompt("test");
    assert_eq!(prompt, "Fix typos in these sentences:\n\nInput: test\nOutput:");
}

#[test]
fn test_default_template_equals_new() {
    let a = PromptTemplate::default();
    let b = PromptTemplate::new();
    assert_eq!(a.example_count(), b.example_count());
    assert_eq!(
        a.create_correction_prompt("same input"),
        b.create_correction_prompt("same input")
    );
}

#[test]
fn test_full_prompt_exact_with_default_examples() {
    let template = PromptTemplate::new();
    let prompt = template.create_correction_prompt("x");
    let expected = "Fix typos in these sentences:\n\n\
        Input: I beleive this is teh answer.\nOutput: I believe this is the answer.\n\n\
        Input: She recieved her degre yesterday.\nOutput: She received her degree yesterday.\n\n\
        Input: The resturant serves good food.\nOutput: The restaurant serves good food.\n\n\
        Input: x\nOutput:";
    assert_eq!(prompt, expected);
}
