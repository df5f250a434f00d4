use typo_fixer_cli::sanitize::sanitize_and_autocorrect;

#[test]
fn test_word_boundary_correction_fires_on_whole_words() {
    let out = sanitize_and_autocorrect("I beleive it");
    assert!(out.contains("believe"));
    assert_eq!(out, "I believe it");
}

#[test]
fn test_word_boundary_correction_spares_substrings() {
    // `beleive` inside `unbeleivable` is no whole word: nothing may change
    assert_eq!(sanitize_and_autocorrect("unbeleivable"), "unbeleivable");
    assert_eq!(sanitize_and_autocorrect("tehsil"), "tehsil");
    assert_eq!(sanitize_and_autocorrect("decant"), "decant");
}

#[test]
fn test_word_boundaries_are_ascii() {
    // the boundary class is ASCII by design: a non-ASCII letter borders a
    // word rather than extending it, so the correction fires next to one
    assert_eq!(sanitize_and_autocorrect("beleiveé"), "believeé");
    // ASCII constituents extend the word and protect it, as ever
    assert_eq!(sanitize_and_autocorrect("beleive_x"), "beleive_x");
}

#[test]
fn test_correction_is_case_insensitive() {
    assert_eq!(sanitize_and_autocorrect("TEH thing"), "the thing");
    assert_eq!(sanitize_and_autocorrect("Beleive me"), "believe me");
}

#[test]
fn test_correction_table_entries() {
    assert_eq!(
        sanitize_and_autocorrect("this sentance has typoos"),
        "this sentence has typos"
    );
    assert_eq!(sanitize_and_autocorrect("typoes"), "typos");
    assert_eq!(
        sanitize_and_autocorrect("recieve the package"),
        "receive the package"
    );
    assert_eq!(
        sanitize_and_autocorrect("seperate the itmes"),
        "separate the items"
    );
    assert_eq!(sanitize_and_autocorrect("the resturant"), "the restaurant");
    assert_eq!(sanitize_and_autocorrect("a degre"), "a degree");
    assert_eq!(sanitize_and_autocorrect("definately"), "definitely");
    assert_eq!(
        sanitize_and_autocorrect("the quik brown fox"),
        "the quick brown fox"
    );
    assert_eq!(sanitize_and_autocorrect("i cant do it"), "i can't do it");
}

#[test]
fn test_quote_stripping_one_layer() {
    assert_eq!(sanitize_and_autocorrect("\"hello world\""), "hello world");
    assert_eq!(sanitize_and_autocorrect("'hello world'"), "hello world");
    // exactly one layer: the inner pair survives a single pass
    assert_eq!(sanitize_and_autocorrect("\"\"a\"\""), "\"a\"");
    // mismatched quotes stay
    assert_eq!(sanitize_and_autocorrect("\"hello'"), "\"hello'");
}

#[test]
fn test_single_quote_character_survives() {
    // one lone quote is no wrapping pair
    assert_eq!(sanitize_and_autocorrect("\""), "\"");
    assert_eq!(sanitize_and_autocorrect("'"), "'");
}

#[test]
fn test_note_commentary_truncated() {
    assert_eq!(
        sanitize_and_autocorrect("fixed text (Note: I changed a word)"),
        "fixed text"
    );
}

#[test]
fn test_late_parenthetical_truncated_early_kept() {
    // the parenthesis opens more than eight characters in: cut
    assert_eq!(
        sanitize_and_autocorrect("longer text (a comment)"),
        "longer text"
    );
    // near the start: kept
    assert_eq!(sanitize_and_autocorrect("ab (cd) ef"), "ab (cd) ef");
}

#[test]
fn test_sanitize_trims() {
    assert_eq!(sanitize_and_autocorrect("  spaced out  "), "spaced out");
    assert_eq!(sanitize_and_autocorrect(""), "");
    assert_eq!(sanitize_and_autocorrect("   "), "");
}

#[test]
fn test_sanitize_idempotent_on_clean_inputs() {
    let cases = [
        "this sentance has typoos",
        "I beleive it",
        "  plain text  ",
        "\"hello world\"",
        "fixed text (Note: commentary)",
        "",
        "ab (cd) ef",
    ];
    for s in cases {
        let once = sanitize_and_autocorrect(s);
        let twice = sanitize_and_autocorrect(&once);
        assert_eq!(twice, once, "sanitize not idempotent on {:?}", s);
    }
}
