use liberado_actual_mcp::pattern::{has_regex_metacharacters, pattern_expression, regex_matches, search_found};

#[test]
fn plain_text_matches_substring_case_insensitive() {
    assert!(regex_matches("WENDYS #1234", "wendy"));
    assert!(!regex_matches("McDonalds", "wendy"));
}

#[test]
fn empty_pattern_never_matches() {
    assert!(!regex_matches("anything", ""));
}

#[test]
fn regex_metacharacters_used_as_full_pattern() {
    assert!(regex_matches("Restaurant A", "Rest.*ant"));
    assert!(!regex_matches("Cafe", "Rest.*ant"));
}

#[test]
fn plain_text_is_escaped() {
    assert_eq!(pattern_expression("a#b-c"), "(?i).*a\\#b\\-c.*");
    assert_eq!(pattern_expression("a.c"), "(?i)a.c");
    assert!(regex_matches("x A#B-C y", "a#b-c"));
    assert!(!regex_matches("abc", "a#b-c"));
}

#[test]
fn metacharacters_are_told_apart() {
    for c in [".", "*", "+", "?", "[", "]", "(", ")", "{", "}", "|", "^", "$", "\\"] {
        assert!(has_regex_metacharacters(c), "{c}");
    }
    assert!(!has_regex_metacharacters("plain text-#&~ 12"));
    assert!(!has_regex_metacharacters(""));
}

#[test]
fn a_pattern_that_does_not_compile_matches_nothing() {
    assert!(!regex_matches("anything", "("));
    assert!(!search_found(None));
    assert!(search_found(Some(true)));
    assert!(!search_found(Some(false)));
}

#[test]
fn no_pattern_minds_the_case_of_letters() {
    for hay in ["RESTAURANT A", "Restaurant a", "restaurant A"] {
        assert!(regex_matches(hay, "Rest.*ant"), "{hay}");
        assert!(regex_matches(hay, "x|^[R-S]EST"), "{hay}");
        assert!(regex_matches(hay, "rESTAURANT"), "{hay}");
        assert!(!regex_matches(hay, "^[^r]"), "{hay}");
    }
    // Unless it says so itself.
    assert!(!regex_matches("RESTAURANT A", "(?-i)Rest.*ant"));
}
