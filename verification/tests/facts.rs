use behest::facts::{categorize, detect_facts, FactCategory};

#[test]
fn category_display() {
    assert_eq!(FactCategory::Preference.to_string(), "preference");
    assert_eq!(FactCategory::Environment.to_string(), "environment");
    assert_eq!(FactCategory::Solution.to_string(), "solution");
    assert_eq!(FactCategory::Pattern.to_string(), "pattern");
    assert_eq!(FactCategory::Other.to_string(), "other");
}

#[test]
fn detects_for_future_reference() {
    let facts = detect_facts("for future reference: the DB is postgres");
    assert_eq!(facts.len(), 1);
    assert_eq!(facts[0].category, FactCategory::Environment);
}

#[test]
fn detects_i_prefer() {
    let facts = detect_facts("I prefer tabs over spaces");
    assert_eq!(facts.len(), 1);
    assert_eq!(facts[0].category, FactCategory::Preference);
}

#[test]
fn detects_i_always_and_i_never() {
    let always = detect_facts("I always run tests before commit");
    assert!(always.iter().any(|f| f.category == FactCategory::Preference));
    let never = detect_facts("I never push to main directly");
    assert!(never.iter().any(|f| f.category == FactCategory::Preference));
}

#[test]
fn detects_we_use() {
    let facts = detect_facts("we use tokio for async runtime");
    assert_eq!(facts.len(), 1);
    assert_eq!(facts[0].category, FactCategory::Other);
}

#[test]
fn detects_the_x_pattern() {
    let facts = detect_facts("the database is on port 5432");
    assert!(!facts.is_empty());
    assert!(facts.iter().any(|f| f.category == FactCategory::Environment));
}

#[test]
fn detects_multiple_facts_in_one_input() {
    let input = "please remember that I prefer tabs. note that the port is 5432";
    let facts = detect_facts(input);
    assert_eq!(facts.len(), 2);
    assert!(facts.iter().any(|f| f.category == FactCategory::Preference));
    assert!(facts.iter().any(|f| f.category == FactCategory::Environment));
}

#[test]
fn deduplicates_case_insensitive() {
    let input = "I prefer tabs. I prefer tabs.";
    let facts = detect_facts(input);
    let contents: Vec<&str> = facts.iter().map(|f| f.content.as_str()).collect();
    let tab_facts: Vec<_> = contents
        .into_iter()
        .filter(|c| c.to_lowercase().contains("tabs"))
        .collect();
    assert!(tab_facts.len() <= 1);
}

#[test]
fn no_facts_for_plain_text() {
    let facts = detect_facts("hello world, how are you today?");
    assert!(facts.is_empty());
}

#[test]
fn rejects_too_short_facts() {
    let facts = detect_facts("I prefer a");
    assert!(facts.is_empty());
}

#[test]
fn rejects_too_long_facts() {
    let long_body = "x".repeat(300);
    let input = format!("please remember that {long_body}");
    let facts = detect_facts(&input);
    assert!(facts.is_empty());
}

#[test]
fn categorizes_solution_keywords() {
    let facts = detect_facts("please remember that the fix is to restart the server");
    assert!(facts.iter().any(|f| f.category == FactCategory::Solution));
}

#[test]
fn categorizes_pattern_keywords() {
    let facts = detect_facts("please remember that our convention is to use snake_case");
    assert!(facts.iter().any(|f| f.category == FactCategory::Pattern));
}

#[test]
fn empty_input_returns_empty() {
    assert!(detect_facts("").is_empty());
}

#[test]
fn please_remember_wins_over_remember_that() {
    let facts = detect_facts("please remember that the API is at v2");
    assert_eq!(facts.len(), 1);
    assert_eq!(facts[0].category, FactCategory::Environment);
    assert_eq!(facts[0].matched_pattern, "please_remember");
    assert_eq!(facts[0].content, "the API is at v2");
}

#[test]
fn categorize_checks_preference_before_environment() {
    assert_eq!(categorize("I like the server"), FactCategory::Preference);
    assert_eq!(categorize("fix the SERVER"), FactCategory::Solution);
    assert_eq!(categorize("nothing here"), FactCategory::Other);
}
