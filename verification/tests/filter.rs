use line_filter::contains_pattern;
use line_filter::find_matching_lines;

fn sample_lines() -> Vec<String> {
    vec![
        "lorem ipsum".to_string(),
        "dolor sit amet".to_string(),
        "lorem ipsum".to_string(),
    ]
}

#[test]
fn scenario_lorem_emits_both_lorem_lines() {
    let out = find_matching_lines("lorem", &sample_lines());
    assert_eq!(out, vec!["lorem ipsum".to_string(), "lorem ipsum".to_string()]);
    assert_eq!(
        line_filter::render_lines(&out).as_bytes(),
        b"lorem ipsum\nlorem ipsum\n"
    );
}

#[test]
fn scenario_amet_emits_middle_line() {
    let out = find_matching_lines("amet", &sample_lines());
    assert_eq!(out, vec!["dolor sit amet".to_string()]);
    assert_eq!(line_filter::render_lines(&out), "dolor sit amet\n");
}

#[test]
fn scenario_zzz_emits_nothing() {
    let out = find_matching_lines("zzz", &sample_lines());
    assert!(out.is_empty());
    assert_eq!(line_filter::render_lines(&out), "");
}

#[test]
fn empty_pattern_emits_every_line_in_order() {
    let out = find_matching_lines("", &sample_lines());
    assert_eq!(out, sample_lines());
}

#[test]
fn pattern_longer_than_every_line_emits_nothing() {
    let out = find_matching_lines("dolor sit amet and then some", &sample_lines());
    assert!(out.is_empty());
}

#[test]
fn running_twice_yields_identical_output() {
    let lines = sample_lines();
    let first = find_matching_lines("lorem", &lines);
    let second = find_matching_lines("lorem", &lines);
    assert_eq!(first, second);
}

#[test]
fn contains_pattern_empty_pattern_matches_any_line() {
    assert!(contains_pattern("lorem ipsum", ""));
    assert!(contains_pattern("", ""));
}

#[test]
fn contains_pattern_full_line_matches() {
    assert!(contains_pattern("dolor sit amet", "dolor sit amet"));
}

#[test]
fn contains_pattern_is_case_sensitive() {
    assert!(!contains_pattern("lorem ipsum", "Lorem"));
}

#[test]
fn contains_pattern_finds_inner_occurrence() {
    assert!(contains_pattern("dolor sit amet", "sit"));
    assert!(!contains_pattern("dolor sit amet", "sits"));
}

#[test]
fn contains_pattern_pattern_longer_than_line_never_matches() {
    assert!(!contains_pattern("ab", "abc"));
    assert!(!contains_pattern("", "a"));
}

#[test]
fn overlapping_occurrences_emit_the_line_once() {
    let lines = vec!["aaaa".to_string()];
    let out = find_matching_lines("aa", &lines);
    assert_eq!(out, vec!["aaaa".to_string()]);
}

#[test]
fn lines_are_emitted_unaltered() {
    let lines = vec!["  padded lorem  ".to_string()];
    let out = find_matching_lines("lorem", &lines);
    assert_eq!(out, vec!["  padded lorem  ".to_string()]);
}
