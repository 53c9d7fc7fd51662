use sudachi_vibrato_converter::merge_scientific_notation_tokens;

#[test]
fn merges_only_scientific_notation_pattern() {
    let input = ["1e", "-", "3", "x", "2E", "+", "10"];
    let actual = merge_scientific_notation_tokens(&input);
    assert_eq!(actual, vec!["1e-3", "x", "2E+10"]);
}

#[test]
fn does_not_merge_non_scientific_patterns() {
    let input = ["1", "-", "3", "k8s", "abc"];
    let actual = merge_scientific_notation_tokens(&input);
    assert_eq!(actual, vec!["1", "-", "3", "k8s", "abc"]);
}

#[test]
fn ignores_invalid_left_or_right_side() {
    let input = ["e", "-", "3", "1e", "-", "x"];
    let actual = merge_scientific_notation_tokens(&input);
    assert_eq!(actual, vec!["e", "-", "3", "1e", "-", "x"]);
}

#[test]
fn merge_of_nothing_is_nothing() {
    let input: [&str; 0] = [];
    assert!(merge_scientific_notation_tokens(&input).is_empty());
}

#[test]
fn merge_needs_three_tokens() {
    let input = ["1e", "-"];
    assert_eq!(merge_scientific_notation_tokens(&input), vec!["1e", "-"]);
}

#[test]
fn merge_goes_on_behind_a_joined_number() {
    let input = ["1e", "-", "3", "-", "4"];
    assert_eq!(merge_scientific_notation_tokens(&input), vec!["1e-3", "-", "4"]);
    let input = ["12E", "+", "7", "3e", "-", "1"];
    assert_eq!(merge_scientific_notation_tokens(&input), vec!["12E+7", "3e-1"]);
}

#[test]
fn merge_wants_ascii_digits() {
    let input = ["１e", "-", "3"];
    assert_eq!(merge_scientific_notation_tokens(&input), vec!["１e", "-", "3"]);
    let input = ["1e", "-", "３"];
    assert_eq!(merge_scientific_notation_tokens(&input), vec!["1e", "-", "３"]);
    let input = ["1e", "−", "3"];
    assert_eq!(merge_scientific_notation_tokens(&input), vec!["1e", "−", "3"]);
}
