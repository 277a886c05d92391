use nn_io_rs::filters::{
    compendium_reference_ids, filter_compendia_lines, filter_conflation_lines,
};
use nn_io_rs::types::FilterError;

fn strings(items: &[&str]) -> Vec<String> {
    items.iter().map(|s| s.to_string()).collect()
}

#[test]
fn compendia_filter_keeps_lines_at_or_over_floor() {
    let lines = strings(&[
        "{\"identifiers\":[{\"i\":\"A\"},{\"i\":\"B\"}]}",
        "{\"identifiers\":[{\"i\":\"C\"}]}",
        "{\"nothing\":1}",
        "{\"identifiers\":[{\"i\":\"D\"},{\"i\":\"E\"},{\"i\":\"F\"}]}",
    ]);
    let kept = filter_compendia_lines(&lines, 2, 100).unwrap();
    assert_eq!(kept, vec![lines[0].clone(), lines[3].clone()]);
}

#[test]
fn compendia_filter_stops_at_the_limit() {
    // Once the limit is reached, later lines are not even examined: the
    // malformed trailing line raises no error.
    let lines = strings(&[
        "{\"identifiers\":[{\"i\":\"A\"},{\"i\":\"B\"}]}",
        "{\"identifiers\":[{\"i\":\"C\"},{\"i\":\"D\"}]}",
        "this line is not json",
    ]);
    let kept = filter_compendia_lines(&lines, 2, 1).unwrap();
    assert_eq!(kept, vec![lines[0].clone()]);
}

#[test]
fn compendia_filter_fails_on_malformed_line() {
    let lines = strings(&["not json at all"]);
    let out = filter_compendia_lines(&lines, 2, 100);
    assert!(matches!(out, Err(FilterError::MalformedLine)));
}

#[test]
fn compendia_filter_skips_non_object_lines() {
    let lines = strings(&["[1,2,3]", "\"just a string\""]);
    let kept = filter_compendia_lines(&lines, 1, 100).unwrap();
    assert!(kept.is_empty());
}

#[test]
fn reference_ids_take_the_first_identifier() {
    let lines = strings(&[
        "{\"identifiers\":[{\"i\":\"X:1\",\"l\":\"x\"},{\"i\":\"X:2\"}]}",
        "{\"no_identifiers\":true}",
        "{\"identifiers\":[{\"i\":\"Y:1\"}]}",
    ]);
    let ids = compendium_reference_ids(&lines).unwrap();
    assert_eq!(ids, vec!["X:1".to_string(), "Y:1".to_string()]);
}

#[test]
fn reference_ids_fail_on_malformed_line() {
    let lines = strings(&["{\"identifiers\":[{\"i\":\"X:1\"}]}", "broken"]);
    let out = compendium_reference_ids(&lines);
    assert!(matches!(out, Err(FilterError::MalformedLine)));
}

#[test]
fn reference_ids_fail_on_empty_identifier_array() {
    let lines = strings(&["{\"identifiers\":[]}"]);
    let out = compendium_reference_ids(&lines);
    assert!(matches!(out, Err(FilterError::MalformedLine)));
}

#[test]
fn conflation_filter_keeps_members() {
    let reference = strings(&["X:1", "Y:1"]);
    let lines = strings(&[
        "[\"X:1\",\"X:2\"]",
        "[\"Z:1\",\"Z:2\"]",
        "{\"not\":\"an array\"}",
        "[\"Y:1\"]",
    ]);
    let kept = filter_conflation_lines(&lines, &reference, 100).unwrap();
    assert_eq!(kept, vec![lines[0].clone(), lines[3].clone()]);
}

#[test]
fn conflation_filter_stops_at_the_limit() {
    let reference = strings(&["X:1"]);
    let lines = strings(&["[\"X:1\"]", "not json"]);
    let kept = filter_conflation_lines(&lines, &reference, 1).unwrap();
    assert_eq!(kept, vec![lines[0].clone()]);
}

#[test]
fn conflation_filter_fails_on_non_string_lead() {
    let reference = strings(&["X:1"]);
    let lines = strings(&["[1,2]"]);
    let out = filter_conflation_lines(&lines, &reference, 100);
    assert!(matches!(out, Err(FilterError::MalformedLine)));
}

#[test]
fn conflation_filter_fails_on_malformed_line() {
    let reference = strings(&["X:1"]);
    let lines = strings(&["{{{{"]);
    let out = filter_conflation_lines(&lines, &reference, 100);
    assert!(matches!(out, Err(FilterError::MalformedLine)));
}
