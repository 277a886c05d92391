use nn_io_rs::convert::{collapse_adjacent, sssom_to_legacy_format};
use nn_io_rs::serialize::serialize_entry;
use nn_io_rs::types::{CompendiaEntry, CompendiaIdentifier, ConversionError};

const HEADER: &str = "subject_id\tsubject_label\tsubject_category\tpredicate_id\tobject_id\tobject_label\tobject_category\tmatch_type\tother";

fn table(rows: &[&str]) -> String {
    let mut content = String::from(HEADER);
    content.push('\n');
    for row in rows {
        content.push_str(row);
        content.push('\n');
    }
    content
}

#[test]
fn self_reference_round_trip() {
    let content = table(&[
        "CL:0002010\tpre-conventional dendritic cell\tbiolink:Cell\tskos:exactMatch\tCL:0002010\t\tbiolink:Cell\t\t{}",
    ]);
    let lines = sssom_to_legacy_format(&content).unwrap();
    assert_eq!(
        lines,
        vec![
            "{\"type\":\"biolink:Cell\",\"identifiers\":[{\"i\":\"CL:0002010\",\"l\":\"pre-conventional dendritic cell\"}]}"
                .to_string()
        ]
    );
}

#[test]
fn multi_row_grouping() {
    let content = table(&[
        "S:1\tsubject one\tbiolink:Disease\tskos:exactMatch\tO:1\tobject one\tbiolink:Disease\t\t{}",
        "S:1\tsubject one\tbiolink:Disease\tskos:exactMatch\tO:2\tobject two\tbiolink:Disease\t\t{}",
    ]);
    let lines = sssom_to_legacy_format(&content).unwrap();
    assert_eq!(
        lines,
        vec![
            "{\"type\":\"biolink:Disease\",\"identifiers\":[{\"i\":\"S:1\",\"l\":\"subject one\"},{\"i\":\"O:1\",\"l\":\"object one\"},{\"i\":\"O:2\",\"l\":\"object two\"}]}"
                .to_string()
        ]
    );
}

#[test]
fn self_reference_among_others_is_suppressed() {
    let content = table(&[
        "S:1\tsub\tbiolink:Cell\t\tO:1\tone\tbiolink:Cell\t\t{}",
        "S:1\tsub\tbiolink:Cell\t\tS:1\tsub\tbiolink:Cell\t\t{}",
        "S:1\tsub\tbiolink:Cell\t\tO:2\ttwo\tbiolink:Cell\t\t{}",
    ]);
    let lines = sssom_to_legacy_format(&content).unwrap();
    assert_eq!(
        lines,
        vec![
            "{\"type\":\"biolink:Cell\",\"identifiers\":[{\"i\":\"S:1\",\"l\":\"sub\"},{\"i\":\"O:1\",\"l\":\"one\"},{\"i\":\"O:2\",\"l\":\"two\"}]}"
                .to_string()
        ]
    );
}

#[test]
fn one_entry_per_distinct_key() {
    // Key equality needs all three of category, id and label to agree: the
    // third row differs only in the label and still opens its own group.
    let content = table(&[
        "S:1\tlabel a\tbiolink:Cell\t\tO:1\t\tbiolink:Cell\t\t{}",
        "S:2\tlabel b\tbiolink:Cell\t\tO:2\t\tbiolink:Cell\t\t{}",
        "S:1\tlabel c\tbiolink:Cell\t\tO:3\t\tbiolink:Cell\t\t{}",
    ]);
    let lines = sssom_to_legacy_format(&content).unwrap();
    assert_eq!(lines.len(), 3);
}

#[test]
fn numeric_information_content_is_carried() {
    let content = table(&[
        "S:1\tsub\tbiolink:Cell\t\tO:1\tone\tbiolink:Cell\t\t{\"subject_information_content\": 100}",
    ]);
    let lines = sssom_to_legacy_format(&content).unwrap();
    assert_eq!(
        lines,
        vec![
            "{\"type\":\"biolink:Cell\",\"ic\":\"100\",\"identifiers\":[{\"i\":\"S:1\",\"l\":\"sub\"},{\"i\":\"O:1\",\"l\":\"one\"}]}"
                .to_string()
        ]
    );
}

#[test]
fn string_information_content_keeps_its_json_text() {
    // The score is carried as the literal JSON text of the field, so a JSON
    // string value keeps its quotes, which the serializer then escapes.
    let content = table(&[
        "S:1\tsub\tbiolink:Cell\t\tO:1\tone\tbiolink:Cell\t\t{\"subject_information_content\": \"85.6\"}",
    ]);
    let lines = sssom_to_legacy_format(&content).unwrap();
    assert_eq!(lines.len(), 1);
    assert!(lines[0].contains("\"ic\":\"\\\"85.6\\\"\""));
}

#[test]
fn null_information_content_is_ignored() {
    let content = table(&[
        "S:1\tsub\tbiolink:Cell\t\tO:1\tone\tbiolink:Cell\t\t{\"subject_information_content\": null}",
    ]);
    let lines = sssom_to_legacy_format(&content).unwrap();
    assert_eq!(lines.len(), 1);
    assert!(!lines[0].contains("\"ic\""));
}

#[test]
fn adjacent_duplicate_candidates_collapse_end_to_end() {
    // Candidates 7, 7, 8, 7 collapse to 7, 8, 7; the chosen value is the
    // first element, 7.
    let content = table(&[
        "S:1\tsub\tbiolink:Cell\t\tO:1\t\tbiolink:Cell\t\t{\"subject_information_content\": 7}",
        "S:1\tsub\tbiolink:Cell\t\tO:2\t\tbiolink:Cell\t\t{\"subject_information_content\": 7}",
        "S:1\tsub\tbiolink:Cell\t\tO:3\t\tbiolink:Cell\t\t{\"subject_information_content\": 8}",
        "S:1\tsub\tbiolink:Cell\t\tO:4\t\tbiolink:Cell\t\t{\"subject_information_content\": 7}",
    ]);
    let lines = sssom_to_legacy_format(&content).unwrap();
    assert_eq!(lines.len(), 1);
    assert!(lines[0].contains("\"ic\":\"7\""));
}

#[test]
fn collapse_adjacent_keeps_non_adjacent_repeats() {
    let values = vec![
        "A".to_string(),
        "A".to_string(),
        "B".to_string(),
        "A".to_string(),
    ];
    let collapsed = collapse_adjacent(&values);
    assert_eq!(
        collapsed,
        vec!["A".to_string(), "B".to_string(), "A".to_string()]
    );
    assert_eq!(collapsed[0], "A".to_string());
}

#[test]
fn empty_table_yields_empty_output() {
    let content = format!("{}\n", HEADER);
    let lines = sssom_to_legacy_format(&content).unwrap();
    assert!(lines.is_empty());
}

#[test]
fn empty_input_yields_empty_output() {
    let lines = sssom_to_legacy_format("").unwrap();
    assert!(lines.is_empty());
}

#[test]
fn malformed_payload_fails_whole_conversion() {
    // The first row is fine on its own; the bad payload in the second row
    // still fails the whole call, with no partial output.
    let content = table(&[
        "S:1\tsub\tbiolink:Cell\t\tO:1\t\tbiolink:Cell\t\t{}",
        "S:2\tother\tbiolink:Cell\t\tO:2\t\tbiolink:Cell\t\tnot json",
    ]);
    let out = sssom_to_legacy_format(&content);
    assert!(matches!(out, Err(ConversionError::PayloadParse)));
}

#[test]
fn short_row_fails_whole_conversion() {
    let content = table(&[
        "S:1\tsub\tbiolink:Cell\t\tO:1\t\tbiolink:Cell\t\t{}",
        "S:2\tonly\tthree",
    ]);
    let out = sssom_to_legacy_format(&content);
    assert!(matches!(out, Err(ConversionError::RowParse)));
}

#[test]
fn serializer_omits_ic_and_empty_labels() {
    let entry = CompendiaEntry {
        compendia_type: "biolink:Gene".to_string(),
        information_content: None,
        identifiers: vec![
            CompendiaIdentifier { id: "G:1".to_string(), label: "gene".to_string() },
            CompendiaIdentifier { id: "G:2".to_string(), label: "".to_string() },
        ],
    };
    let line = serialize_entry(&entry);
    assert_eq!(
        line,
        "{\"type\":\"biolink:Gene\",\"identifiers\":[{\"i\":\"G:1\",\"l\":\"gene\"},{\"i\":\"G:2\"}]}"
    );
}

#[test]
fn serializer_escapes_special_characters() {
    let entry = CompendiaEntry {
        compendia_type: "a\"b\\c".to_string(),
        information_content: Some("x\ny".to_string()),
        identifiers: vec![CompendiaIdentifier {
            id: "I:1".to_string(),
            label: "tab\there\u{1}".to_string(),
        }],
    };
    let line = serialize_entry(&entry);
    assert_eq!(
        line,
        "{\"type\":\"a\\\"b\\\\c\",\"ic\":\"x\\ny\",\"identifiers\":[{\"i\":\"I:1\",\"l\":\"tab\\there\\u0001\"}]}"
    );
}

#[test]
fn serialized_lines_parse_as_json() {
    let content = table(&[
        "S:1\ts \"quoted\" label\tbiolink:Cell\t\tO:1\tback\\slash\tbiolink:Cell\t\t{\"subject_information_content\": 3}",
    ]);
    let lines = sssom_to_legacy_format(&content).unwrap();
    let value: serde_json::Value = serde_json::from_str(&lines[0]).unwrap();
    assert_eq!(value["type"], "biolink:Cell");
    assert_eq!(value["ic"], "3");
    assert_eq!(value["identifiers"][0]["i"], "S:1");
    assert_eq!(value["identifiers"][0]["l"], "s \"quoted\" label");
    assert_eq!(value["identifiers"][1]["l"], "back\\slash");
}

#[test]
fn groups_emit_in_first_appearance_order() {
    let content = table(&[
        "S:1\tone\tbiolink:Cell\t\tO:1\t\tbiolink:Cell\t\t{}",
        "S:2\ttwo\tbiolink:Cell\t\tO:2\t\tbiolink:Cell\t\t{}",
        "S:1\tone\tbiolink:Cell\t\tO:3\t\tbiolink:Cell\t\t{}",
    ]);
    let lines = sssom_to_legacy_format(&content).unwrap();
    assert_eq!(lines.len(), 2);
    assert_eq!(
        lines[0],
        "{\"type\":\"biolink:Cell\",\"identifiers\":[{\"i\":\"S:1\",\"l\":\"one\"},{\"i\":\"O:1\"},{\"i\":\"O:3\"}]}"
    );
    assert_eq!(
        lines[1],
        "{\"type\":\"biolink:Cell\",\"identifiers\":[{\"i\":\"S:2\",\"l\":\"two\"},{\"i\":\"O:2\"}]}"
    );
}

#[test]
fn row_parse_failure_takes_precedence() {
    // The whole table is read before any payload is probed, so a malformed
    // row is reported even when an earlier row carries a bad payload.
    let content = table(&[
        "S:1\tsub\tbiolink:Cell\t\tO:1\t\tbiolink:Cell\t\tnot json",
        "too\tfew\tfields",
    ]);
    let out = sssom_to_legacy_format(&content);
    assert!(matches!(out, Err(ConversionError::RowParse)));
}
