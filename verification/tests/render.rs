use tableformat_list::CliError;
use tableformat_list::ListTableFormats;
use tableformat_list::OutputType;
use tableformat_list::Record;
use tableformat_list::TransportError;
use tableformat_list::process_list_fetch;
use tableformat_list::tableformats_response_to_output;

fn rec(name: &str, status: &str, spec_payload: &str) -> Record {
    Record {
        name: name.to_string(),
        status: status.to_string(),
        spec_payload: spec_payload.to_string(),
    }
}

#[test]
fn empty_collection_table_mode_emits_notice() {
    let out = tableformats_response_to_output(ListTableFormats(Vec::new()), OutputType::Table);
    assert_eq!(out, "no tableformats");
}

#[test]
fn empty_collection_json_mode_emits_notice() {
    let out = tableformats_response_to_output(ListTableFormats(Vec::new()), OutputType::Json);
    assert_eq!(out, "no tableformats");
}

#[test]
fn header_is_name_and_status() {
    let empty = ListTableFormats(Vec::new());
    assert_eq!(empty.header(), vec!["NAME".to_string(), "STATUS".to_string()]);
    let full = ListTableFormats(vec![rec("a", "b", "c"), rec("d", "e", "f")]);
    assert_eq!(full.header(), vec!["NAME".to_string(), "STATUS".to_string()]);
}

#[test]
fn errors_hook_is_always_empty() {
    let empty = ListTableFormats(Vec::new());
    assert!(empty.errors().is_empty());
    let full = ListTableFormats(vec![rec("t1", "Resolved", "s1"), rec("t2", "Pending", "s2")]);
    assert!(full.errors().is_empty());
}

#[test]
fn content_maps_each_record_to_a_row_in_order() {
    let list = ListTableFormats(vec![rec("t1", "Resolved", "s1"), rec("t2", "Pending", "s2")]);
    let rows = list.content();
    assert_eq!(rows.len(), 2);
    assert_eq!(rows[0], vec!["t1".to_string(), "Resolved".to_string()]);
    assert_eq!(rows[1], vec!["t2".to_string(), "Pending".to_string()]);
}

#[test]
fn table_text_holds_header_and_rows_in_order() {
    let list = ListTableFormats(vec![rec("t1", "Resolved", "s1"), rec("t2", "Pending", "s2")]);
    let out = tableformats_response_to_output(list, OutputType::Table);
    assert!(out.contains("NAME"));
    assert!(out.contains("STATUS"));
    assert!(out.contains("t1"));
    assert!(out.contains("Resolved"));
    assert!(out.contains("t2"));
    assert!(out.contains("Pending"));
    // prettytable draws borders, so the text is a laid-out table, not the raw cells
    assert!(out.contains("+"));
    assert!(out.contains("|"));
    let i1 = out.find("t1").unwrap();
    let i2 = out.find("t2").unwrap();
    assert!(i1 < i2);
}

#[test]
fn table_mode_sanitizes_the_escape_character() {
    // An ANSI escape span whose ligature content would trip prettytable's
    // width measure: with U+001B replaced, layout stays total.
    let tricky = "\u{1b}[\u{5d0}\u{200d}\u{5dc}\u{5d0}\u{200d}\u{5dc}m";
    let list = ListTableFormats(vec![rec(tricky, "\u{1b}[31mRed", "s")]);
    let out = tableformats_response_to_output(list, OutputType::Table);
    assert!(out.contains('\u{fffd}'));
    assert!(out.contains("[31mRed"));
    assert!(!out.contains('\u{1b}'));
}

#[test]
fn del_and_c1_controls_are_hex_escaped() {
    let list = ListTableFormats(vec![rec("a\u{7f}b", "c\u{85}d", "e\u{9f}f")]);
    let out = tableformats_response_to_output(list, OutputType::Json);
    assert_eq!(
        out,
        "[{\"name\":\"a\\u007fb\",\"status\":\"c\\u0085d\",\"spec\":\"e\\u009ff\"}]"
    );
}

#[test]
fn json_output_is_the_exact_document() {
    let list = ListTableFormats(vec![rec("t1", "Resolved", "")]);
    let out = tableformats_response_to_output(list, OutputType::Json);
    assert_eq!(out, "[{\"name\":\"t1\",\"status\":\"Resolved\",\"spec\":\"\"}]");
}

#[test]
fn json_escapes_are_exact() {
    let list = ListTableFormats(vec![rec("a\"b", "c\\d", "e\nf\tg\u{1}h")]);
    let out = tableformats_response_to_output(list, OutputType::Json);
    assert_eq!(
        out,
        "[{\"name\":\"a\\\"b\",\"status\":\"c\\\\d\",\"spec\":\"e\\nf\\tg\\u0001h\"}]"
    );
}

#[test]
fn json_round_trips_through_a_real_parser() {
    let records = vec![
        rec("t1", "Resolved", "{\"input\":\"json\"}"),
        rec("quote\"back\\slash", "line\nbreak", "tab\tand\rctrl\u{2}end"),
        rec("del\u{7f}", "nel\u{85}", "c1\u{9f}"),
    ];
    let expected: Vec<(String, String, String)> = records
        .iter()
        .map(|r| (r.name.clone(), r.status.clone(), r.spec_payload.clone()))
        .collect();
    let out = tableformats_response_to_output(ListTableFormats(records), OutputType::Json);
    let doc: serde_json::Value = serde_json::from_str(&out).unwrap();
    let items = doc.as_array().unwrap();
    assert_eq!(items.len(), expected.len());
    for (item, (name, status, spec_payload)) in items.iter().zip(expected.iter()) {
        assert_eq!(item.get("name").unwrap().as_str().unwrap(), name);
        assert_eq!(item.get("status").unwrap().as_str().unwrap(), status);
        assert_eq!(item.get("spec").unwrap().as_str().unwrap(), spec_payload);
    }
}

#[test]
fn empty_collection_yaml_mode_emits_notice() {
    let out = tableformats_response_to_output(ListTableFormats(Vec::new()), OutputType::Yaml);
    assert_eq!(out, "no tableformats");
}

#[test]
fn yaml_output_is_the_exact_document() {
    let list = ListTableFormats(vec![rec("t1", "Resolved", ""), rec("t2", "Pending", "p")]);
    let out = tableformats_response_to_output(list, OutputType::Yaml);
    assert_eq!(
        out,
        "- name: \"t1\"\n  status: \"Resolved\"\n  spec: \"\"\n\
         - name: \"t2\"\n  status: \"Pending\"\n  spec: \"p\"\n"
    );
}

#[test]
fn yaml_round_trips_through_a_real_parser() {
    let records = vec![
        rec("t1", "Resolved", "{\"input\":\"json\"}"),
        rec("quote\"back\\slash", "line\nbreak", "tab\tand\rctrl\u{2}end"),
        rec("del\u{7f}", "nel\u{85}", "c1\u{9f}"),
    ];
    let expected: Vec<(String, String, String)> = records
        .iter()
        .map(|r| (r.name.clone(), r.status.clone(), r.spec_payload.clone()))
        .collect();
    let out = tableformats_response_to_output(ListTableFormats(records), OutputType::Yaml);
    let doc: serde_yaml::Value = serde_yaml::from_str(&out).unwrap();
    let items = doc.as_sequence().unwrap();
    assert_eq!(items.len(), expected.len());
    for (item, (name, status, spec_payload)) in items.iter().zip(expected.iter()) {
        assert_eq!(item.get("name").unwrap().as_str().unwrap(), name);
        assert_eq!(item.get("status").unwrap().as_str().unwrap(), status);
        assert_eq!(item.get("spec").unwrap().as_str().unwrap(), spec_payload);
    }
}

#[test]
fn failed_fetch_is_propagated_and_nothing_rendered() {
    let fetch = Err(TransportError { message: "admin endpoint unreachable".to_string() });
    let result = process_list_fetch(fetch, OutputType::Table);
    match result {
        Err(CliError::Transport(e)) => {
            assert_eq!(e.message, "admin endpoint unreachable");
        }
        other => panic!("expected a transport failure, got {:?}", other),
    }
}

#[test]
fn successful_fetch_is_rendered() {
    let fetch = Ok(vec![rec("t1", "Resolved", "")]);
    let result = process_list_fetch(fetch, OutputType::Json);
    match result {
        Ok(out) => assert_eq!(out, "[{\"name\":\"t1\",\"status\":\"Resolved\",\"spec\":\"\"}]"),
        other => panic!("expected rendered output, got {:?}", other),
    }
}

#[test]
fn successful_empty_fetch_renders_the_notice() {
    let fetch = Ok(Vec::new());
    let result = process_list_fetch(fetch, OutputType::Json);
    match result {
        Ok(out) => assert_eq!(out, "no tableformats"),
        other => panic!("expected the empty notice, got {:?}", other),
    }
}
