use staf::audit::{
    intermediate_record, record_line, request_body_value, request_record, response_record,
    run_id_bytes, stage2_input_record,
};
use staf::json::{u64_to_dec, JsonValue};
use staf::parser::{parse_response_text, trim_bytes, outcome_from_response, RowOutcome};
use staf::render::{render_prompt, replace_all, value_text, Row};

fn num(s: &str) -> JsonValue {
    JsonValue::Num(s.as_bytes().to_vec())
}

fn st(s: &str) -> JsonValue {
    JsonValue::Str(s.as_bytes().to_vec())
}

#[test]
fn serializer_writes_canonical_json() {
    let v = JsonValue::Obj(vec![
        (b"a".to_vec(), num("1")),
        (
            b"b".to_vec(),
            JsonValue::Arr(vec![JsonValue::Null, JsonValue::Bool(true), st("x")]),
        ),
    ]);
    assert_eq!(v.to_bytes(), b"{\"a\":1,\"b\":[null,true,\"x\"]}".to_vec());
}

#[test]
fn serializer_escapes_string_contents() {
    let v = st("a\"b\\c\nd\te\u{1}");
    assert_eq!(v.to_bytes(), b"\"a\\\"b\\\\c\\nd\\te\\u0001\"".to_vec());
}

#[test]
fn serializer_output_parses_back() {
    let v = JsonValue::Obj(vec![
        (b"text".to_vec(), st("line1\nline2")),
        (b"n".to_vec(), num("-12.5e3")),
        (b"empty".to_vec(), JsonValue::Obj(vec![])),
        (b"arr".to_vec(), JsonValue::Arr(vec![])),
    ]);
    let bytes = v.to_bytes();
    let parsed: serde_json::Value = serde_json::from_slice(&bytes).expect("round trip");
    assert_eq!(parsed["text"].as_str(), Some("line1\nline2"));
    assert_eq!(parsed["n"].as_f64(), Some(-12.5e3));
}

#[test]
fn decimal_rendering_is_exact() {
    assert_eq!(u64_to_dec(0), b"0".to_vec());
    assert_eq!(u64_to_dec(7), b"7".to_vec());
    assert_eq!(u64_to_dec(1234567890), b"1234567890".to_vec());
    assert_eq!(u64_to_dec(u64::MAX), b"18446744073709551615".to_vec());
}

#[test]
fn run_id_matches_decimal_dash_hex_form() {
    let millis: u64 = 1700000000123;
    let expected = format!("{}-{:04x}", millis, millis & 0xFFFF);
    assert_eq!(run_id_bytes(millis), expected.into_bytes());
    // Zero-padding of the hex suffix.
    assert_eq!(run_id_bytes(65536), b"65536-0000".to_vec());
    assert_eq!(run_id_bytes(15), b"15-000f".to_vec());
}

#[test]
fn replace_all_replaces_every_occurrence_left_to_right() {
    let s = b"ababab".to_vec();
    let out = replace_all(&s, &b"ab".to_vec(), &b"x".to_vec());
    assert_eq!(out, b"xxx".to_vec());
    // Replaced text is not rescanned.
    let out = replace_all(&b"aab".to_vec(), &b"ab".to_vec(), &b"ab!".to_vec());
    assert_eq!(out, b"aab!".to_vec());
    // No occurrence: unchanged.
    let out = replace_all(&b"hello".to_vec(), &b"zz".to_vec(), &b"y".to_vec());
    assert_eq!(out, b"hello".to_vec());
}

#[test]
fn render_substitutes_fields_in_row_order() {
    let row = Row(vec![
        (b"name".to_vec(), st("World")),
        (b"age".to_vec(), num("7")),
        (b"tags".to_vec(), JsonValue::Arr(vec![st("a"), st("b")])),
    ]);
    let template = b"Hi {{name}} ({{age}}): {{tags}} and {{name}} again".to_vec();
    let out = render_prompt(&template, &row);
    assert_eq!(
        out,
        b"Hi World (7): [\"a\",\"b\"] and World again".to_vec()
    );
}

#[test]
fn render_applies_fields_sequentially() {
    // A value substituted early is itself scanned when later fields are
    // applied, because fields are substituted one after another.
    let row = Row(vec![
        (b"a".to_vec(), st("{{b}}")),
        (b"b".to_vec(), st("x")),
    ]);
    let out = render_prompt(&b"{{a}}".to_vec(), &row);
    assert_eq!(out, b"x".to_vec());
}

#[test]
fn value_text_uses_raw_strings_and_json_otherwise() {
    assert_eq!(value_text(&st("plain")), b"plain".to_vec());
    assert_eq!(value_text(&JsonValue::Null), b"null".to_vec());
    assert_eq!(value_text(&num("42")), b"42".to_vec());
}

#[test]
fn trim_strips_surrounding_ascii_whitespace() {
    assert_eq!(trim_bytes(&b"  {\"a\":1}\r\n".to_vec()), b"{\"a\":1}".to_vec());
    assert_eq!(trim_bytes(&b"\t\n \r".to_vec()), b"".to_vec());
    assert_eq!(trim_bytes(&b"x".to_vec()), b"x".to_vec());
    assert_eq!(trim_bytes(&b"a b".to_vec()), b"a b".to_vec());
}

#[test]
fn parser_accepts_exactly_valid_json() {
    let parsed = parse_response_text(&b"{\"a\":1}".to_vec()).expect("valid JSON");
    let expected: serde_json::Value = serde_json::from_str("{\"a\":1}").unwrap();
    assert_eq!(parsed, expected);
    // Surrounding whitespace is trimmed first.
    assert!(parse_response_text(&b"\n  {\"a\":1}  ".to_vec()).is_ok());
}

#[test]
fn parser_rejects_non_json_with_the_fixed_message() {
    let err = parse_response_text(&b"not json".to_vec()).unwrap_err();
    assert_eq!(err, b"JSON not found in Gemini response".to_vec());
    // Prose around JSON is rejected under the strict policy.
    assert!(parse_response_text(&b"Here it is: {\"a\":1}".to_vec()).is_err());
}

#[test]
fn outcome_keeps_raw_text_in_both_cases() {
    match outcome_from_response(b"[1,2]".to_vec()) {
        RowOutcome::Success { parsed, raw } => {
            let expected: serde_json::Value = serde_json::from_str("[1,2]").unwrap();
            assert_eq!(parsed, expected);
            assert_eq!(raw, b"[1,2]".to_vec());
        }
        RowOutcome::Failure { .. } => panic!("valid JSON must succeed"),
    }
    match outcome_from_response(b"oops".to_vec()) {
        RowOutcome::Success { .. } => panic!("non-JSON must not be silently wrapped"),
        RowOutcome::Failure { reason, raw } => {
            assert_eq!(reason, b"JSON not found in Gemini response".to_vec());
            assert_eq!(raw, Some(b"oops".to_vec()));
        }
    }
}

#[test]
fn audit_records_serialize_to_single_lines() {
    let run_id = run_id_bytes(1700000000123);
    let body = request_body_value(true, &Some(num("1")), &b"p".to_vec());
    let row = JsonValue::Obj(vec![(b"k".to_vec(), st("v\nw"))]);
    let rec = request_record(&run_id, 3, 1700000000456, &b"p".to_vec(), body, row);
    let line = record_line(&rec);
    assert_eq!(*line.last().unwrap(), b'\n');
    assert!(!line[..line.len() - 1].contains(&b'\n'));
    let parsed: serde_json::Value = serde_json::from_slice(&line).unwrap();
    assert_eq!(parsed["type"].as_str(), Some("request"));
    assert_eq!(parsed["rowIndex"].as_u64(), Some(3));
    assert_eq!(parsed["requestBody"]["structuredResponse"].as_bool(), Some(true));
    let tools = parsed["requestBody"]["tools"].as_array().unwrap();
    assert_eq!(tools.len(), 1);
    assert!(tools[0]["google_search"].is_object());
    assert_eq!(parsed["requestBody"]["hasResponseSchema"].as_bool(), Some(true));
    assert_eq!(parsed["inputRow"]["k"].as_str(), Some("v\nw"));
}

#[test]
fn response_record_carries_status_and_diagnostics() {
    let run_id = b"r-1".to_vec();
    let ok = response_record(&run_id, 0, 10, true, 250, Some(&b"{}".to_vec()), None);
    let parsed: serde_json::Value = serde_json::from_slice(&ok.to_bytes()).unwrap();
    assert_eq!(parsed["type"].as_str(), Some("response"));
    assert_eq!(parsed["status"].as_str(), Some("success"));
    assert_eq!(parsed["durationMs"].as_u64(), Some(250));
    assert_eq!(parsed["responseText"].as_str(), Some("{}"));
    assert!(parsed.get("error").is_none());

    let err = response_record(&run_id, 1, 11, false, 9, None, Some(&b"boom".to_vec()));
    let parsed: serde_json::Value = serde_json::from_slice(&err.to_bytes()).unwrap();
    assert_eq!(parsed["status"].as_str(), Some("error"));
    assert_eq!(parsed["error"].as_str(), Some("boom"));
    assert!(parsed.get("responseText").is_none());
}

#[test]
fn intermediate_and_stage2_records_carry_their_texts() {
    let run_id = b"r-2".to_vec();
    let rec = intermediate_record(&run_id, 4, 20, &b"- fact".to_vec());
    let parsed: serde_json::Value = serde_json::from_slice(&rec.to_bytes()).unwrap();
    assert_eq!(parsed["type"].as_str(), Some("intermediate"));
    assert_eq!(parsed["notes"].as_str(), Some("- fact"));
    assert_eq!(parsed["runId"].as_str(), Some("r-2"));

    let rec = stage2_input_record(&run_id, 4, 21, &b"notes text".to_vec());
    let parsed: serde_json::Value = serde_json::from_slice(&rec.to_bytes()).unwrap();
    assert_eq!(parsed["type"].as_str(), Some("stage2_input"));
    assert_eq!(parsed["text"].as_str(), Some("notes text"));
}

#[test]
fn request_body_without_search_has_no_tools() {
    let body = request_body_value(false, &None, &b"p".to_vec());
    let parsed: serde_json::Value = serde_json::from_slice(&body.to_bytes()).unwrap();
    assert_eq!(parsed["tools"].as_array().unwrap().len(), 0);
    assert_eq!(parsed["hasResponseSchema"].as_bool(), Some(false));
    assert_eq!(parsed["responseSchemaLength"].as_u64(), Some(0));
    assert_eq!(parsed["prompt"].as_str(), Some("p"));
}
