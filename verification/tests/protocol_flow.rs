use staf::audit::intermediate_records;
use staf::config::{default_enable_web_search, ProcessConfig};
use staf::json::JsonValue;
use staf::protocol::{
    assemble_single, assemble_two_stage, build_collect_call, build_plain_call, build_single_call,
    build_structure_call, calls_per_row, FlowStep, GenerationFlow,
};

fn config(enable: bool) -> ProcessConfig {
    ProcessConfig {
        api_key: b"SECRET-REDACTED".to_vec(),
        concurrency: 0,
        rate_limit_rpm: 0,
        timeout_secs: 60,
        prompt_template: b"{{q}}".to_vec(),
        enable_web_search: enable,
        response_schema: None,
    }
}

#[test]
fn web_search_defaults_on() {
    assert!(default_enable_web_search());
}

#[test]
fn config_clamps_bounds_to_at_least_one() {
    let c = config(true);
    assert_eq!(c.effective_concurrency(), 1);
    assert_eq!(c.effective_rate_limit(), 1);
    let mut c = config(true);
    c.concurrency = 8;
    c.rate_limit_rpm = 90;
    assert_eq!(c.effective_concurrency(), 8);
    assert_eq!(c.effective_rate_limit(), 90);
}

#[test]
fn two_stage_protocol_plans_two_calls() {
    assert_eq!(calls_per_row(true), 2);
    assert_eq!(calls_per_row(false), 1);
}

#[test]
fn collect_call_attaches_search_and_no_schema() {
    let c = build_collect_call(&b"find facts".to_vec());
    assert!(c.use_search);
    assert!(!c.json_output);
    assert!(c.schema.is_none());
    assert!(c.user_text.starts_with(b"find facts"));
    assert!(c.user_text.len() > b"find facts".len());
    assert!(!c.system_prompt.is_empty());
}

#[test]
fn structure_call_wraps_notes_and_carries_schema() {
    let schema = JsonValue::Obj(vec![(b"type".to_vec(), JsonValue::Str(b"object".to_vec()))]);
    let c = build_structure_call(&b"- note one".to_vec(), Some(schema));
    assert!(!c.use_search);
    assert!(c.json_output);
    assert!(c.schema.is_some());
    let text = String::from_utf8(c.user_text.clone()).unwrap();
    assert!(text.contains("- note one"));
    assert!(text.contains("--- notes ---"));
}

#[test]
fn single_call_requests_json_directly() {
    let c = build_single_call(&b"prompt".to_vec(), None);
    assert!(!c.use_search);
    assert!(c.json_output);
    assert!(c.schema.is_none());
    assert_eq!(c.user_text, b"prompt".to_vec());
}

#[test]
fn plain_call_has_no_constraints() {
    let c = build_plain_call(&b"say hi".to_vec());
    assert!(!c.use_search);
    assert!(!c.json_output);
    assert!(c.schema.is_none());
    assert_eq!(c.user_text, b"say hi".to_vec());
    assert!(c.system_prompt.is_empty());
}

#[test]
fn two_stage_response_yields_both_intermediate_records() {
    let stage2 = build_structure_call(&b"- facts".to_vec(), None);
    let resp = assemble_two_stage(b"- facts".to_vec(), stage2.user_text, b"{}".to_vec());
    assert_eq!(resp.intermediate_notes, Some(b"- facts".to_vec()));
    assert!(resp.stage2_input.is_some());
    let recs = intermediate_records(&b"r-3".to_vec(), 0, 5, &resp);
    let inter = recs.intermediate.expect("two-stage rows log intermediate notes");
    let parsed: serde_json::Value = serde_json::from_slice(&inter.to_bytes()).unwrap();
    assert_eq!(parsed["type"].as_str(), Some("intermediate"));
    assert_eq!(parsed["notes"].as_str(), Some("- facts"));
    let s2 = recs.stage2_input.expect("two-stage rows log the stage-2 input");
    let parsed: serde_json::Value = serde_json::from_slice(&s2.to_bytes()).unwrap();
    assert_eq!(parsed["type"].as_str(), Some("stage2_input"));
}

#[test]
fn single_call_response_yields_no_intermediate_records() {
    let resp = assemble_single(b"{}".to_vec());
    assert!(resp.intermediate_notes.is_none());
    assert!(resp.stage2_input.is_none());
    let recs = intermediate_records(&b"r-4".to_vec(), 0, 5, &resp);
    assert!(recs.intermediate.is_none());
    assert!(recs.stage2_input.is_none());
}

#[test]
fn flow_makes_exactly_two_calls_with_search() {
    let (flow, call) = GenerationFlow::begin(&b"prompt".to_vec(), true, None);
    assert!(call.use_search);
    assert!(!call.json_output);
    match flow.on_text(b"- notes".to_vec()) {
        FlowStep::NextCall(flow, call) => {
            assert!(!call.use_search);
            assert!(call.json_output);
            let text = String::from_utf8(call.user_text.clone()).unwrap();
            assert!(text.contains("- notes"));
            match flow.on_text(b"{\"x\":1}".to_vec()) {
                FlowStep::Finished { response, calls_made } => {
                    assert_eq!(calls_made, 2);
                    assert_eq!(response.text, b"{\"x\":1}".to_vec());
                    assert_eq!(response.intermediate_notes, Some(b"- notes".to_vec()));
                    assert_eq!(response.stage2_input, Some(call.user_text));
                }
                FlowStep::NextCall(..) => panic!("two-stage flow ends after two calls"),
            }
        }
        FlowStep::Finished { .. } => panic!("two-stage flow makes a second call"),
    }
}

#[test]
fn flow_makes_exactly_one_call_without_search() {
    let (flow, call) = GenerationFlow::begin(&b"prompt".to_vec(), false, None);
    assert!(!call.use_search);
    assert!(call.json_output);
    assert_eq!(call.user_text, b"prompt".to_vec());
    match flow.on_text(b"{}".to_vec()) {
        FlowStep::Finished { response, calls_made } => {
            assert_eq!(calls_made, 1);
            assert_eq!(response.text, b"{}".to_vec());
            assert!(response.intermediate_notes.is_none());
            assert!(response.stage2_input.is_none());
        }
        FlowStep::NextCall(..) => panic!("one-call flow ends after one call"),
    }
}
