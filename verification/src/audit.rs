//! Audit records: the append-only JSON-Lines trail of one batch run.
//!
//! Every request and response is recorded. A run writes `request`
//! records, `intermediate` and `stage2_input` records (exactly when the
//! two-stage protocol ran), and `response` records. Each record
//! serializes to a single newline-free line; the caller appends
//! line-plus-newline under a lock, so concurrent writers never interleave
//! partial lines.

use crate::json::JsonValue;
use crate::json::lemma_dec_digits;
use crate::json::lemma_ser_newline_free;
use crate::json::spec_dec;
use crate::json::spec_hex_digit;
use crate::json::spec_ser;
use crate::json::hex_digit;
use crate::json::u64_to_dec;
use crate::protocol::GenerateResponse;
use vstd::prelude::*;
use vstd::string::StringSliceAdditionalSpecFns;
use vstd::string::StrSliceExecFns;

verus! {

/// The four lower-case hex digits of `x`, zero-padded.
pub open spec fn spec_hex4(x: nat) -> Seq<u8> {
    seq![
        spec_hex_digit((x / 4096 % 16) as u8),
        spec_hex_digit((x / 256 % 16) as u8),
        spec_hex_digit((x / 16 % 16) as u8),
        spec_hex_digit((x % 16) as u8),
    ]
}

/// The run identity derived from the batch's start time: the millisecond
/// timestamp in decimal, a dash, and the low 16 bits in hex.
pub open spec fn spec_run_id(start_millis: nat) -> Seq<u8> {
    spec_dec(start_millis) + seq![0x2du8] + spec_hex4(start_millis % 65536)
}

/// Derives the run identity from the batch's start time.
pub fn run_id_bytes(start_millis: u64) -> (r: Vec<u8>)
    ensures
        r@ == spec_run_id(start_millis as nat),
{
    let mut r = u64_to_dec(start_millis);
    r.push(0x2d);
    let low: u64 = start_millis % 65536;
    let d0 = hex_digit((low / 4096 % 16) as u8);
    r.push(d0);
    let d1 = hex_digit((low / 256 % 16) as u8);
    r.push(d1);
    let d2 = hex_digit((low / 16 % 16) as u8);
    r.push(d2);
    let d3 = hex_digit((low % 16) as u8);
    r.push(d3);
    proof {
        assert(r@ =~= spec_run_id(start_millis as nat));
    }
    r
}

/// A copy of `v`'s bytes.
fn bytes_of(v: &Vec<u8>) -> (r: Vec<u8>)
    ensures
        r@ == v@,
{
    let mut r: Vec<u8> = Vec::new();
    r.extend_from_slice(v.as_slice());
    proof {
        assert(r@ =~= v@);
    }
    r
}

/// A number value holding `n` in decimal.
fn dec_value(n: u64) -> (r: JsonValue)
    ensures
        (r matches JsonValue::Num(t) && t@ == spec_dec(n as nat)),
        r.wf(),
{
    let t = u64_to_dec(n);
    proof {
        lemma_dec_digits(n as nat);
    }
    JsonValue::Num(t)
}

/// The three fields every audit record starts with: its kind tag, the
/// run identity, and the row index.
pub open spec fn spec_record_head(
    ps: Seq<(Vec<u8>, JsonValue)>,
    tag: Seq<u8>,
    run_id: Seq<u8>,
    row_index: u32,
    timestamp_ms: u64,
) -> bool {
    &&& ps.len() >= 4
    &&& ps[0].0@ == "type".spec_bytes()
    &&& (ps[0].1 matches JsonValue::Str(s) && s@ == tag)
    &&& ps[1].0@ == "runId".spec_bytes()
    &&& (ps[1].1 matches JsonValue::Str(s) && s@ == run_id)
    &&& ps[2].0@ == "rowIndex".spec_bytes()
    &&& (ps[2].1 matches JsonValue::Num(t) && t@ == spec_dec(row_index as nat))
    &&& ps[3].0@ == "timestampMs".spec_bytes()
    &&& (ps[3].1 matches JsonValue::Num(t) && t@ == spec_dec(timestamp_ms as nat))
}

/// Builds the shared head of a record.
fn record_head(tag: &str, run_id: &Vec<u8>, row_index: u32, timestamp_ms: u64) -> (ps: Vec<
    (Vec<u8>, JsonValue),
>)
    ensures
        ps@.len() == 4,
        spec_record_head(ps@, tag.spec_bytes(), run_id@, row_index, timestamp_ms),
        forall|i: int| 0 <= i < ps@.len() ==> (#[trigger] ps@[i]).1.wf(),
{
    let mut ps: Vec<(Vec<u8>, JsonValue)> = Vec::new();
    ps.push(("type".as_bytes_vec(), JsonValue::Str(tag.as_bytes_vec())));
    ps.push(("runId".as_bytes_vec(), JsonValue::Str(bytes_of(run_id))));
    ps.push(("rowIndex".as_bytes_vec(), dec_value(row_index as u64)));
    ps.push(("timestampMs".as_bytes_vec(), dec_value(timestamp_ms)));
    ps
}

/// The `request` record written before a row's first generation call:
/// the rendered prompt, the request shape, and the submitted row.
pub fn request_record(
    run_id: &Vec<u8>,
    row_index: u32,
    timestamp_ms: u64,
    prompt: &Vec<u8>,
    request_body: JsonValue,
    input_row: JsonValue,
) -> (r: JsonValue)
    requires
        request_body.wf(),
        input_row.wf(),
    ensures
        (r matches JsonValue::Obj(ps) && {
            &&& ps@.len() == 7
            &&& spec_record_head(ps@, "request".spec_bytes(), run_id@, row_index, timestamp_ms)
            &&& ps@[4].0@ == "prompt".spec_bytes()
            &&& (ps@[4].1 matches JsonValue::Str(s) && s@ == prompt@)
            &&& ps@[5].0@ == "requestBody".spec_bytes()
            &&& ps@[5].1 == request_body
            &&& ps@[6].0@ == "inputRow".spec_bytes()
            &&& ps@[6].1 == input_row
        }),
        r.wf(),
{
    let mut ps = record_head("request", run_id, row_index, timestamp_ms);
    ps.push(("prompt".as_bytes_vec(), JsonValue::Str(bytes_of(prompt))));
    ps.push(("requestBody".as_bytes_vec(), request_body));
    ps.push(("inputRow".as_bytes_vec(), input_row));
    proof {
        assert forall|i: int| 0 <= i < ps@.len() implies (#[trigger] ps@[i]).1.wf() by {
        }
    }
    JsonValue::Obj(ps)
}

/// The `intermediate` record holding stage 1's collected notes; written
/// exactly when the two-stage protocol ran.
pub fn intermediate_record(run_id: &Vec<u8>, row_index: u32, timestamp_ms: u64, notes: &Vec<u8>) -> (r:
    JsonValue)
    ensures
        (r matches JsonValue::Obj(ps) && {
            &&& ps@.len() == 5
            &&& spec_record_head(ps@, "intermediate".spec_bytes(), run_id@, row_index, timestamp_ms)
            &&& ps@[4].0@ == "notes".spec_bytes()
            &&& (ps@[4].1 matches JsonValue::Str(s) && s@ == notes@)
        }),
        r.wf(),
{
    let mut ps = record_head("intermediate", run_id, row_index, timestamp_ms);
    ps.push(("notes".as_bytes_vec(), JsonValue::Str(bytes_of(notes))));
    proof {
        assert forall|i: int| 0 <= i < ps@.len() implies (#[trigger] ps@[i]).1.wf() by {
        }
    }
    JsonValue::Obj(ps)
}

/// The `stage2_input` record holding the text handed to stage 2; written
/// exactly when the two-stage protocol ran.
pub fn stage2_input_record(run_id: &Vec<u8>, row_index: u32, timestamp_ms: u64, text: &Vec<u8>) -> (r:
    JsonValue)
    ensures
        (r matches JsonValue::Obj(ps) && {
            &&& ps@.len() == 5
            &&& spec_record_head(ps@, "stage2_input".spec_bytes(), run_id@, row_index, timestamp_ms)
            &&& ps@[4].0@ == "text".spec_bytes()
            &&& (ps@[4].1 matches JsonValue::Str(s) && s@ == text@)
        }),
        r.wf(),
{
    let mut ps = record_head("stage2_input", run_id, row_index, timestamp_ms);
    ps.push(("text".as_bytes_vec(), JsonValue::Str(bytes_of(text))));
    proof {
        assert forall|i: int| 0 <= i < ps@.len() implies (#[trigger] ps@[i]).1.wf() by {
        }
    }
    JsonValue::Obj(ps)
}

/// The `response` record ending a row's trail: its status, the call's
/// duration, the response text when one arrived, and the error when the
/// row failed.
pub fn response_record(
    run_id: &Vec<u8>,
    row_index: u32,
    timestamp_ms: u64,
    success: bool,
    duration_ms: u64,
    response_text: Option<&Vec<u8>>,
    error: Option<&Vec<u8>>,
) -> (r: JsonValue)
    ensures
        (r matches JsonValue::Obj(ps) && {
            &&& ps@.len() == 6 + (if response_text is Some {
                1int
            } else {
                0int
            }) + (if error is Some {
                1int
            } else {
                0int
            })
            &&& spec_record_head(ps@, "response".spec_bytes(), run_id@, row_index, timestamp_ms)
            &&& ps@[4].0@ == "status".spec_bytes()
            &&& (ps@[4].1 matches JsonValue::Str(s) && s@ == (if success {
                "success".spec_bytes()
            } else {
                "error".spec_bytes()
            }))
            &&& ps@[5].0@ == "durationMs".spec_bytes()
            &&& (ps@[5].1 matches JsonValue::Num(t) && t@ == spec_dec(duration_ms as nat))
            &&& (error matches Some(e) ==> ps@[6].0@ == "error".spec_bytes() && (ps@[6].1 matches
            JsonValue::Str(s) && s@ == e@))
            &&& (response_text matches Some(x) ==> {
                let at = if error is Some {
                    7int
                } else {
                    6int
                };
                ps@[at].0@ == "responseText".spec_bytes() && (ps@[at].1 matches JsonValue::Str(s)
                    && s@ == x@)
            })
        }),
        r.wf(),
{
    let mut ps = record_head("response", run_id, row_index, timestamp_ms);
    let status = if success {
        "success".as_bytes_vec()
    } else {
        "error".as_bytes_vec()
    };
    ps.push(("status".as_bytes_vec(), JsonValue::Str(status)));
    ps.push(("durationMs".as_bytes_vec(), dec_value(duration_ms)));
    match error {
        Some(e) => {
            ps.push(("error".as_bytes_vec(), JsonValue::Str(bytes_of(e))));
        },
        None => {},
    }
    match response_text {
        Some(x) => {
            ps.push(("responseText".as_bytes_vec(), JsonValue::Str(bytes_of(x))));
        },
        None => {},
    }
    proof {
        assert forall|i: int| 0 <= i < ps@.len() implies (#[trigger] ps@[i]).1.wf() by {
        }
    }
    JsonValue::Obj(ps)
}

/// The serialized length of the configured schema: what the request
/// record reports as `responseSchemaLength`.
pub open spec fn spec_schema_len(schema: Option<JsonValue>) -> nat {
    match schema {
        Some(v) => spec_ser(v).len(),
        None => 0,
    }
}

/// The request shape logged with every `request` record: structured
/// response, the attached tools (the search tool exactly when web search
/// is enabled), whether a schema is enforced and how long it serializes,
/// and the prompt itself.
pub fn request_body_value(enable_web_search: bool, schema: &Option<JsonValue>, prompt: &Vec<u8>) -> (r:
    JsonValue)
    requires
        spec_schema_len(*schema) <= u64::MAX,
    ensures
        (r matches JsonValue::Obj(ps) && {
            &&& ps@.len() == 5
            &&& ps@[0].0@ == "structuredResponse".spec_bytes()
            &&& ps@[0].1 == JsonValue::Bool(true)
            &&& ps@[1].0@ == "tools".spec_bytes()
            &&& (ps@[1].1 matches JsonValue::Arr(ts) && ts@.len() == (if enable_web_search {
                1int
            } else {
                0int
            }))
            &&& ps@[2].0@ == "hasResponseSchema".spec_bytes()
            &&& ps@[2].1 == JsonValue::Bool(schema is Some)
            &&& ps@[3].0@ == "responseSchemaLength".spec_bytes()
            &&& (ps@[3].1 matches JsonValue::Num(t) && t@ == spec_dec(spec_schema_len(*schema)))
            &&& ps@[4].0@ == "prompt".spec_bytes()
            &&& (ps@[4].1 matches JsonValue::Str(s) && s@ == prompt@)
        }),
        r.wf(),
{
    let mut tools: Vec<JsonValue> = Vec::new();
    if enable_web_search {
        let empty: Vec<(Vec<u8>, JsonValue)> = Vec::new();
        let inner = JsonValue::Obj(empty);
        proof {
            assert(inner.wf());
        }
        let mut search: Vec<(Vec<u8>, JsonValue)> = Vec::new();
        search.push(("google_search".as_bytes_vec(), inner));
        let search_obj = JsonValue::Obj(search);
        proof {
            assert(search_obj.wf());
        }
        tools.push(search_obj);
    }
    let tools_val = JsonValue::Arr(tools);
    proof {
        assert(tools_val.wf());
    }
    let schema_len: u64 = match schema {
        Some(v) => v.to_bytes().len() as u64,
        None => 0,
    };
    let mut ps: Vec<(Vec<u8>, JsonValue)> = Vec::new();
    ps.push(("structuredResponse".as_bytes_vec(), JsonValue::Bool(true)));
    ps.push(("tools".as_bytes_vec(), tools_val));
    ps.push(("hasResponseSchema".as_bytes_vec(), JsonValue::Bool(schema.is_some())));
    ps.push(("responseSchemaLength".as_bytes_vec(), dec_value(schema_len)));
    ps.push(("prompt".as_bytes_vec(), JsonValue::Str(bytes_of(prompt))));
    proof {
        assert forall|i: int| 0 <= i < ps@.len() implies (#[trigger] ps@[i]).1.wf() by {
        }
    }
    JsonValue::Obj(ps)
}

/// The intermediate records of one row, present exactly when the
/// response carries the two-stage protocol's intermediate results.
pub struct IntermediateRecords {
    /// The `intermediate` record, when stage-1 notes exist.
    pub intermediate: Option<JsonValue>,
    /// The `stage2_input` record, when a stage-2 input text exists.
    pub stage2_input: Option<JsonValue>,
}

/// Builds the intermediate records for a row's response: an
/// `intermediate` record exactly when the response holds stage-1 notes,
/// and a `stage2_input` record exactly when it holds a stage-2 input.
/// Under the two-stage protocol both are present; under the one-call
/// protocol neither is.
pub fn intermediate_records(
    run_id: &Vec<u8>,
    row_index: u32,
    timestamp_ms: u64,
    resp: &GenerateResponse,
) -> (r: IntermediateRecords)
    ensures
        r.intermediate is Some <==> resp.intermediate_notes is Some,
        r.stage2_input is Some <==> resp.stage2_input is Some,
        (r.intermediate matches Some(v) ==> v.wf() && (v matches JsonValue::Obj(ps)
            && spec_record_head(
            ps@,
            "intermediate".spec_bytes(),
            run_id@,
            row_index,
            timestamp_ms,
        ) && ps@.len() == 5 && (ps@[4].1 matches JsonValue::Str(s) && s@
            == resp.intermediate_notes->0@))),
        (r.stage2_input matches Some(v) ==> v.wf() && (v matches JsonValue::Obj(ps)
            && spec_record_head(
            ps@,
            "stage2_input".spec_bytes(),
            run_id@,
            row_index,
            timestamp_ms,
        ) && ps@.len() == 5 && (ps@[4].1 matches JsonValue::Str(s) && s@
            == resp.stage2_input->0@))),
{
    let intermediate = match &resp.intermediate_notes {
        Some(notes) => Some(intermediate_record(run_id, row_index, timestamp_ms, notes)),
        None => None,
    };
    let stage2_input = match &resp.stage2_input {
        Some(text) => Some(stage2_input_record(run_id, row_index, timestamp_ms, text)),
        None => None,
    };
    IntermediateRecords { intermediate, stage2_input }
}

/// Serializes one record as a JSON-Lines line: the record's JSON with a
/// final newline and no newline anywhere else, so that lock-serialized
/// appends keep the log valid JSON-Lines.
pub fn record_line(v: &JsonValue) -> (line: Vec<u8>)
    requires
        v.wf(),
    ensures
        line@ == spec_ser(*v) + seq![0x0au8],
        line@.len() >= 1,
        line@.last() == 0x0a,
        forall|i: int| 0 <= i < line@.len() - 1 ==> line@[i] != 0x0a,
{
    let mut line = v.to_bytes();
    proof {
        lemma_ser_newline_free(*v);
    }
    line.push(0x0a);
    proof {
        assert(line@ =~= spec_ser(*v) + seq![0x0au8]);
    }
    line
}

} // verus!
