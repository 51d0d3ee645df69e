//! The two-stage "search, then structure" generation protocol.
//!
//! The external endpoint cannot combine a search tool with a strict
//! structured-output constraint in one call. With web search enabled a
//! row therefore makes exactly two calls: a collect call with the search
//! tool and free-text output, then a structure call that turns the
//! collected notes into schema-conforming JSON. Without web search a row
//! makes exactly one structured call. This module only plans the calls
//! and assembles their results; the caller performs them.

use crate::json::JsonValue;
use vstd::prelude::*;
use vstd::string::StringSliceAdditionalSpecFns;
use vstd::string::StrSliceExecFns;

verus! {

/// One planned request to the generation endpoint.
pub struct CallSpec {
    /// Standing instruction sent with the request.
    pub system_prompt: Vec<u8>,
    /// The user message.
    pub user_text: Vec<u8>,
    /// Whether the search tool is attached.
    pub use_search: bool,
    /// Whether the response is constrained to JSON output.
    pub json_output: bool,
    /// The response schema, when one is enforced.
    pub schema: Option<JsonValue>,
}

/// What one successful logical generation produced.
pub struct GenerateResponse {
    /// The final response text (stage 2's output under the two-stage
    /// protocol, the single call's output otherwise).
    pub text: Vec<u8>,
    /// Search grounding metadata, when the endpoint returned any.
    pub grounding_metadata: Option<JsonValue>,
    /// Stage 1's collected notes; present exactly under the two-stage
    /// protocol.
    pub intermediate_notes: Option<Vec<u8>>,
    /// The text handed to stage 2; present exactly under the two-stage
    /// protocol.
    pub stage2_input: Option<Vec<u8>>,
}

/// The standing instruction of the collect call.
pub open spec fn spec_collect_system() -> Seq<u8> {
    "Follow the task's requirements, gather supporting facts with the search tool, and report only confirmed facts as concise bullet-point notes. Sources and URLs may be included.".spec_bytes()
}

/// The suffix appended to the rendered prompt in the collect call.
pub open spec fn spec_collect_suffix() -> Seq<u8> {
    "\n\nFollowing the instructions above, collect facts from reliable sources and output them as concise bullet-point notes.".spec_bytes()
}

/// The standing instruction of the structure call that follows a collect
/// call.
pub open spec fn spec_structure_system() -> Seq<u8> {
    "Based only on the content of the given notes, return JSON that strictly follows the given schema. Use null for unknown or uncertain values.".spec_bytes()
}

/// The prefix put before the notes in the structure call.
pub open spec fn spec_structure_prefix() -> Seq<u8> {
    "Structure the following notes into JSON according to the given schema.\n\n--- notes ---\n".spec_bytes()
}

/// The suffix put after the notes in the structure call.
pub open spec fn spec_structure_suffix() -> Seq<u8> {
    "\n----------------\n".spec_bytes()
}

/// The standing instruction of the one-call protocol.
pub open spec fn spec_single_system() -> Seq<u8> {
    "Strictly follow the given schema and return JSON only. Use null for unknown or uncertain values.".spec_bytes()
}

/// How many generation calls one row makes: two with web search (collect,
/// then structure), one without.
pub open spec fn spec_calls_per_row(enable_web_search: bool) -> int {
    if enable_web_search {
        2
    } else {
        1
    }
}

/// The number of generation calls one row makes under the protocol.
pub fn calls_per_row(enable_web_search: bool) -> (n: u32)
    ensures
        n as int == spec_calls_per_row(enable_web_search),
{
    if enable_web_search {
        2
    } else {
        1
    }
}

/// Plans the collect call (stage 1): the rendered prompt plus the
/// collect instruction, search tool attached, no output constraint and
/// no schema.
pub fn build_collect_call(prompt: &Vec<u8>) -> (c: CallSpec)
    ensures
        c.system_prompt@ == spec_collect_system(),
        c.user_text@ == prompt@ + spec_collect_suffix(),
        c.use_search,
        !c.json_output,
        c.schema is None,
{
    let mut user: Vec<u8> = Vec::new();
    user.extend_from_slice(prompt.as_slice());
    let suffix =
        "\n\nFollowing the instructions above, collect facts from reliable sources and output them as concise bullet-point notes.".as_bytes_vec();
    user.extend_from_slice(suffix.as_slice());
    proof {
        assert(user@ =~= prompt@ + spec_collect_suffix());
    }
    let system =
        "Follow the task's requirements, gather supporting facts with the search tool, and report only confirmed facts as concise bullet-point notes. Sources and URLs may be included.".as_bytes_vec();
    CallSpec { system_prompt: system, user_text: user, use_search: true, json_output: false, schema: None }
}

/// Plans the structure call (stage 2): the collected notes wrapped in
/// the structuring instruction, no search tool, JSON output enforced,
/// the schema attached when one is configured.
pub fn build_structure_call(notes: &Vec<u8>, schema: Option<JsonValue>) -> (c: CallSpec)
    ensures
        c.system_prompt@ == spec_structure_system(),
        c.user_text@ == spec_structure_prefix() + notes@ + spec_structure_suffix(),
        !c.use_search,
        c.json_output,
        c.schema == schema,
{
    let mut user =
        "Structure the following notes into JSON according to the given schema.\n\n--- notes ---\n".as_bytes_vec();
    user.extend_from_slice(notes.as_slice());
    let suffix = "\n----------------\n".as_bytes_vec();
    user.extend_from_slice(suffix.as_slice());
    proof {
        assert(user@ =~= spec_structure_prefix() + notes@ + spec_structure_suffix());
    }
    let system =
        "Based only on the content of the given notes, return JSON that strictly follows the given schema. Use null for unknown or uncertain values.".as_bytes_vec();
    CallSpec { system_prompt: system, user_text: user, use_search: false, json_output: true, schema }
}

/// Plans the only call of the one-call protocol: the rendered prompt,
/// no search tool, JSON output enforced, the schema attached when one is
/// configured.
pub fn build_single_call(prompt: &Vec<u8>, schema: Option<JsonValue>) -> (c: CallSpec)
    ensures
        c.system_prompt@ == spec_single_system(),
        c.user_text@ == prompt@,
        !c.use_search,
        c.json_output,
        c.schema == schema,
{
    let mut user: Vec<u8> = Vec::new();
    user.extend_from_slice(prompt.as_slice());
    proof {
        assert(user@ =~= prompt@);
    }
    let system =
        "Strictly follow the given schema and return JSON only. Use null for unknown or uncertain values.".as_bytes_vec();
    CallSpec { system_prompt: system, user_text: user, use_search: false, json_output: true, schema }
}

/// Plans a plain free-text generation: the prompt as given, no standing
/// instruction, no search tool, no output constraint and no schema.
pub fn build_plain_call(prompt: &Vec<u8>) -> (c: CallSpec)
    ensures
        c.system_prompt@ == Seq::<u8>::empty(),
        c.user_text@ == prompt@,
        !c.use_search,
        !c.json_output,
        c.schema is None,
{
    let mut user: Vec<u8> = Vec::new();
    user.extend_from_slice(prompt.as_slice());
    proof {
        assert(user@ =~= prompt@);
    }
    let system: Vec<u8> = Vec::new();
    CallSpec { system_prompt: system, user_text: user, use_search: false, json_output: false, schema: None }
}

/// Assembles the logical result of a two-stage row: the structure call's
/// text, stage 1's notes and the text handed to stage 2 are all kept, so
/// that the audit log can show both intermediate records.
pub fn assemble_two_stage(notes: Vec<u8>, stage2_input: Vec<u8>, text: Vec<u8>) -> (r:
    GenerateResponse)
    ensures
        r.text == text,
        r.grounding_metadata is None,
        r.intermediate_notes == Some(notes),
        r.stage2_input == Some(stage2_input),
{
    GenerateResponse {
        text,
        grounding_metadata: None,
        intermediate_notes: Some(notes),
        stage2_input: Some(stage2_input),
    }
}

/// Assembles the logical result of a one-call row: no intermediate notes
/// and no stage-2 input exist.
pub fn assemble_single(text: Vec<u8>) -> (r: GenerateResponse)
    ensures
        r.text == text,
        r.grounding_metadata is None,
        r.intermediate_notes is None,
        r.stage2_input is None,
{
    GenerateResponse { text, grounding_metadata: None, intermediate_notes: None, stage2_input: None }
}

/// Which reply a generation flow is waiting for.
pub enum PendingReply {
    /// Stage 1's collected notes.
    Notes,
    /// Stage 2's structured text; stage 1's results are retained for
    /// the final assembly.
    Structured { notes: Vec<u8>, stage2_input: Vec<u8> },
    /// The one structured reply of the one-call protocol.
    Single,
}

/// One row's logical generation, driven call by call: the flow plans
/// each call, the caller performs it and hands the text back, and the
/// flow finishes after exactly `spec_calls_per_row` calls.
pub struct GenerationFlow {
    enable_web_search: bool,
    schema: Option<JsonValue>,
    calls_made: u32,
    pending: PendingReply,
}

/// What a generation flow asks for next.
pub enum FlowStep {
    /// Perform this call and hand its text back to the flow.
    NextCall(GenerationFlow, CallSpec),
    /// The logical generation is complete after `calls_made` calls.
    Finished { response: GenerateResponse, calls_made: u32 },
}

impl GenerationFlow {
    /// Whether this flow runs the two-stage protocol.
    pub closed spec fn enabled(self) -> bool {
        self.enable_web_search
    }

    /// The schema still to be attached to the structure call.
    pub closed spec fn schema_kept(self) -> Option<JsonValue> {
        self.schema
    }

    /// Calls issued so far.
    pub closed spec fn calls(self) -> int {
        self.calls_made as int
    }

    /// The reply the flow waits for.
    pub closed spec fn pending(self) -> PendingReply {
        self.pending
    }

    /// The flow's invariant: the pending reply agrees with the protocol
    /// and with how many calls are out.
    pub closed spec fn wf(self) -> bool {
        match self.pending {
            PendingReply::Notes => self.enable_web_search && self.calls_made == 1,
            PendingReply::Structured { .. } => self.enable_web_search && self.calls_made == 2,
            PendingReply::Single => !self.enable_web_search && self.calls_made == 1,
        }
    }

    /// Starts one logical generation: under the two-stage protocol the
    /// first call collects with the search tool and the schema is kept
    /// for stage 2; otherwise the only call requests structured JSON at
    /// once.
    pub fn begin(prompt: &Vec<u8>, enable_web_search: bool, schema: Option<JsonValue>) -> (r: (
        GenerationFlow,
        CallSpec,
    ))
        ensures
            r.0.wf(),
            r.0.enabled() == enable_web_search,
            r.0.calls() == 1,
            enable_web_search ==> {
                &&& r.0.pending() is Notes
                &&& r.0.schema_kept() == schema
                &&& r.1.system_prompt@ == spec_collect_system()
                &&& r.1.user_text@ == prompt@ + spec_collect_suffix()
                &&& r.1.use_search
                &&& !r.1.json_output
                &&& r.1.schema is None
            },
            !enable_web_search ==> {
                &&& r.0.pending() is Single
                &&& r.1.system_prompt@ == spec_single_system()
                &&& r.1.user_text@ == prompt@
                &&& !r.1.use_search
                &&& r.1.json_output
                &&& r.1.schema == schema
            },
    {
        if enable_web_search {
            let call = build_collect_call(prompt);
            let flow = GenerationFlow {
                enable_web_search,
                schema,
                calls_made: 1,
                pending: PendingReply::Notes,
            };
            (flow, call)
        } else {
            let call = build_single_call(prompt, schema);
            let flow = GenerationFlow {
                enable_web_search,
                schema: None,
                calls_made: 1,
                pending: PendingReply::Single,
            };
            (flow, call)
        }
    }

    /// Hands one call's text back to the flow. After stage 1 the flow
    /// plans the structure call for the notes; after the final call it
    /// assembles the response, having issued exactly two calls under the
    /// two-stage protocol and exactly one otherwise.
    pub fn on_text(self, text: Vec<u8>) -> (r: FlowStep)
        requires
            self.wf(),
        ensures
            (self.pending() is Notes ==> (r matches FlowStep::NextCall(flow, call) && {
                &&& flow.wf()
                &&& flow.enabled()
                &&& flow.calls() == 2
                &&& (flow.pending() matches PendingReply::Structured { notes, stage2_input } &&
                notes == text && stage2_input@ == call.user_text@)
                &&& call.system_prompt@ == spec_structure_system()
                &&& call.user_text@ == spec_structure_prefix() + text@ + spec_structure_suffix()
                &&& !call.use_search
                &&& call.json_output
                &&& call.schema == self.schema_kept()
            })),
            (self.pending() matches PendingReply::Structured { notes, stage2_input } ==> (
            r matches FlowStep::Finished { response, calls_made } && {
                &&& calls_made as int == self.calls() == spec_calls_per_row(self.enabled())
                &&& response.text == text
                &&& response.intermediate_notes == Some(notes)
                &&& response.stage2_input == Some(stage2_input)
                &&& response.grounding_metadata is None
            })),
            (self.pending() is Single ==> (r matches FlowStep::Finished {
                response,
                calls_made,
            } && {
                &&& calls_made as int == self.calls() == spec_calls_per_row(self.enabled())
                &&& response.text == text
                &&& response.intermediate_notes is None
                &&& response.stage2_input is None
                &&& response.grounding_metadata is None
            })),
    {
        let GenerationFlow { enable_web_search, schema, calls_made, pending } = self;
        match pending {
            PendingReply::Notes => {
                let call = build_structure_call(&text, schema);
                let mut stage2_input: Vec<u8> = Vec::new();
                stage2_input.extend_from_slice(call.user_text.as_slice());
                proof {
                    assert(stage2_input@ =~= call.user_text@);
                }
                let flow = GenerationFlow {
                    enable_web_search,
                    schema: None,
                    calls_made: 2,
                    pending: PendingReply::Structured { notes: text, stage2_input },
                };
                FlowStep::NextCall(flow, call)
            },
            PendingReply::Structured { notes, stage2_input } => {
                let response = assemble_two_stage(notes, stage2_input, text);
                FlowStep::Finished { response, calls_made }
            },
            PendingReply::Single => {
                let response = assemble_single(text);
                FlowStep::Finished { response, calls_made }
            },
        }
    }
}

} // verus!
