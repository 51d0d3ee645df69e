//! Batch configuration: validated once at batch start, immutable and
//! shared read-only by every unit of work afterwards.

use crate::json::JsonValue;
use vstd::prelude::*;

verus! {

/// Web search is enabled unless the configuration says otherwise.
pub fn default_enable_web_search() -> (r: bool)
    ensures
        r == true,
{
    true
}

/// One batch's configuration.
pub struct ProcessConfig {
    /// Credential for the generation endpoint; carried, never read.
    pub api_key: Vec<u8>,
    /// Requested bound on simultaneous in-flight requests.
    pub concurrency: usize,
    /// Requested admissions per rolling minute.
    pub rate_limit_rpm: u32,
    /// Per-call timeout handed to the network layer.
    pub timeout_secs: u64,
    /// The prompt template with `{{field}}` placeholders.
    pub prompt_template: Vec<u8>,
    /// Whether each row runs the two-stage search protocol.
    pub enable_web_search: bool,
    /// The JSON schema enforced on structured output, when present.
    pub response_schema: Option<JsonValue>,
}

impl ProcessConfig {
    /// The concurrency bound actually applied: at least one.
    pub fn effective_concurrency(&self) -> (c: usize)
        ensures
            c >= 1,
            c == if self.concurrency >= 1 {
                self.concurrency
            } else {
                1usize
            },
    {
        if self.concurrency >= 1 {
            self.concurrency
        } else {
            1
        }
    }

    /// The rate limit actually applied: at least one per minute.
    pub fn effective_rate_limit(&self) -> (r: u32)
        ensures
            r >= 1,
            r == if self.rate_limit_rpm >= 1 {
                self.rate_limit_rpm
            } else {
                1u32
            },
    {
        if self.rate_limit_rpm >= 1 {
            self.rate_limit_rpm
        } else {
            1
        }
    }
}

} // verus!
