//! Response parsing: strict extraction of one JSON document from the
//! model's response text.
//!
//! The generation calls always request pure-JSON output, so the whole
//! trimmed response must itself be valid JSON; anything else is a parse
//! failure that keeps the raw text for diagnosis. A permissive policy
//! that hunts for JSON inside surrounding prose (fenced code blocks, the
//! first balanced brace pair) is deliberately not offered: it is
//! ambiguous next to this contract and only served callers that did not
//! constrain the output format.

use vstd::prelude::*;
use vstd::string::StringSliceAdditionalSpecFns;
use vstd::string::StrSliceExecFns;

verus! {

/// serde_json's document type, carried opaquely through row outcomes to
/// the caller.
#[verifier::external_type_specification]
#[verifier::external_body]
pub struct ExJsonDocument(serde_json::Value);

/// Whether `bytes` hold one syntactically valid JSON document (with
/// surrounding whitespace allowed), as serde_json accepts it.
pub uninterp spec fn spec_is_json(bytes: Seq<u8>) -> bool;

/// Relies on serde_json::from_slice::<serde_json::Value>: it returns Ok
/// exactly when the bytes hold one valid JSON document, and acceptance
/// depends on the bytes alone.
#[verifier::external_body]
fn parse_json_bytes(bytes: &[u8]) -> (r: Option<serde_json::Value>)
    ensures
        r is Some <==> spec_is_json(bytes@),
{
    serde_json::from_slice::<serde_json::Value>(bytes).ok()
}

/// An ASCII whitespace byte: space, tab, line feed or carriage return.
pub open spec fn spec_is_ws(b: u8) -> bool {
    b == 0x20 || b == 0x09 || b == 0x0a || b == 0x0d
}

/// `s` without leading whitespace.
pub open spec fn spec_trim_start(s: Seq<u8>) -> Seq<u8>
    decreases s.len(),
{
    if s.len() > 0 && spec_is_ws(s[0]) {
        spec_trim_start(s.skip(1))
    } else {
        s
    }
}

/// `s` without trailing whitespace.
pub open spec fn spec_trim_end(s: Seq<u8>) -> Seq<u8>
    decreases s.len(),
{
    if s.len() > 0 && spec_is_ws(s.last()) {
        spec_trim_end(s.drop_last())
    } else {
        s
    }
}

/// `s` without leading and trailing whitespace.
pub open spec fn spec_trim(s: Seq<u8>) -> Seq<u8> {
    spec_trim_end(spec_trim_start(s))
}

/// Copies `s` without its leading and trailing ASCII whitespace.
pub fn trim_bytes(s: &Vec<u8>) -> (r: Vec<u8>)
    ensures
        r@ == spec_trim(s@),
{
    let mut lo: usize = 0;
    proof {
        assert(s@.skip(0) =~= s@);
    }
    while lo < s.len() && (s[lo] == 0x20 || s[lo] == 0x09 || s[lo] == 0x0a || s[lo] == 0x0d)
        invariant
            lo <= s@.len(),
            spec_trim_start(s@) == spec_trim_start(s@.skip(lo as int)),
        decreases s@.len() - lo,
    {
        proof {
            assert(s@.skip(lo as int).skip(1) =~= s@.skip(lo + 1));
        }
        lo = lo + 1;
    }
    proof {
        assert(spec_trim_start(s@) == s@.skip(lo as int));
    }
    let mut hi: usize = s.len();
    while hi > lo && (s[hi - 1] == 0x20 || s[hi - 1] == 0x09 || s[hi - 1] == 0x0a || s[hi - 1]
        == 0x0d)
        invariant
            lo <= hi <= s@.len(),
            spec_trim_start(s@) == s@.skip(lo as int),
            spec_trim_end(s@.skip(lo as int)) == spec_trim_end(
                s@.subrange(lo as int, hi as int),
            ),
        decreases hi,
    {
        proof {
            let cur = s@.subrange(lo as int, hi as int);
            assert(cur.last() == s@[hi - 1]);
            assert(cur.drop_last() =~= s@.subrange(lo as int, hi - 1));
        }
        hi = hi - 1;
    }
    proof {
        assert(s@.skip(lo as int) =~= s@.subrange(lo as int, s@.len() as int));
        let cur = s@.subrange(lo as int, hi as int);
        if hi > lo {
            assert(!spec_is_ws(cur.last()));
        }
        assert(spec_trim_end(cur) == cur);
    }
    let mut r: Vec<u8> = Vec::new();
    let mut k: usize = lo;
    while k < hi
        invariant
            lo <= k <= hi <= s@.len(),
            r@ =~= s@.subrange(lo as int, k as int),
        decreases hi - k,
    {
        r.push(s[k]);
        proof {
            assert(s@.subrange(lo as int, k + 1) =~= s@.subrange(lo as int, k as int).push(
                s@[k as int],
            ));
        }
        k = k + 1;
    }
    r
}

/// Extracts a JSON document from the raw response text under the strict
/// policy: the whole trimmed text must itself be valid JSON. On failure
/// the fixed not-found message is returned.
pub fn parse_response_text(text: &Vec<u8>) -> (r: Result<serde_json::Value, Vec<u8>>)
    ensures
        r is Ok <==> spec_is_json(spec_trim(text@)),
        (r matches Err(e) ==> e@ == "JSON not found in Gemini response".spec_bytes()),
{
    let trimmed = trim_bytes(text);
    match parse_json_bytes(trimmed.as_slice()) {
        Some(v) => Ok(v),
        None => Err("JSON not found in Gemini response".as_bytes_vec()),
    }
}

/// What one row ends with.
pub enum RowOutcome {
    /// The response parsed: the extracted document and the raw text.
    Success { parsed: serde_json::Value, raw: Vec<u8> },
    /// The row failed: a human-readable reason, and the raw response
    /// text when one arrived.
    Failure { reason: Vec<u8>, raw: Option<Vec<u8>> },
}

/// Builds the row outcome for a response that arrived: success exactly
/// when the trimmed text is valid JSON, and in either case the raw text
/// is kept for diagnosis, never silently wrapped.
pub fn outcome_from_response(text: Vec<u8>) -> (o: RowOutcome)
    ensures
        (o is Success <==> spec_is_json(spec_trim(text@))),
        (o matches RowOutcome::Success { parsed, raw } ==> raw@ == text@),
        (o matches RowOutcome::Failure { reason, raw } ==> reason@
            == "JSON not found in Gemini response".spec_bytes() && (raw matches Some(t) && t@
            == text@)),
{
    match parse_response_text(&text) {
        Ok(parsed) => RowOutcome::Success { parsed, raw: text },
        Err(reason) => RowOutcome::Failure { reason, raw: Some(text) },
    }
}

/// Builds the row outcome for a call that failed before any response
/// text existed: the failure keeps the given reason and no raw text.
pub fn outcome_from_call_failure(reason: Vec<u8>) -> (o: RowOutcome)
    ensures
        (o matches RowOutcome::Failure { reason: r2, raw } ==> r2@ == reason@ && raw is None),
        o is Failure,
{
    RowOutcome::Failure { reason, raw: None }
}

} // verus!
