//! Vision-client logic: interpreting the model's HTTP response, digging the
//! JSON result document out of the free-form answer text, and classifying
//! failures as transient or permanent.

use vstd::prelude::*;
use vstd::string::*;

use crate::jsonval::{json_as_array, json_as_str, json_get, json_parse, json_parses};
use crate::numfmt::{dec_digits, u64_to_string};
use crate::text::{contains_seq, contains_sub, find_char, rfind_char};

verus! {

/// Why a vision analysis failed.
#[derive(Debug)]
pub enum VisionError {
    /// The endpoint answered outside the 2xx range; `body` is its error text.
    Api { status: u16, body: String },
    /// A 2xx answer that carries no usable candidate text: no candidates, no
    /// parts, or a body that is not the documented response shape.
    EmptyResponse,
    /// The candidate text holds no `{`…`}` window, or the window is not JSON.
    MalformedResult,
}

/// Failure classification driving the retry policy.
#[derive(PartialEq, Eq, Structural, Clone, Copy, Debug)]
pub enum FailureKind {
    Transient,
    Permanent,
}

/// A failure text announces a self-resolving upstream condition.
pub open spec fn spec_is_transient(t: Seq<char>) -> bool {
    contains_seq(t, "503"@) || contains_seq(t, "overloaded"@) || contains_seq(t, "UNAVAILABLE"@)
}

/// Classifies a failure by its error text: transient exactly when the text
/// contains `503`, `overloaded`, or `UNAVAILABLE`.
pub fn classify_failure(text: &str) -> (r: FailureKind)
    ensures
        r == FailureKind::Transient <==> spec_is_transient(text@),
{
    if contains_sub(text, "503") || contains_sub(text, "overloaded") || contains_sub(
        text,
        "UNAVAILABLE",
    ) {
        FailureKind::Transient
    } else {
        FailureKind::Permanent
    }
}

impl VisionError {
    /// The error text of this failure, as the retry policy classifies it.
    pub open spec fn spec_message(self) -> Seq<char> {
        match self {
            VisionError::Api { status, body } => "Vision API error ("@ + dec_digits(
                status as nat,
            ) + "): "@ + body@,
            VisionError::EmptyResponse => "No candidate text in vision response"@,
            VisionError::MalformedResult => "No valid JSON in vision response"@,
        }
    }

    /// Renders the error text.
    pub fn message(&self) -> (r: String)
        ensures
            r@ == self.spec_message(),
    {
        match self {
            VisionError::Api { status, body } => {
                proof {
                    reveal_strlit("Vision API error (");
                    reveal_strlit("): ");
                }
                let mut m = String::from_str("Vision API error (");
                m.append(u64_to_string(*status as u64).as_str());
                m.append("): ");
                m.append(body.as_str());
                m
            },
            VisionError::EmptyResponse => String::from_str("No candidate text in vision response"),
            VisionError::MalformedResult => String::from_str("No valid JSON in vision response"),
        }
    }

    /// Classifies this failure by its rendered text.
    pub fn kind(&self) -> (r: FailureKind)
        ensures
            r == FailureKind::Transient <==> spec_is_transient(self.spec_message()),
    {
        classify_failure(self.message().as_str())
    }
}

/// A service-unavailable answer (HTTP 503) from the vision endpoint is
/// always classified transient: its rendered error text contains `503`.
pub proof fn law_api_503_is_transient(e: VisionError)
    requires
        e matches VisionError::Api { status, body } && status == 503,
    ensures
        spec_is_transient(e.spec_message()),
{
    match e {
        VisionError::Api { status, body } => {
            reveal_strlit("Vision API error (");
            reveal_strlit("503");
            assert(dec_digits(5) =~= seq![crate::numfmt::digit_char(5)]);
            assert(dec_digits(50) == dec_digits(5).push(crate::numfmt::digit_char(0)));
            assert(dec_digits(503) == dec_digits(50).push(crate::numfmt::digit_char(3)));
            assert(dec_digits(503) =~= seq!['5', '0', '3']);
            let msg = e.spec_message();
            assert(msg.subrange(18, 21) =~= "503"@);
            assert(crate::text::occurs_at(msg, "503"@, 18));
        },
        _ => {
            assert(false);
        },
    }
}

/// `i` is the position of the first `c` in `s`.
pub open spec fn char_first_at(s: Seq<char>, c: char, i: int) -> bool {
    0 <= i < s.len() && s[i] == c && forall|k: int| 0 <= k < i ==> s[k] != c
}

/// `j` is the position of the last `c` in `s`.
pub open spec fn char_last_at(s: Seq<char>, c: char, j: int) -> bool {
    0 <= j < s.len() && s[j] == c && forall|k: int| j < k < s.len() ==> s[k] != c
}

/// The answer text holds a candidate JSON window: a first `{` strictly before
/// a last `}`.
pub open spec fn has_json_window(t: Seq<char>) -> bool {
    exists|i: int, j: int| char_first_at(t, '{', i) && char_last_at(t, '}', j) && i < j
}

/// The substring from the first `{` to the last `}`, inclusive.
pub open spec fn json_window_of(t: Seq<char>, i: int, j: int) -> Seq<char> {
    t.subrange(i, j + 1)
}

/// Cuts the substring between the first `{` and the last `}` (inclusive) out
/// of the answer text; `None` when no such window exists.
pub fn extract_json_window(text: &str) -> (r: Option<String>)
    ensures
        match r {
            Some(w) => exists|i: int, j: int|
                #![trigger json_window_of(text@, i, j)]
                char_first_at(text@, '{', i) && char_last_at(text@, '}', j) && i < j && w@
                    == json_window_of(text@, i, j),
            None => !has_json_window(text@),
        },
{
    let text_len = text.unicode_len();
    let open_idx = find_char(text, '{');
    let close_idx = rfind_char(text, '}');
    match (open_idx, close_idx) {
        (Some(i), Some(j)) => {
            if i < j {
                let w = text.substring_char(i, j + 1);
                assert(w@ == json_window_of(text@, i as int, j as int));
                Some(w.to_owned())
            } else {
                assert forall|i2: int, j2: int|
                    !(char_first_at(text@, '{', i2) && char_last_at(text@, '}', j2) && i2
                        < j2) by {
                    if char_first_at(text@, '{', i2) && char_last_at(text@, '}', j2) {
                        assert(i2 == i as int);
                        assert(j2 == j as int);
                    }
                }
                None
            }
        },
        _ => None,
    }
}

/// Parses the documented result out of the model's free-form answer text:
/// the JSON window is located and handed to the JSON parser.  Fails with
/// `MalformedResult` exactly when there is no window or the window is not
/// JSON.
pub fn parse_vision_document(text: &str) -> (r: Result<serde_json::Value, VisionError>)
    ensures
        !has_json_window(text@) ==> (r matches Err(e) && e matches VisionError::MalformedResult),
        forall|i: int, j: int|
            char_first_at(text@, '{', i) && char_last_at(text@, '}', j) && i < j && !json_parses(
                #[trigger] json_window_of(text@, i, j),
            ) ==> (r matches Err(e) && e matches VisionError::MalformedResult),
        r is Ok ==> has_json_window(text@),
        r matches Err(e) ==> e matches VisionError::MalformedResult,
        forall|i: int, j: int|
            char_first_at(text@, '{', i) && char_last_at(text@, '}', j) && i < j && json_parses(
                #[trigger] json_window_of(text@, i, j),
            ) ==> r is Ok,
{
    match extract_json_window(text) {
        Some(w) => match json_parse(w.as_str()) {
            Some(v) => Ok(v),
            None => Err(VisionError::MalformedResult),
        },
        None => Err(VisionError::MalformedResult),
    }
}

/// Pulls the first candidate's first part's text out of the parsed response
/// document.  Any missing piece of that path is an `EmptyResponse`.
pub fn extract_candidate_text(response: &serde_json::Value) -> (r: Result<String, VisionError>)
    ensures
        r matches Err(e) ==> e matches VisionError::EmptyResponse,
{
    let candidates = match json_get(response, "candidates") {
        Some(c) => c,
        None => { return Err(VisionError::EmptyResponse) },
    };
    let candidate_list = match json_as_array(candidates) {
        Some(l) => l,
        None => { return Err(VisionError::EmptyResponse) },
    };
    if candidate_list.len() == 0 {
        return Err(VisionError::EmptyResponse);
    }
    let content = match json_get(&candidate_list[0], "content") {
        Some(c) => c,
        None => { return Err(VisionError::EmptyResponse) },
    };
    let parts = match json_get(content, "parts") {
        Some(p) => p,
        None => { return Err(VisionError::EmptyResponse) },
    };
    let part_list = match json_as_array(parts) {
        Some(l) => l,
        None => { return Err(VisionError::EmptyResponse) },
    };
    if part_list.len() == 0 {
        return Err(VisionError::EmptyResponse);
    }
    let text = match json_get(&part_list[0], "text") {
        Some(t) => t,
        None => { return Err(VisionError::EmptyResponse) },
    };
    match json_as_str(text) {
        Some(s) => Ok(s),
        None => Err(VisionError::EmptyResponse),
    }
}

/// Interprets one exchange with the vision endpoint.
///
/// A non-2xx status is an `Api` failure carrying the response body verbatim.
/// A 2xx body is parsed, the candidate text is extracted, and the result
/// document is cut out of it and parsed.
pub fn interpret_vision_response(status: u16, body: &str) -> (r: Result<
    serde_json::Value,
    VisionError,
>)
    ensures
        !(200 <= status < 300) ==> (r matches Err(e) && e matches VisionError::Api {
            status: st,
            body: b,
        } && st == status && b@ == body@),
        200 <= status < 300 ==> !(r matches Err(e) && e matches VisionError::Api { .. }),
        200 <= status < 300 && !json_parses(body@) ==> (r matches Err(e) && e
            matches VisionError::EmptyResponse),
{
    if !(200 <= status && status < 300) {
        return Err(VisionError::Api { status, body: body.to_owned() });
    }
    let response = match json_parse(body) {
        Some(v) => v,
        None => { return Err(VisionError::EmptyResponse) },
    };
    let text = match extract_candidate_text(&response) {
        Ok(t) => t,
        Err(e) => { return Err(e) },
    };
    parse_vision_document(text.as_str())
}

} // verus!
