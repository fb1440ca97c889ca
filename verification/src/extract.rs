//! Result extraction: pulling the typed fields out of the loosely structured
//! vision document, with safe defaults, and normalizing tags.

use vstd::prelude::*;
use vstd::string::*;

use crate::jsonval::{json_as_array, json_as_bool, json_as_str, json_clone, json_get};

verus! {

/// What `str::to_lowercase` returns; a function of the characters alone.
pub uninterp spec fn lower_of(s: Seq<char>) -> Seq<char>;

/// What `str::trim` returns; a function of the characters alone.
pub uninterp spec fn trim_of(s: Seq<char>) -> Seq<char>;

/// Relies on `str::to_lowercase`: deterministic per-character lowering, and
/// an empty string stays empty.
#[verifier::external_body]
pub fn lowercase(s: &str) -> (r: String)
    ensures
        r@ == lower_of(s@),
        s@.len() == 0 ==> r@.len() == 0,
{
    s.to_lowercase()
}

/// Relies on `str::trim`: the result is a subslice of the input, so it is
/// never longer, and an empty string stays empty.
#[verifier::external_body]
pub fn trim(s: &str) -> (r: String)
    ensures
        r@ == trim_of(s@),
        r@.len() <= s@.len(),
{
    str::trim(s).to_owned()
}

/// One tag, lower-cased then trimmed.
pub open spec fn normalize_tag(t: Seq<char>) -> Seq<char> {
    trim_of(lower_of(t))
}

/// The normalized tag list: each tag lower-cased and trimmed, empty results
/// dropped, order kept.
pub open spec fn normalize_tags_spec(tags: Seq<Seq<char>>) -> Seq<Seq<char>>
    decreases tags.len(),
{
    if tags.len() == 0 {
        Seq::empty()
    } else {
        let rest = normalize_tags_spec(tags.drop_last());
        let t = normalize_tag(tags.last());
        if t.len() > 0 {
            rest.push(t)
        } else {
            rest
        }
    }
}

/// Normalizes a tag list: lower-case, trim, drop empties.
pub fn normalize_tags(tags: &Vec<String>) -> (r: Vec<String>)
    ensures
        r.deep_view() == normalize_tags_spec(tags.deep_view()),
{
    let mut out: Vec<String> = Vec::new();
    let mut i: usize = 0;
    while i < tags.len()
        invariant
            i <= tags.len(),
            out.deep_view() == normalize_tags_spec(tags.deep_view().take(i as int)),
        decreases tags.len() - i,
    {
        let lowered = lowercase(tags[i].as_str());
        let cleaned = trim(lowered.as_str());
        proof {
            assert(tags.deep_view().take(i + 1).drop_last() =~= tags.deep_view().take(i as int));
            assert(tags.deep_view().take(i + 1).last() == tags.deep_view()[i as int]);
        }
        if cleaned.as_str().unicode_len() > 0 {
            out.push(cleaned);
        }
        i = i + 1;
    }
    proof {
        assert(tags.deep_view().take(tags.len() as int) =~= tags.deep_view());
    }
    out
}

/// The recognized fields of a vision document, before defaults apply.
/// `confidence` keeps the raw JSON subtree: the pipeline passes it through
/// unread, and the persistence layer reads the number out of it.
pub struct RawVisionFields {
    pub category: Option<String>,
    pub confidence: Option<serde_json::Value>,
    pub difficulty: Option<String>,
    pub verified: Option<bool>,
    pub tags: Option<Vec<String>>,
}

/// The analysis outcome the pipeline persists.
pub struct VisionAnalysis {
    pub category: String,
    pub confidence: Option<serde_json::Value>,
    pub difficulty: String,
    pub verified: bool,
    pub tags: Vec<String>,
}

/// `out` is `raw` with the documented defaults applied and tags normalized:
/// category falls back to `UNKNOWN`, difficulty to `EASY`, verified to
/// `false`, tags to the empty list.
pub open spec fn fields_resolved(raw: RawVisionFields, out: VisionAnalysis) -> bool {
    &&& out.category@ == (match raw.category {
        Some(c) => c@,
        None => "UNKNOWN"@,
    })
    &&& out.confidence == raw.confidence
    &&& out.difficulty@ == (match raw.difficulty {
        Some(d) => d@,
        None => "EASY"@,
    })
    &&& out.verified == (match raw.verified {
        Some(b) => b,
        None => false,
    })
    &&& out.tags.deep_view() == normalize_tags_spec(
        match raw.tags {
            Some(t) => t.deep_view(),
            None => Seq::empty(),
        },
    )
}

/// Applies the documented defaults to the raw fields.  Missing or wrong-typed
/// fields never fail: they fall back.
pub fn resolve_vision_fields(raw: RawVisionFields) -> (r: VisionAnalysis)
    ensures
        fields_resolved(raw, r),
{
    let RawVisionFields { category, confidence, difficulty, verified, tags } = raw;
    let category = match category {
        Some(c) => c,
        None => String::from_str("UNKNOWN"),
    };
    let difficulty = match difficulty {
        Some(d) => d,
        None => String::from_str("EASY"),
    };
    let verified = match verified {
        Some(b) => b,
        None => false,
    };
    let tags = match tags {
        Some(t) => normalize_tags(&t),
        None => {
            let empty: Vec<String> = Vec::new();
            proof {
                assert(empty.deep_view() =~= Seq::<Seq<char>>::empty());
            }
            normalize_tags(&empty)
        },
    };
    VisionAnalysis { category, confidence, difficulty, verified, tags }
}

/// Reads the recognized fields out of a vision document.  Which field is
/// present in the opaque document is the JSON library's answer; everything
/// that follows is decided by `resolve_vision_fields`.
pub fn read_vision_fields(doc: &serde_json::Value) -> RawVisionFields {
    let category = match json_get(doc, "category") {
        Some(v) => json_as_str(v),
        None => None,
    };
    let confidence = match json_get(doc, "confidence") {
        Some(v) => Some(json_clone(v)),
        None => None,
    };
    let difficulty = match json_get(doc, "difficulty") {
        Some(v) => json_as_str(v),
        None => None,
    };
    let verified = match json_get(doc, "verified") {
        Some(v) => json_as_bool(v),
        None => None,
    };
    let tags = match json_get(doc, "tags") {
        Some(v) => match json_as_array(v) {
            Some(list) => {
                let mut names: Vec<String> = Vec::new();
                let mut i: usize = 0;
                while i < list.len()
                    decreases list.len() - i,
                {
                    if let Some(s) = json_as_str(&list[i]) {
                        names.push(s);
                    }
                    i = i + 1;
                }
                Some(names)
            },
            None => None,
        },
        None => None,
    };
    RawVisionFields { category, confidence, difficulty, verified, tags }
}

/// Extracts the typed analysis from a vision document: recognized fields with
/// defaults applied and tags normalized.
pub fn extract_metadata(doc: &serde_json::Value) -> (r: VisionAnalysis)
    ensures
        exists|raw: RawVisionFields| fields_resolved(raw, r),
{
    resolve_vision_fields(read_vision_fields(doc))
}

} // verus!
