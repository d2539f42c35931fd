use vstd::prelude::*;
use vstd::utf8::{decode_utf8, valid_utf8};

use crate::error::{error_text, ErrorView, SkillfileError};
use crate::json::{json_document, parse_json, Json};
use crate::search::{ResponseView, SearchResponse};
use crate::text::concat;

verus! {

/// What std's `FromUtf8Error` says of bytes that are not UTF-8.
pub uninterp spec fn utf8_error_text(bytes: Seq<u8>) -> Seq<char>;

/// Decodes bytes as UTF-8: std's `String::from_utf8`, which succeeds exactly on
/// valid UTF-8 and then holds the decoded characters. The text of its error is
/// named [`utf8_error_text`]; nothing more is claimed of it.
#[verifier::external_body]
pub(crate) fn utf8_string(bytes: Vec<u8>) -> (r: Result<String, String>)
    ensures
        match r {
            Ok(s) => valid_utf8(bytes@) && s@ == decode_utf8(bytes@),
            Err(e) => !valid_utf8(bytes@) && e@ == utf8_error_text(bytes@),
        },
{
    match String::from_utf8(bytes) {
        Ok(s) => Ok(s),
        Err(e) => Err(e.to_string()),
    }
}

/// What a request handed back, as plain values.
pub open spec fn fetched_view(r: Result<Vec<u8>, SkillfileError>) -> Result<Seq<u8>, ErrorView> {
    match r {
        Ok(b) => Ok(b@),
        Err(e) => Err(e@),
    }
}

/// A search outcome as plain values.
pub open spec fn outcome_view(r: Result<SearchResponse, SkillfileError>) -> Result<ResponseView, ErrorView> {
    match r {
        Ok(resp) => Ok(resp@),
        Err(e) => Err(e@),
    }
}

/// The error for a response body that is JSON but not of the expected shape.
pub open spec fn shape_error(label: Seq<char>) -> ErrorView {
    ErrorView::Network("failed to parse "@ + label + " results: "@ + "unexpected JSON structure"@)
}

/// The JSON document a registry named `label` answered with, or the error
/// reported for a failed request, a body that is not UTF-8, or a body that is
/// not JSON.
pub open spec fn body_json(label: Seq<char>, fetched: Result<Seq<u8>, ErrorView>) -> Result<Json, ErrorView> {
    match fetched {
        Err(e) => Err(ErrorView::Network(label + " search failed: "@ + error_text(e))),
        Ok(bytes) => if !valid_utf8(bytes) {
            Err(ErrorView::Network("invalid UTF-8 in "@ + label + " response: "@ + utf8_error_text(bytes)))
        } else {
            match json_document(decode_utf8(bytes)) {
                Ok(j) => Ok(j),
                Err(m) => Err(ErrorView::Network("failed to parse "@ + label + " results: "@ + m)),
            }
        },
    }
}

/// `a`, `b` and `c` in turn.
pub fn concat3(a: &str, b: &str, c: &str) -> (s: String)
    ensures
        s@ == a@ + b@ + c@,
{
    let mut s = concat(a, b);
    s.append(c);
    s
}

/// Reads a registry's answer: the request's error, the body's UTF-8 or the
/// JSON syntax may fail, each with its own message.
pub fn read_body(label: &str, fetched: Result<Vec<u8>, SkillfileError>) -> (r: Result<Json, SkillfileError>)
    ensures
        match r {
            Ok(j) => body_json(label@, fetched_view(fetched)) == Ok::<Json, ErrorView>(j),
            Err(e) => body_json(label@, fetched_view(fetched)) == Err::<Json, ErrorView>(e@),
        },
{
    match fetched {
        Err(e) => {
            let detail = e.to_string();
            Err(SkillfileError::Network(concat3(label, " search failed: ", detail.as_str())))
        },
        Ok(bytes) => match utf8_string(bytes) {
            Err(detail) => {
                let mut m = concat3("invalid UTF-8 in ", label, " response: ");
                m.append(detail.as_str());
                Err(SkillfileError::Network(m))
            },
            Ok(text) => match parse_json(text.as_str()) {
                Ok(j) => Ok(j),
                Err(detail) => {
                    let mut m = concat3("failed to parse ", label, " results: ");
                    m.append(detail.as_str());
                    Err(SkillfileError::Network(m))
                },
            },
        },
    }
}

/// The error for a body of the wrong shape.
pub fn shape_error_exec(label: &str) -> (e: SkillfileError)
    ensures
        e@ == shape_error(label@),
{
    let mut m = concat3("failed to parse ", label, " results: ");
    m.append("unexpected JSON structure");
    SkillfileError::Network(m)
}

} // verus!
