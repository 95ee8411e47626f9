//! The first-generation upload flow: one provider call per uploaded image and
//! the plate check on its answer.
use vstd::prelude::*;

use crate::plate_check::{legacy_plate_valid, validate_bangla_license_plate};
use crate::text::{str_eq, str_starts_with};

verus! {

/// A provider's answer about an uploaded image.
#[derive(Debug, Clone, PartialEq)]
pub struct AiResponse {
    pub description: String,
    pub license_plate: Option<String>,
}

/// A key the provider can be called with: set, and not the placeholder of the
/// sample configuration.
pub open spec fn gemini_key_usable(key: Seq<char>) -> bool {
    key.len() > 0 && key != "your_gemini_api_key"@
}

/// Whether the provider can be called with `key`.
pub fn gemini_key_configured(key: &str) -> (r: bool)
    ensures
        r == gemini_key_usable(key@),
{
    !(key.is_empty() || str_eq(key, "your_gemini_api_key"))
}

/// The answer given in place of the provider's when no key is configured.
pub fn placeholder_ai_response() -> (r: AiResponse)
    ensures
        r.description@ == "Dummy AI Description (API Key not set)"@,
        r.license_plate matches Some(p) && p@ == "ঢাকা মেট্রো-গ ১২-৩৪৫৬"@,
{
    AiResponse {
        description: String::from_str("Dummy AI Description (API Key not set)"),
        license_plate: Some(String::from_str("ঢাকা মেট্রো-গ ১২-৩৪৫৬")),
    }
}

/// A reply of the generative-language API, as far as the upload flow reads it.
#[derive(Debug, Clone, PartialEq)]
pub struct GeminiReply {
    pub candidates: Option<Vec<ReplyCandidate>>,
}

/// One candidate answer of a reply.
#[derive(Debug, Clone, PartialEq)]
pub struct ReplyCandidate {
    pub content: Option<ReplyContent>,
}

/// The content of a candidate answer.
#[derive(Debug, Clone, PartialEq)]
pub struct ReplyContent {
    pub parts: Option<Vec<ReplyPart>>,
}

/// One part of a content.
#[derive(Debug, Clone, PartialEq)]
pub struct ReplyPart {
    pub text: Option<String>,
}

/// The text of the first part of the first candidate's content, where the
/// reply has one.
pub open spec fn first_part_text(reply: GeminiReply) -> Option<Seq<char>> {
    match reply.candidates {
        Some(cs) => if cs@.len() > 0 {
            match cs@[0].content {
                Some(ct) => match ct.parts {
                    Some(ps) => if ps@.len() > 0 {
                        match ps@[0].text {
                            Some(t) => Some(t@),
                            None => None,
                        }
                    } else {
                        None
                    },
                    None => None,
                },
                None => None,
            }
        } else {
            None
        },
        None => None,
    }
}

/// The answer text a reply carries: the first part of the first candidate,
/// or the empty JSON object `{}` when the reply has none.
pub open spec fn reply_answer(reply: GeminiReply) -> Seq<char> {
    match first_part_text(reply) {
        Some(t) => t,
        None => "{}"@,
    }
}

/// The answer text of a reply: the first part of the first candidate's
/// content, `{}` when there is none.
pub fn answer_text(reply: &GeminiReply) -> (r: String)
    ensures
        r@ == reply_answer(*reply),
{
    match &reply.candidates {
        Some(cs) => if cs.len() > 0 {
            match &cs[0].content {
                Some(ct) => match &ct.parts {
                    Some(ps) => if ps.len() > 0 {
                        match &ps[0].text {
                            Some(t) => {
                                return t.clone();
                            },
                            None => {},
                        }
                    },
                    None => {},
                },
                None => {},
            }
        },
        None => {},
    }
    String::from_str("{}")
}

/// A multipart part that carries the upload: named "image", or of an image
/// content type.
pub fn is_image_part(name: &str, content_type: &str) -> (r: bool)
    ensures
        r == (name@ == "image"@ || "image/"@.is_prefix_of(content_type@)),
{
    str_eq(name, "image") || str_starts_with(content_type, "image/")
}

/// What is stored of an upload's analysis: the description, the plate text,
/// and whether the plate passes the check. An analysis that failed stores an
/// empty description, no plate, and an invalid verdict.
pub fn summarize_analysis(analysis: Option<AiResponse>) -> (r: (String, Option<String>, bool))
    ensures
        match analysis {
            None => r.0@.len() == 0 && r.1 is None && !r.2,
            Some(a) => {
                &&& r.0 == a.description
                &&& r.1 == a.license_plate
                &&& r.2 == match a.license_plate {
                    Some(p) => legacy_plate_valid(p@),
                    None => false,
                }
            },
        },
{
    match analysis {
        None => (String::new(), None, false),
        Some(a) => {
            let valid = match &a.license_plate {
                Some(p) => validate_bangla_license_plate(p.as_str()),
                None => false,
            };
            (a.description, a.license_plate, valid)
        },
    }
}

} // verus!
