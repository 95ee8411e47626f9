//! Reading camera webhook requests: content types, inline base64 images,
//! multipart fields and camera ids.
use base64::engine::general_purpose::GeneralPurpose;
use base64::engine::{DecodePaddingMode, GeneralPurposeConfig};
use base64::Engine;
use vstd::prelude::*;

use crate::error::AppError;
use crate::text::{
    chars_of, is_ws, same_chars, slice_chars, str_eq, str_starts_with, string_of, trim, trim_chars, trim_end,
    trim_start,
};

verus! {

/// The JSON body of a camera webhook request.
#[derive(Debug, Clone, PartialEq)]
pub struct CameraJsonPayload {
    /// The image, base64 encoded, possibly as a data URI.
    pub image: String,
    pub camera_id: Option<String>,
}

/// How a webhook request carries its image.
#[derive(Debug, Clone, Copy, PartialEq, Eq)]
pub enum PayloadKind {
    Json,
    Multipart,
}

/// The message for a request of any other content type.
pub open spec fn unsupported_content_type_message() -> Seq<char> {
    "Unsupported Content-Type. Must be application/json or multipart/form-data"@
}

/// How a request of content type `ct` is read: JSON or multipart by the
/// prefix of its content type; any other is refused as an invalid payload.
pub fn payload_kind(content_type: &str) -> (r: Result<PayloadKind, AppError>)
    ensures
        "application/json"@.is_prefix_of(content_type@) ==> r == Ok::<PayloadKind, AppError>(PayloadKind::Json),
        !"application/json"@.is_prefix_of(content_type@) && "multipart/form-data"@.is_prefix_of(content_type@)
            ==> r == Ok::<PayloadKind, AppError>(PayloadKind::Multipart),
        !"application/json"@.is_prefix_of(content_type@) && !"multipart/form-data"@.is_prefix_of(content_type@)
            ==> (r matches Err(AppError::InvalidPayload(m)) && m@ == unsupported_content_type_message()),
{
    if str_starts_with(content_type, "application/json") {
        Ok(PayloadKind::Json)
    } else if str_starts_with(content_type, "multipart/form-data") {
        Ok(PayloadKind::Multipart)
    } else {
        Err(AppError::InvalidPayload(String::from_str("Unsupported Content-Type. Must be application/json or multipart/form-data")))
    }
}

/// The first position, from `i` on, where `needle` occurs in `text`.
pub open spec fn first_occurrence_from(text: Seq<char>, needle: Seq<char>, i: int) -> Option<int>
    decreases text.len() + 1 - i,
{
    if i < 0 || i + needle.len() > text.len() {
        None
    } else if text.subrange(i, i + needle.len()) == needle {
        Some(i)
    } else {
        first_occurrence_from(text, needle, i + 1)
    }
}

/// The image data of an inline image: what follows the first "base64," (the
/// data URI prefix), or the whole text.
pub open spec fn inline_image_data(image: Seq<char>) -> Seq<char> {
    match first_occurrence_from(image, "base64,"@, 0) {
        Some(i) => image.skip(i + 7),
        None => image,
    }
}

proof fn lemma_first_occurrence_bounds(text: Seq<char>, needle: Seq<char>, i: int)
    requires
        0 <= i,
    ensures
        first_occurrence_from(text, needle, i) matches Some(k) ==> i <= k && k + needle.len() <= text.len(),
    decreases text.len() + 1 - i,
{
    if i + needle.len() <= text.len() && text.subrange(i, i + needle.len()) != needle {
        lemma_first_occurrence_bounds(text, needle, i + 1);
    }
}

fn first_occurrence(text: &[char], needle: &[char]) -> (r: Option<usize>)
    ensures
        match r {
            Some(i) => first_occurrence_from(text@, needle@, 0) == Some(i as int),
            None => first_occurrence_from(text@, needle@, 0) is None,
        },
{
    if needle.len() > text.len() {
        return None;
    }
    let last = text.len() - needle.len();
    let mut i: usize = 0;
    loop
        invariant
            last == text@.len() - needle@.len(),
            needle@.len() <= text@.len(),
            text@.len() == text.len(),
            needle@.len() == needle.len(),
            i <= last,
            first_occurrence_from(text@, needle@, 0) == first_occurrence_from(text@, needle@, i as int),
        decreases last - i,
    {
        let piece = slice_chars(text, i, i + needle.len());
        if same_chars(piece.as_slice(), needle) {
            return Some(i);
        }
        if i == last {
            assert(first_occurrence_from(text@, needle@, i + 1) is None);
            return None;
        }
        i = i + 1;
    }
}

/// The image data of an inline image, without its data URI prefix.
pub fn strip_data_uri(image: &str) -> (r: String)
    ensures
        r@ == inline_image_data(image@),
{
    let chars = chars_of(image);
    let marker = chars_of("base64,");
    proof {
        reveal_strlit("base64,");
    }
    assert(marker@.len() == 7);
    proof {
        lemma_first_occurrence_bounds(chars@, marker@, 0);
    }
    match first_occurrence(chars.as_slice(), marker.as_slice()) {
        Some(i) => {
            assert(first_occurrence_from(chars@, marker@, 0) == Some(i as int));
            let n = chars.len();
            assert(i + marker@.len() <= n);
            assert(marker@.len() == 7);
            let rest = slice_chars(chars.as_slice(), i + 7, n);
            string_of(&rest)
        },
        None => string_of(&chars),
    }
}

/// What the lenient standard base64 decoder answers for `input`: the bytes, or
/// the text of its error.
pub uninterp spec fn base64_lenient_decoded(input: Seq<char>) -> Result<Seq<u8>, Seq<char>>;

/// `base64::Engine::decode` with the standard alphabet, padding optional and
/// trailing bits allowed; an error becomes its display text. The result is the
/// named `base64_lenient_decoded`. The standard encoding of some bytes, with or
/// without its padding, decodes to those bytes, and never fails.
#[verifier::external_body]
fn decode_base64_lenient(input: &str) -> (r: Result<Vec<u8>, String>)
    ensures
        match r {
            Ok(v) => base64_lenient_decoded(input@) == Ok::<Seq<u8>, Seq<char>>(v@),
            Err(e) => base64_lenient_decoded(input@) == Err::<Seq<u8>, Seq<char>>(e@),
        },
        match r {
            Ok(v) => forall|b: Seq<u8>| #[trigger] encodes(input@, b) ==> v@ == b,
            Err(_) => forall|b: Seq<u8>| !#[trigger] encodes(input@, b),
        },
{
    let config = GeneralPurposeConfig::new().with_decode_padding_mode(DecodePaddingMode::Indifferent).with_decode_allow_trailing_bits(true);
    let engine = GeneralPurpose::new(&base64::alphabet::STANDARD, config);
    engine.decode(input).map_err(|e| e.to_string())
}

/// A character of standard base64 text: an ASCII letter or digit, `+`, `/`,
/// or the padding `=`.
pub open spec fn is_base64_char(c: char) -> bool {
    ('A' <= c && c <= 'Z') || ('a' <= c && c <= 'z') || ('0' <= c && c <= '9') || c == '+' || c == '/'
        || c == '='
}

/// `s` without the padding `=` at its end.
pub open spec fn without_padding(s: Seq<char>) -> Seq<char>
    decreases s.len(),
{
    if s.len() > 0 && s.last() == '=' {
        without_padding(s.drop_last())
    } else {
        s
    }
}

/// `text` is the standard base64 text of `bytes`, with or without its padding.
pub open spec fn encodes(text: Seq<char>, bytes: Seq<u8>) -> bool {
    text == base64_standard_encoded(bytes) || text == without_padding(base64_standard_encoded(bytes))
}

/// The symbol of the standard base64 alphabet with index `v`: `A`–`Z`, `a`–`z`,
/// `0`–`9`, `+`, `/`; any index past 63 stands for the padding `=`.
pub open spec fn base64_symbol(v: u8) -> char {
    if v < 26 {
        (65 + v) as char
    } else if v < 52 {
        (97 + (v - 26)) as char
    } else if v < 62 {
        (48 + (v - 52)) as char
    } else if v == 62 {
        '+'
    } else if v == 63 {
        '/'
    } else {
        '='
    }
}

/// The standard base64 encoding of `bytes`, with padding, as the alphabet
/// indices of its symbols (64 for the padding).
pub uninterp spec fn base64_standard_symbols(bytes: Seq<u8>) -> Seq<u8>;

/// The standard base64 text, with padding, of `bytes`.
pub open spec fn base64_standard_encoded(bytes: Seq<u8>) -> Seq<char> {
    base64_standard_symbols(bytes).map_values(|v: u8| base64_symbol(v))
}

/// `base64::Engine::encode` with the standard engine (standard alphabet,
/// padded). The result is the text of the named `base64_standard_symbols`:
/// symbols of the standard alphabet and the padding `=`.
#[verifier::external_body]
pub(crate) fn encode_base64(bytes: &[u8]) -> (r: String)
    ensures
        r@ == base64_standard_symbols(bytes@).map_values(|v: u8| base64_symbol(v)),
{
    base64::engine::general_purpose::STANDARD.encode(bytes)
}

/// The image bytes for a decoder answer: the bytes, or an invalid-payload
/// error that names the decoder's complaint.
pub open spec fn decoded_image(answer: Result<Seq<u8>, Seq<char>>, r: Result<Vec<u8>, AppError>) -> bool {
    match answer {
        Ok(b) => r matches Ok(v) && v@ == b,
        Err(m) => r matches Err(AppError::InvalidPayload(e)) && e@ == "Failed to decode base64 image: "@ + m,
    }
}

/// The image bytes for a decoder answer.
pub fn image_from_decoded(answer: Result<Vec<u8>, String>) -> (r: Result<Vec<u8>, AppError>)
    ensures
        decoded_image(
            match answer {
                Ok(v) => Ok::<Seq<u8>, Seq<char>>(v@),
                Err(e) => Err::<Seq<u8>, Seq<char>>(e@),
            },
            r,
        ),
{
    match answer {
        Ok(v) => Ok(v),
        Err(e) => {
            let mut msg = String::from_str("Failed to decode base64 image: ");
            msg.append(e.as_str());
            Err(AppError::InvalidPayload(msg))
        },
    }
}

/// `s` is whitespace only.
pub open spec fn all_ws(s: Seq<char>) -> bool {
    forall|i: int| 0 <= i < s.len() ==> is_ws(#[trigger] s[i])
}

/// The data URI prefix of a JPEG image in base64.
pub open spec fn jpeg_data_uri_prefix() -> Seq<char> {
    "data:image/jpeg;base64,"@
}

/// An image as a camera may send it: whitespace `lead`, the JPEG data URI
/// prefix if `prefixed`, the base64 `data`, whitespace `trail`.
pub open spec fn sent_image(lead: Seq<char>, prefixed: bool, data: Seq<char>, trail: Seq<char>) -> Seq<char> {
    lead + (if prefixed {
        jpeg_data_uri_prefix()
    } else {
        Seq::empty()
    }) + data + trail
}

proof fn lemma_encoded_chars(b: Seq<u8>)
    ensures
        forall|i: int|
            0 <= i < base64_standard_encoded(b).len() ==> is_base64_char(#[trigger] base64_standard_encoded(b)[i]),
{
    assert forall|i: int| 0 <= i < base64_standard_encoded(b).len() implies is_base64_char(
        #[trigger] base64_standard_encoded(b)[i],
    ) by {
        let v = base64_standard_symbols(b)[i];
        assert(base64_standard_encoded(b)[i] == base64_symbol(v));
    }
}

proof fn lemma_without_padding_prefix(s: Seq<char>)
    ensures
        without_padding(s).len() <= s.len(),
        forall|i: int| 0 <= i < without_padding(s).len() ==> #[trigger] without_padding(s)[i] == s[i],
    decreases s.len(),
{
    if s.len() > 0 && s.last() == '=' {
        lemma_without_padding_prefix(s.drop_last());
        assert forall|i: int| 0 <= i < without_padding(s).len() implies #[trigger] without_padding(s)[i] == s[i] by {
            assert(s.drop_last()[i] == s[i]);
        }
    }
}

proof fn lemma_no_comma_no_occurrence(text: Seq<char>, i: int)
    requires
        0 <= i,
        forall|k: int| 0 <= k < text.len() ==> #[trigger] text[k] != ',',
    ensures
        first_occurrence_from(text, "base64,"@, i) is None,
    decreases text.len() + 1 - i,
{
    reveal_strlit("base64,");
    if i + 7 <= text.len() {
        assert(text.subrange(i, i + 7)[6] == text[i + 6]);
        lemma_no_comma_no_occurrence(text, i + 1);
    }
}

proof fn lemma_occurrence_at(text: Seq<char>, j: int, i: int)
    requires
        0 <= i <= j - 6,
        j < text.len(),
        text.subrange(j - 6, j + 1) == "base64,"@,
        forall|k: int| 0 <= k < text.len() && k != j ==> #[trigger] text[k] != ',',
    ensures
        first_occurrence_from(text, "base64,"@, i) == Some(j - 6),
    decreases j - i,
{
    reveal_strlit("base64,");
    if i < j - 6 {
        assert(text.subrange(i, i + 7)[6] == text[i + 6]);
        lemma_occurrence_at(text, j, i + 1);
    }
}

proof fn lemma_trim_start_skips(lead: Seq<char>, y: Seq<char>)
    requires
        all_ws(lead),
    ensures
        trim_start(lead + y) == trim_start(y),
    decreases lead.len(),
{
    if lead.len() > 0 {
        assert((lead + y)[0] == lead[0]);
        assert((lead + y).drop_first() =~= lead.drop_first() + y);
        assert(all_ws(lead.drop_first())) by {
            assert forall|i: int| 0 <= i < lead.drop_first().len() implies is_ws(#[trigger] lead.drop_first()[i]) by {
                assert(lead.drop_first()[i] == lead[i + 1]);
            }
        }
        lemma_trim_start_skips(lead.drop_first(), y);
    } else {
        assert(lead + y =~= y);
    }
}

proof fn lemma_trim_end_skips(x: Seq<char>, trail: Seq<char>)
    requires
        all_ws(trail),
    ensures
        trim_end(x + trail) == trim_end(x),
    decreases trail.len(),
{
    if trail.len() > 0 {
        assert((x + trail).last() == trail.last());
        assert((x + trail).drop_last() =~= x + trail.drop_last());
        assert(all_ws(trail.drop_last())) by {
            assert forall|i: int| 0 <= i < trail.drop_last().len() implies is_ws(#[trigger] trail.drop_last()[i]) by {
                assert(trail.drop_last()[i] == trail[i]);
            }
        }
        lemma_trim_end_skips(x, trail.drop_last());
    } else {
        assert(x + trail =~= x);
    }
}

proof fn lemma_trim_around(lead: Seq<char>, x: Seq<char>, trail: Seq<char>)
    requires
        all_ws(lead),
        all_ws(trail),
        forall|i: int| 0 <= i < x.len() ==> !is_ws(#[trigger] x[i]),
    ensures
        trim(lead + x + trail) == x,
{
    assert(lead + x + trail =~= lead + (x + trail));
    lemma_trim_start_skips(lead, x + trail);
    if x.len() > 0 {
        assert((x + trail)[0] == x[0]);
        assert(trim_start(x + trail) == x + trail);
        lemma_trim_end_skips(x, trail);
        assert(x.last() == x[x.len() - 1]);
    } else {
        assert(x + trail =~= trail);
        assert(Seq::<char>::empty() + trail =~= trail);
        lemma_trim_start_skips(trail, Seq::empty());
        assert(trail + Seq::<char>::empty() =~= trail);
    }
}

proof fn lemma_sent_image_data(lead: Seq<char>, prefixed: bool, data: Seq<char>, trail: Seq<char>)
    requires
        all_ws(lead),
        all_ws(trail),
        forall|i: int| 0 <= i < data.len() ==> is_base64_char(#[trigger] data[i]),
    ensures
        trim(inline_image_data(sent_image(lead, prefixed, data, trail))) == data,
{
    let text = sent_image(lead, prefixed, data, trail);
    assert forall|i: int| 0 <= i < data.len() implies !is_ws(#[trigger] data[i]) by {
        assert(is_base64_char(data[i]));
    }
    if prefixed {
        reveal_strlit("data:image/jpeg;base64,");
        reveal_strlit("base64,");
        let p = jpeg_data_uri_prefix();
        let j: int = lead.len() as int + 22;
        assert(text =~= lead + p + data + trail);
        assert forall|k: int| 0 <= k < text.len() && k != j implies #[trigger] text[k] != ',' by {
            if k < lead.len() {
                assert(text[k] == lead[k]);
            } else if k < lead.len() + 23 {
                assert(text[k] == p[k - lead.len()]);
            } else if k < lead.len() + 23 + data.len() {
                assert(text[k] == data[k - lead.len() - 23]);
                assert(is_base64_char(data[k - lead.len() - 23]));
            } else {
                assert(text[k] == trail[k - lead.len() - 23 - data.len()]);
            }
        }
        assert(text.subrange(j - 6, j + 1) =~= "base64,"@);
        lemma_occurrence_at(text, j, 0);
        assert(text.skip(j + 1) =~= Seq::<char>::empty() + data + trail);
        lemma_trim_around(Seq::empty(), data, trail);
    } else {
        assert(text =~= lead + data + trail);
        assert forall|k: int| 0 <= k < text.len() implies #[trigger] text[k] != ',' by {
            if k < lead.len() {
                assert(text[k] == lead[k]);
            } else if k < lead.len() + data.len() {
                assert(text[k] == data[k - lead.len()]);
                assert(is_base64_char(data[k - lead.len()]));
            } else {
                assert(text[k] == trail[k - lead.len() - data.len()]);
            }
        }
        lemma_no_comma_no_occurrence(text, 0);
        lemma_trim_around(lead, data, trail);
    }
}

/// The bytes of an inline base64 image: its data, without data URI prefix and
/// surrounding whitespace, decoded. An image sent as the standard base64 text of
/// some bytes, padded or not, with or without the JPEG data URI prefix and with
/// whitespace around it, gives back exactly those bytes.
pub fn decode_camera_image(image: &str) -> (r: Result<Vec<u8>, AppError>)
    ensures
        decoded_image(base64_lenient_decoded(trim(inline_image_data(image@))), r),
        forall|b: Seq<u8>, lead: Seq<char>, prefixed: bool, data: Seq<char>, trail: Seq<char>|
            #![trigger sent_image(lead, prefixed, data, trail), encodes(data, b)]
            image@ == sent_image(lead, prefixed, data, trail) && all_ws(lead) && all_ws(trail) && encodes(
                data,
                b,
            ) ==> (r matches Ok(v) && v@ == b),
{
    let data = strip_data_uri(image);
    let chars = chars_of(data.as_str());
    let trimmed = string_of(&trim_chars(chars.as_slice()));
    let answer = decode_base64_lenient(trimmed.as_str());
    proof {
        assert forall|b: Seq<u8>, lead: Seq<char>, prefixed: bool, d: Seq<char>, trail: Seq<char>|
            #![trigger sent_image(lead, prefixed, d, trail), encodes(d, b)]
            image@ == sent_image(lead, prefixed, d, trail) && all_ws(lead) && all_ws(trail) && encodes(d, b)
                implies (answer matches Ok(v) && v@ == b) by {
            lemma_encoded_chars(b);
            lemma_without_padding_prefix(base64_standard_encoded(b));
            assert forall|i: int| 0 <= i < d.len() implies is_base64_char(#[trigger] d[i]) by {
                if d == base64_standard_encoded(b) {
                } else {
                    assert(d[i] == base64_standard_encoded(b)[i]);
                }
            }
            lemma_sent_image_data(lead, prefixed, d, trail);
        }
    }
    image_from_decoded(answer)
}

/// What a multipart field carries.
#[derive(Debug, Clone, Copy, PartialEq, Eq)]
pub enum FieldRole {
    Image,
    CameraId,
    Ignored,
}

/// What a multipart field named `name` carries: the image under "image" or
/// "file", the camera id under "camera_id".
pub open spec fn field_role_named(name: Seq<char>) -> FieldRole {
    if name == "image"@ || name == "file"@ {
        FieldRole::Image
    } else if name == "camera_id"@ {
        FieldRole::CameraId
    } else {
        FieldRole::Ignored
    }
}

/// What a multipart field carries, by its name (an unnamed field counts as named "").
pub fn field_role(name: &str) -> (r: FieldRole)
    ensures
        r == field_role_named(name@),
{
    if str_eq(name, "image") || str_eq(name, "file") {
        FieldRole::Image
    } else if str_eq(name, "camera_id") {
        FieldRole::CameraId
    } else {
        FieldRole::Ignored
    }
}

/// The image of a multipart request, or the error for a request without one.
pub fn require_image(image: Option<Vec<u8>>) -> (r: Result<Vec<u8>, AppError>)
    ensures
        match image {
            Some(v) => r == Ok::<Vec<u8>, AppError>(v),
            None => r matches Err(AppError::InvalidPayload(m))
                && m@ == "Missing 'image' or 'file' field in multipart data"@,
        },
{
    match image {
        Some(v) => Ok(v),
        None => Err(AppError::InvalidPayload(String::from_str("Missing 'image' or 'file' field in multipart data"))),
    }
}

/// The camera an image is filed under: the one named, else "default-cam".
pub fn resolve_camera_id(camera_id: Option<String>) -> (r: String)
    ensures
        r@ == crate::config::or_default(camera_id, "default-cam"@),
{
    match camera_id {
        Some(id) => id,
        None => String::from_str("default-cam"),
    }
}

} // verus!
