//! The declared content type of a response, and what it means for the body.

use vstd::prelude::*;
use vstd::string::*;
use crate::error::RenderError;
use crate::response::{is_visible, shown_bytes, Response, ResponseHeader};
use crate::text::chars_of;

verus! {

/// Which of the two media types that get a highlighter a content type is
/// equal to.
#[derive(Debug, Clone, Copy, PartialEq, Eq, Structural)]
pub struct MediaMatch {
    pub json: bool,
    pub html: bool,
}

/// How a body is printed.
#[derive(Debug, Clone, Copy, PartialEq, Eq, Structural)]
pub enum BodyKind {
    Json,
    Html,
    Raw,
}

/// What the `mime` crate makes of a content type: nothing where it does not
/// parse as a media type, else whether the media type is equal to
/// `application/json`, and whether it is equal to `text/html`.
pub uninterp spec fn media_match(value: Seq<char>) -> Option<(bool, bool)>;

/// Parses `value` with `mime::Mime`'s `FromStr`, and compares the media type
/// with `mime::APPLICATION_JSON` and with `mime::TEXT_HTML` by `==`. The
/// outcome is a function of the text.
#[verifier::external_body]
fn match_media(value: &str) -> (r: Option<MediaMatch>)
    ensures
        match r {
            Some(found) => media_match(value@) == Some((found.json, found.html)),
            None => media_match(value@) is None,
        },
{
    match value.parse::<mime::Mime>() {
        Ok(media) => Some(
            MediaMatch { json: media == mime::APPLICATION_JSON, html: media == mime::TEXT_HTML },
        ),
        Err(_) => None,
    }
}

/// The kind of body that a content type announces: JSON and HTML are
/// highlighted, JSON first; anything else, and a missing content type, is
/// printed as it is.
pub open spec fn kind_of(found: Option<MediaMatch>) -> BodyKind {
    match found {
        Some(media) => if media.json {
            BodyKind::Json
        } else if media.html {
            BodyKind::Html
        } else {
            BodyKind::Raw
        },
        None => BodyKind::Raw,
    }
}

/// Chooses how the body is printed.
pub fn body_kind(found: Option<MediaMatch>) -> (kind: BodyKind)
    ensures
        kind == kind_of(found),
{
    match found {
        Some(media) => if media.json {
            BodyKind::Json
        } else if media.html {
            BodyKind::Html
        } else {
            BodyKind::Raw
        },
        None => BodyKind::Raw,
    }
}

/// An ASCII capital as its small letter, any other character as itself.
pub open spec fn lower(c: char) -> char {
    if 'A' <= c <= 'Z' {
        ((c as u8) + 32) as char
    } else {
        c
    }
}

/// The name of the content-type header, in small letters.
pub open spec fn content_type_name() -> Seq<char> {
    seq!['c', 'o', 'n', 't', 'e', 'n', 't', '-', 't', 'y', 'p', 'e']
}

/// `name` is the content-type header's name; capitals count as small
/// letters.
pub open spec fn is_content_type(name: Seq<char>) -> bool {
    name.map_values(|c: char| lower(c)) == content_type_name()
}

/// No header of `headers` before the one at `i` is a content type, and that
/// one is.
pub open spec fn is_first_content_type(headers: Seq<ResponseHeader>, i: int) -> bool {
    &&& 0 <= i < headers.len()
    &&& is_content_type(headers[i].name@)
    &&& forall|j: int| 0 <= j < i ==> !is_content_type(#[trigger] headers[j].name@)
}

/// No header of `headers` is a content type.
pub open spec fn lacks_content_type(headers: Seq<ResponseHeader>) -> bool {
    forall|j: int| 0 <= j < headers.len() ==> !is_content_type(#[trigger] headers[j].name@)
}

/// Every byte of `value` is visible: the value is text.
pub open spec fn is_text(value: Seq<u8>) -> bool {
    forall|i: int| 0 <= i < value.len() ==> is_visible(#[trigger] value[i])
}

/// The characters that the bytes of a text stand for.
pub open spec fn text_of(value: Seq<u8>) -> Seq<char> {
    value.map_values(|b: u8| b as char)
}

/// A value that is text is shown as that text.
pub proof fn text_is_shown_unchanged(value: Seq<u8>)
    requires
        is_text(value),
    ensures
        shown_bytes(value) == text_of(value),
    decreases value.len(),
{
    if value.len() > 0 {
        assert(is_visible(value[value.len() - 1]));
        assert forall|i: int| 0 <= i < value.drop_last().len() implies is_visible(
            #[trigger] value.drop_last()[i],
        ) by {
            assert(is_visible(value[i]));
        }
        text_is_shown_unchanged(value.drop_last());
        assert(text_of(value) =~= text_of(value.drop_last()) + seq![value.last() as char]);
    } else {
        assert(text_of(value) =~= Seq::<char>::empty());
    }
}

/// What a content-type value declares: an error where it is not text or no
/// media type, else its match.
pub open spec fn declared(value: Seq<u8>) -> Result<Option<MediaMatch>, RenderError> {
    if !is_text(value) {
        Err(RenderError::ContentTypeNotText)
    } else {
        match media_match(text_of(value)) {
            Some(found) => Ok(Some(MediaMatch { json: found.0, html: found.1 })),
            None => Err(RenderError::ContentTypeInvalid),
        }
    }
}

/// Tells whether `name` is the content-type header's name.
pub fn names_content_type(name: &str) -> (r: bool)
    ensures
        r == is_content_type(name@),
{
    let chars = chars_of(name);
    let expected: Vec<char> = vec!['c', 'o', 'n', 't', 'e', 'n', 't', '-', 't', 'y', 'p', 'e'];
    assert(expected@ =~= content_type_name());
    let ghost lowered = name@.map_values(|c: char| lower(c));
    if chars.len() != expected.len() {
        return false;
    }
    let mut i: usize = 0;
    while i < chars.len()
        invariant
            i <= chars.len() == expected.len(),
            chars@ == name@,
            expected@ == content_type_name(),
            lowered == name@.map_values(|c: char| lower(c)),
            forall|j: int| 0 <= j < i ==> lowered[j] == expected@[j],
        decreases chars.len() - i,
    {
        let c = chars[i];
        let small = if 'A' <= c && c <= 'Z' {
            ((c as u8) + 32) as char
        } else {
            c
        };
        assert(small == lowered[i as int]);
        if small != expected[i] {
            return false;
        }
        i += 1;
    }
    assert(lowered =~= content_type_name());
    true
}

/// Where the first content-type header stands, if there is one.
pub fn find_content_type(headers: &Vec<ResponseHeader>) -> (r: Option<usize>)
    ensures
        match r {
            Some(i) => is_first_content_type(headers@, i as int),
            None => lacks_content_type(headers@),
        },
{
    let mut i: usize = 0;
    while i < headers.len()
        invariant
            i <= headers.len(),
            forall|j: int| 0 <= j < i ==> !is_content_type(#[trigger] headers@[j].name@),
        decreases headers.len() - i,
    {
        if names_content_type(headers[i].name.as_str()) {
            return Some(i);
        }
        i += 1;
    }
    None
}

/// The text of a header value, if it is text.
pub fn header_text(value: &Vec<u8>) -> (r: Option<String>)
    ensures
        r is Some <==> is_text(value@),
        r matches Some(text) ==> text@ == text_of(value@),
{
    let mut text = String::new();
    let mut i: usize = 0;
    while i < value.len()
        invariant
            i <= value.len(),
            text@ == text_of(value@.take(i as int)),
            is_text(value@.take(i as int)),
        decreases value.len() - i,
    {
        let b = value[i];
        if !((32 <= b && b < 127) || b == 9) {
            return None;
        }
        text.push(b as char);
        assert(text@ =~= text_of(value@.take(i + 1)));
        i += 1;
    }
    assert(value@.take(value.len() as int) =~= value@);
    Some(text)
}

/// Judges a content-type value: it must be text, and a media type.
pub fn declared_media(value: &Vec<u8>) -> (r: Result<Option<MediaMatch>, RenderError>)
    ensures
        r == declared(value@),
{
    match header_text(value) {
        Some(text) => match match_media(text.as_str()) {
            Some(found) => Ok(Some(found)),
            None => Err(RenderError::ContentTypeInvalid),
        },
        None => Err(RenderError::ContentTypeNotText),
    }
}

/// What the headers declare: the judgement of the first content-type header,
/// and nothing where there is none.
pub open spec fn declared_by(headers: Seq<ResponseHeader>) -> Result<Option<MediaMatch>, RenderError> {
    if lacks_content_type(headers) {
        Ok(None)
    } else {
        declared(headers[choose|i: int| is_first_content_type(headers, i)].value@)
    }
}

/// The declared content type of a response: that of its first content-type
/// header. None is declared where there is no such header.
pub fn content_type(response: &Response) -> (r: Result<Option<MediaMatch>, RenderError>)
    ensures
        r == declared_by(response.headers@),
        lacks_content_type(response.headers@) ==> r == Ok::<Option<MediaMatch>, RenderError>(None),
        forall|i: int|
            is_first_content_type(response.headers@, i) ==> r == declared(
                response.headers[i].value@,
            ),
{
    match find_content_type(&response.headers) {
        Some(i) => {
            assert forall|k: int| is_first_content_type(response.headers@, k) implies k == i by {
                if k < i {
                    assert(!is_content_type(response.headers@[k].name@));
                }
                if i < k {
                    assert(!is_content_type(response.headers@[i as int].name@));
                }
            }
            assert(is_content_type(response.headers@[i as int].name@));
            declared_media(&response.headers[i].value)
        },
        None => Ok(None),
    }
}

} // verus!
