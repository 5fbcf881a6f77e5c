//! Locating the JSON payload that the page embeds in a script tag.

use vstd::prelude::*;
use crate::errors::{AppError, Marker};
use crate::text::{chars_of, find_from, first_occurrence, lemma_first_occurrence, occurs_at};

verus! {

/// The tag that opens the embedded payload.
pub const START_PATTERN: &'static str =
    "<script id=\"__NEXT_DATA__\" type=\"application/json\" crossorigin=\"anonymous\">";

/// The tag that closes it.
pub const END_PATTERN: &'static str = "</script>";

/// The text strictly between the first opening tag and the first closing tag
/// after it, or the marker that is missing.
pub open spec fn embedded_payload(html: Seq<char>) -> Result<Seq<char>, Marker> {
    match first_occurrence(html, START_PATTERN@, 0) {
        None => Err(Marker::Start),
        Some(start) => {
            let from = start + START_PATTERN@.len();
            match first_occurrence(html, END_PATTERN@, from) {
                None => Err(Marker::End),
                Some(end) => Ok(html.subrange(from, end)),
            }
        },
    }
}

/// A payload that does not itself hold the closing tag is recovered exactly
/// from the page made of the opening tag, the payload and the closing tag.
pub proof fn lemma_wrapped_payload_is_recovered(payload: Seq<char>)
    requires
        forall|k: int| !occurs_at(payload, END_PATTERN@, k),
    ensures
        embedded_payload(START_PATTERN@ + payload + END_PATTERN@) == Ok::<Seq<char>, Marker>(
            payload,
        ),
{
    let opening = START_PATTERN@;
    let closing = END_PATTERN@;
    let page = opening + payload + closing;
    let from = opening.len() as int;
    let end = from + payload.len();
    reveal_strlit("</script>");
    assert(page.subrange(0, from) =~= opening);
    assert(first_occurrence(page, opening, 0) == Some(0int));
    assert(page.subrange(end, end + closing.len()) =~= closing);
    assert(occurs_at(page, closing, end));
    lemma_first_occurrence(page, closing, from);
    assert forall|k: int| from <= k < end implies !occurs_at(page, closing, k) by {
        if occurs_at(page, closing, k) {
            let window = page.subrange(k, k + closing.len());
            if k + closing.len() <= end {
                assert(payload.subrange(k - from, k - from + closing.len()) =~= window);
                assert(occurs_at(payload, closing, k - from));
            } else {
                let overlap = end - k;
                assert(window[overlap] == page[end]);
                assert(page[end] == closing[0]);
                assert(window[overlap] == closing[overlap]);
            }
        }
    }
    assert(page.subrange(from, end) =~= payload);
}

/// Isolates the embedded payload of a page.
pub fn extract_json_data(html_content: &str) -> (payload: Result<String, AppError>)
    ensures
        match embedded_payload(html_content@) {
            Ok(text) => payload matches Ok(found) && found@ == text,
            Err(marker) => payload matches Err(AppError::PayloadNotFound(missing)) && missing
                == marker,
        },
{
    let page = chars_of(html_content);
    let start_pattern = chars_of(START_PATTERN);
    let end_pattern = chars_of(END_PATTERN);
    let start = match find_from(&page, &start_pattern, 0) {
        Some(start) => start,
        None => return Err(AppError::PayloadNotFound(Marker::Start)),
    };
    let from: usize = start + start_pattern.len();
    match find_from(&page, &end_pattern, from) {
        Some(end) => Ok(html_content.substring_char(from, end).to_owned()),
        None => Err(AppError::PayloadNotFound(Marker::End)),
    }
}

} // verus!
