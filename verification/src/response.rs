//! The reply of the generation service, as far as it is read: candidates,
//! their parts, and the inline data of a part. Whatever is missing or of
//! another shape is passed over.

use crate::json::{elements, json_of, member, text, Json};
use vstd::prelude::*;

verus! {

/// The inline data of a part. Either field may be missing.
#[derive(Debug)]
pub struct InlineData {
    pub mime_type: Option<String>,
    pub data: Option<String>,
}

/// An `InlineData` as plain data.
pub struct InlineDataView {
    pub mime_type: Option<Seq<char>>,
    pub data: Option<Seq<char>>,
}

/// A text that may be missing, as plain data.
pub open spec fn text_view(text: Option<String>) -> Option<Seq<char>> {
    match text {
        Some(text) => Some(text@),
        None => None,
    }
}

impl View for InlineData {
    type V = InlineDataView;

    open spec fn view(&self) -> InlineDataView {
        InlineDataView { mime_type: text_view(self.mime_type), data: text_view(self.data) }
    }
}

/// One part of a candidate's content. A part of text alone has no inline data.
#[derive(Debug)]
pub struct Part {
    pub inline_data: Option<InlineData>,
}

impl View for Part {
    type V = Option<InlineDataView>;

    open spec fn view(&self) -> Option<InlineDataView> {
        match self.inline_data {
            Some(inline) => Some(inline@),
            None => None,
        }
    }
}

/// One candidate: the parts of its content, in order.
#[derive(Debug)]
pub struct Candidate {
    pub parts: Vec<Part>,
}

impl View for Candidate {
    type V = Seq<Option<InlineDataView>>;

    open spec fn view(&self) -> Seq<Option<InlineDataView>> {
        Seq::new(self.parts@.len(), |i: int| self.parts@[i]@)
    }
}

/// A reply: its candidates, in order.
#[derive(Debug)]
pub struct ApiResponse {
    pub candidates: Vec<Candidate>,
}

impl View for ApiResponse {
    type V = Seq<Seq<Option<InlineDataView>>>;

    open spec fn view(&self) -> Seq<Seq<Option<InlineDataView>>> {
        Seq::new(self.candidates@.len(), |i: int| self.candidates@[i]@)
    }
}

/// The string under a key of an object, if the object has that key and a
/// string stands under it.
pub open spec fn text_member(json: Json, key: Seq<char>) -> Option<Seq<char>> {
    match json.member(key) {
        Some(found) => found.text(),
        None => None,
    }
}

/// The elements of the array under a key of an object; none if the key is
/// missing or no array stands under it.
pub open spec fn array_member(json: Json, key: Seq<char>) -> Seq<Json> {
    match json.member(key) {
        Some(found) => match found.elements() {
            Some(elements) => elements,
            None => Seq::empty(),
        },
        None => Seq::empty(),
    }
}

/// What a part of the reply holds: its `inlineData`, with `mimeType` and
/// `data` where they are strings.
pub open spec fn part_of(part: Json) -> Option<InlineDataView> {
    match part.member("inlineData"@) {
        Some(inline) => Some(
            InlineDataView {
                mime_type: text_member(inline, "mimeType"@),
                data: text_member(inline, "data"@),
            },
        ),
        None => None,
    }
}

/// What a candidate of the reply holds: the parts under `content.parts`.
pub open spec fn candidate_of(candidate: Json) -> Seq<Option<InlineDataView>> {
    let parts = match candidate.member("content"@) {
        Some(content) => array_member(content, "parts"@),
        None => Seq::empty(),
    };
    Seq::new(parts.len(), |i: int| part_of(parts[i]))
}

/// What a reply holds: the candidates under `candidates`.
pub open spec fn response_of(document: Json) -> Seq<Seq<Option<InlineDataView>>> {
    let candidates = array_member(document, "candidates"@);
    Seq::new(candidates.len(), |i: int| candidate_of(candidates[i]))
}

fn read_text(value: &serde_json::Value, key: &str) -> (found: Option<String>)
    ensures
        text_view(found) == text_member(json_of(*value), key@),
{
    match member(value, key) {
        Some(inner) => match text(inner) {
            Some(characters) => Some(characters.to_owned()),
            None => None,
        },
        None => None,
    }
}

fn read_array<'a>(value: &'a serde_json::Value, key: &str) -> (found: Option<
    &'a Vec<serde_json::Value>,
>)
    ensures
        match found {
            Some(items) => array_member(json_of(*value), key@) == Seq::new(
                items@.len(),
                |i: int| json_of(items@[i]),
            ),
            None => array_member(json_of(*value), key@) == Seq::<Json>::empty(),
        },
{
    match member(value, key) {
        Some(inner) => elements(inner),
        None => None,
    }
}

fn read_part(part: &serde_json::Value) -> (found: Part)
    ensures
        found@ == part_of(json_of(*part)),
{
    match member(part, "inlineData") {
        Some(inline) => Part {
            inline_data: Some(
                InlineData {
                    mime_type: read_text(inline, "mimeType"),
                    data: read_text(inline, "data"),
                },
            ),
        },
        None => Part { inline_data: None },
    }
}

fn read_candidate(candidate: &serde_json::Value) -> (found: Candidate)
    ensures
        found@ == candidate_of(json_of(*candidate)),
{
    let mut parts: Vec<Part> = Vec::new();
    let listed = match member(candidate, "content") {
        Some(content) => read_array(content, "parts"),
        None => None,
    };
    if let Some(items) = listed {
        let mut i: usize = 0;
        while i < items.len()
            invariant
                i <= items.len(),
                parts@.len() == i,
                forall|j: int| 0 <= j < i ==> (#[trigger] parts@[j])@ == part_of(json_of(items@[j])),
            decreases items.len() - i,
        {
            parts.push(read_part(&items[i]));
            i += 1;
        }
    }
    Candidate { parts }
}

/// Reads a parsed reply. Nothing in it is an error: what is not there is not
/// read.
pub fn read_response(document: &serde_json::Value) -> (response: ApiResponse)
    ensures
        response@ == response_of(json_of(*document)),
{
    let mut candidates: Vec<Candidate> = Vec::new();
    if let Some(items) = read_array(document, "candidates") {
        let mut i: usize = 0;
        while i < items.len()
            invariant
                i <= items.len(),
                candidates@.len() == i,
                forall|j: int|
                    0 <= j < i ==> (#[trigger] candidates@[j])@ == candidate_of(json_of(items@[j])),
            decreases items.len() - i,
        {
            candidates.push(read_candidate(&items[i]));
            i += 1;
        }
    }
    ApiResponse { candidates }
}

} // verus!
