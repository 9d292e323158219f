//! Client side of the image generation service: what is sent to it and what
//! is made of its reply. Sending is left to the caller.

use crate::encoding::{base64_text, encode, encoded_len};
use crate::json::{json_parsed, parse, Json};
use crate::prompts::{rendered, Prompts};
use crate::response::{read_response, response_of, ApiResponse, InlineDataView, Part};
use crate::text::{prefix, truncate};
use vstd::prelude::*;
use vstd::string::StringExecFns;

verus! {

/// The camera angle that a generated image shows.
#[derive(Clone, Copy, Debug, PartialEq, Eq, Structural)]
pub enum Angle {
    Front,
    Side,
    Back,
}

impl Angle {
    /// The lower-case name of the angle.
    pub open spec fn name(self) -> Seq<char> {
        match self {
            Angle::Front => "front"@,
            Angle::Side => "side"@,
            Angle::Back => "back"@,
        }
    }

    /// The name under which the angle is reported to callers.
    pub fn as_str(&self) -> (s: &'static str)
        ensures
            s@ == self.name(),
    {
        match self {
            Angle::Front => "front",
            Angle::Side => "side",
            Angle::Back => "back",
        }
    }
}

/// One generated image, as a data URL, with the angle it shows.
#[derive(Debug)]
pub struct ImageVariation {
    pub image: String,
    pub angle: Angle,
}

/// An `ImageVariation` as plain data.
pub struct Variation {
    pub image: Seq<char>,
    pub angle: Angle,
}

impl View for ImageVariation {
    type V = Variation;

    open spec fn view(&self) -> Variation {
        Variation { image: self.image@, angle: self.angle }
    }
}

/// The variations of a list, each as plain data.
pub open spec fn variations_view(variations: Seq<ImageVariation>) -> Seq<Variation> {
    Seq::new(variations.len(), |i: int| variations[i]@)
}

/// Why a generation gave no images.
#[derive(Debug)]
pub enum GenerationError {
    /// No credential for the service was at hand.
    MissingCredential,
    /// The service answered with a status outside 200..=299. The body is cut
    /// to `UPSTREAM_BODY_LIMIT` characters.
    UpstreamError { status: u16, body: String },
    /// The body of the answer was no JSON document.
    ResponseParseError,
    /// The answer held no image that could be used.
    NoImagesGenerated,
}

/// A `GenerationError` as plain data.
pub enum GenerationFailure {
    MissingCredential,
    UpstreamError { status: u16, body: Seq<char> },
    ResponseParseError,
    NoImagesGenerated,
}

impl View for GenerationError {
    type V = GenerationFailure;

    open spec fn view(&self) -> GenerationFailure {
        match self {
            GenerationError::MissingCredential => GenerationFailure::MissingCredential,
            GenerationError::UpstreamError { status, body } => GenerationFailure::UpstreamError {
                status: *status,
                body: body@,
            },
            GenerationError::ResponseParseError => GenerationFailure::ResponseParseError,
            GenerationError::NoImagesGenerated => GenerationFailure::NoImagesGenerated,
        }
    }
}

/// The result of a generation as plain data.
pub open spec fn outcome_view(outcome: Result<Vec<ImageVariation>, GenerationError>) -> Result<
    Seq<Variation>,
    GenerationFailure,
> {
    match outcome {
        Ok(variations) => Ok(variations_view(variations@)),
        Err(error) => Err(error@),
    }
}

/// The most characters of an upstream error body that are kept.
pub const UPSTREAM_BODY_LIMIT: usize = 512;

/// The data URL of an image: `data:<mime>;base64,<payload>`.
pub open spec fn data_url(mime_type: Seq<char>, payload: Seq<char>) -> Seq<char> {
    "data:"@ + mime_type + ";base64,"@ + payload
}

/// The data URL of the image that a part carries. A part carries one only if
/// its inline data has both a mime type and a payload.
pub open spec fn part_url(part: Option<InlineDataView>) -> Option<Seq<char>> {
    match part {
        Some(inline) => match (inline.mime_type, inline.data) {
            (Some(mime_type), Some(payload)) => Some(data_url(mime_type, payload)),
            _ => None,
        },
        None => None,
    }
}

/// The data URLs of the images among some parts, in the order of the parts.
pub open spec fn part_urls(parts: Seq<Option<InlineDataView>>) -> Seq<Seq<char>>
    decreases parts.len(),
{
    if parts.len() == 0 {
        Seq::empty()
    } else {
        let before = part_urls(parts.drop_last());
        match part_url(parts.last()) {
            Some(url) => before.push(url),
            None => before,
        }
    }
}

/// The data URLs of the images of some candidates, candidate by candidate.
pub open spec fn candidate_urls(candidates: Seq<Seq<Option<InlineDataView>>>) -> Seq<Seq<char>>
    decreases candidates.len(),
{
    if candidates.len() == 0 {
        Seq::empty()
    } else {
        candidate_urls(candidates.drop_last()) + part_urls(candidates.last())
    }
}

/// Some images, each as a front view.
pub open spec fn as_front(urls: Seq<Seq<char>>) -> Seq<Variation> {
    Seq::new(urls.len(), |i: int| Variation { image: urls[i], angle: Angle::Front })
}

/// Every image of every candidate, each as a front view.
pub open spec fn front_variations(response: Seq<Seq<Option<InlineDataView>>>) -> Seq<Variation> {
    as_front(candidate_urls(response))
}

/// The first image of the first candidate as the side view and its second
/// image as the back view. Later candidates and later images are left out.
pub open spec fn side_and_back_variations(response: Seq<Seq<Option<InlineDataView>>>) -> Seq<
    Variation,
> {
    if response.len() == 0 {
        Seq::empty()
    } else {
        let urls = part_urls(response[0]);
        if urls.len() == 0 {
            Seq::empty()
        } else if urls.len() == 1 {
            seq![Variation { image: urls[0], angle: Angle::Side }]
        } else {
            seq![
                Variation { image: urls[0], angle: Angle::Side },
                Variation { image: urls[1], angle: Angle::Back },
            ]
        }
    }
}

/// The variations that a response gives in the mode asked for.
pub open spec fn extracted(generate_angles: bool, response: Seq<Seq<Option<InlineDataView>>>) -> Seq<
    Variation,
> {
    if generate_angles {
        side_and_back_variations(response)
    } else {
        front_variations(response)
    }
}

/// What a response comes to: its variations, or `NoImagesGenerated` if it has
/// none.
pub open spec fn response_outcome(
    generate_angles: bool,
    response: Seq<Seq<Option<InlineDataView>>>,
) -> Result<Seq<Variation>, GenerationFailure> {
    let variations = extracted(generate_angles, response);
    if variations.len() == 0 {
        Err(GenerationFailure::NoImagesGenerated)
    } else {
        Ok(variations)
    }
}

/// The address of the generation service.
pub const URL: &'static str =
    "https://generativelanguage.googleapis.com/v1beta/models/gemini-2.5-flash-image-preview:generateContent";

/// The name of the header that carries the credential.
pub const API_KEY_HEADER: &'static str = "x-goog-api-key";

/// The mime type under which the photo is sent.
pub const IMAGE_MIME_TYPE: &'static str = "image/jpeg";

/// One call of the generation service: where it goes, the credential for its
/// header, and the two parts of its content, the instruction as text and the
/// photo as inline data.
#[derive(Debug)]
pub struct ApiRequest {
    pub url: String,
    pub api_key: String,
    pub text: String,
    pub mime_type: String,
    pub data: String,
}

/// An `ApiRequest` as plain data.
pub struct ApiRequestView {
    pub url: Seq<char>,
    pub api_key: Seq<char>,
    pub text: Seq<char>,
    pub mime_type: Seq<char>,
    pub data: Seq<char>,
}

impl View for ApiRequest {
    type V = ApiRequestView;

    open spec fn view(&self) -> ApiRequestView {
        ApiRequestView {
            url: self.url@,
            api_key: self.api_key@,
            text: self.text@,
            mime_type: self.mime_type@,
            data: self.data@,
        }
    }
}

/// The call that carries an instruction and a photo in base64.
pub open spec fn api_request(
    api_key: Seq<char>,
    instruction: Seq<char>,
    base64_image: Seq<char>,
) -> ApiRequestView {
    ApiRequestView {
        url: URL@,
        api_key,
        text: instruction,
        mime_type: IMAGE_MIME_TYPE@,
        data: base64_image,
    }
}

/// The instruction for a style description: from the template for the side
/// and back views if angles are asked for, else from that for the front view.
pub open spec fn instruction(prompts: Prompts, prompt: Seq<char>, generate_angles: bool) -> Seq<
    char,
> {
    if generate_angles {
        rendered(prompts.side_and_back_views_template(), prompt)
    } else {
        rendered(prompts.front_view_template(), prompt)
    }
}

/// What a reply of the service comes to. A status outside 200..=299 is an
/// upstream error, whatever the body holds; a body that is no JSON document
/// is a parse error; any other reply comes to what its document holds.
pub open spec fn reply_outcome(
    generate_angles: bool,
    status: u16,
    body: Seq<char>,
    document: Option<Json>,
) -> Result<Seq<Variation>, GenerationFailure> {
    if !(200 <= status <= 299) {
        Err(
            GenerationFailure::UpstreamError {
                status,
                body: prefix(body, UPSTREAM_BODY_LIMIT as nat),
            },
        )
    } else {
        match document {
            Some(document) => response_outcome(generate_angles, response_of(document)),
            None => Err(GenerationFailure::ResponseParseError),
        }
    }
}

proof fn lemma_part_urls_step(parts: Seq<Option<InlineDataView>>, i: int)
    requires
        0 <= i < parts.len(),
    ensures
        part_urls(parts.take(i + 1)) == match part_url(parts[i]) {
            Some(url) => part_urls(parts.take(i)).push(url),
            None => part_urls(parts.take(i)),
        },
{
    assert(parts.take(i + 1).drop_last() =~= parts.take(i));
}

proof fn lemma_candidate_urls_step(candidates: Seq<Seq<Option<InlineDataView>>>, i: int)
    requires
        0 <= i < candidates.len(),
    ensures
        candidate_urls(candidates.take(i + 1)) == candidate_urls(candidates.take(i)) + part_urls(
            candidates[i],
        ),
{
    assert(candidates.take(i + 1).drop_last() =~= candidates.take(i));
}

/// Writes the data URL of an image.
pub fn make_data_url(mime_type: &str, payload: &str) -> (url: String)
    ensures
        url@ == data_url(mime_type@, payload@),
{
    let mut url = "data:".to_owned();
    url.append(mime_type);
    url.append(";base64,");
    url.append(payload);
    url
}

/// The data URL of the image that a part carries, if it carries one.
pub fn part_data_url(part: &Part) -> (url: Option<String>)
    ensures
        match url {
            Some(url) => part_url(part@) == Some(url@),
            None => part_url(part@) is None,
        },
{
    match &part.inline_data {
        Some(inline) => match (&inline.mime_type, &inline.data) {
            (Some(mime_type), Some(payload)) => Some(
                make_data_url(mime_type.as_str(), payload.as_str()),
            ),
            _ => None,
        },
        None => None,
    }
}

/// Collects every image of every candidate as a front view.
pub fn collect_front(response: &ApiResponse) -> (variations: Vec<ImageVariation>)
    ensures
        variations_view(variations@) == front_variations(response@),
{
    let mut variations: Vec<ImageVariation> = Vec::new();
    let ghost all = response@;
    let mut c: usize = 0;
    while c < response.candidates.len()
        invariant
            all == response@,
            c <= response.candidates.len(),
            variations_view(variations@) == front_variations(all.take(c as int)),
        decreases response.candidates.len() - c,
    {
        let candidate = &response.candidates[c];
        let ghost parts = candidate@;
        let ghost before = candidate_urls(all.take(c as int));
        let mut p: usize = 0;
        proof {
            assert(parts.take(0) =~= Seq::<Option<InlineDataView>>::empty());
            assert(before + part_urls(parts.take(0)) =~= before);
        }
        while p < candidate.parts.len()
            invariant
                parts == candidate@,
                p <= candidate.parts.len(),
                variations_view(variations@) == as_front(before + part_urls(parts.take(p as int))),
            decreases candidate.parts.len() - p,
        {
            let ghost urls = before + part_urls(parts.take(p as int));
            let ghost collected = variations@;
            proof {
                lemma_part_urls_step(parts, p as int);
            }
            if let Some(url) = part_data_url(&candidate.parts[p]) {
                variations.push(ImageVariation { image: url, angle: Angle::Front });
                proof {
                    assert(before + part_urls(parts.take(p + 1)) =~= urls.push(url@));
                    let grown = variations_view(variations@);
                    assert(as_front(urls).len() == urls.len());
                    assert forall|i: int| 0 <= i < grown.len() implies grown[i] == as_front(
                        urls.push(url@),
                    )[i] by {
                        if i < collected.len() {
                            assert(variations_view(collected)[i] == as_front(urls)[i]);
                        }
                    }
                }
            }
            p += 1;
        }
        proof {
            assert(parts.take(p as int) =~= parts);
            lemma_candidate_urls_step(all, c as int);
        }
        c += 1;
    }
    proof {
        assert(all.take(c as int) =~= all);
    }
    variations
}

/// Collects the first two images of the first candidate, the first as the
/// side view and the second as the back view.
pub fn collect_side_and_back(response: &ApiResponse) -> (variations: Vec<ImageVariation>)
    ensures
        variations_view(variations@) == side_and_back_variations(response@),
{
    let mut variations: Vec<ImageVariation> = Vec::new();
    if response.candidates.len() == 0 {
        return variations;
    }
    let candidate = &response.candidates[0];
    let ghost parts = candidate@;
    let mut p: usize = 0;
    proof {
        assert(response@[0] == parts);
        assert(parts.take(0) =~= Seq::<Option<InlineDataView>>::empty());
    }
    while p < candidate.parts.len() && variations.len() < 2
        invariant
            parts == candidate@,
            p <= candidate.parts.len(),
            variations@.len() <= 2,
            variations@.len() == part_urls(parts.take(p as int)).len(),
            variations@.len() >= 1 ==> variations@[0]@ == (Variation {
                image: part_urls(parts.take(p as int))[0],
                angle: Angle::Side,
            }),
            variations@.len() >= 2 ==> variations@[1]@ == (Variation {
                image: part_urls(parts.take(p as int))[1],
                angle: Angle::Back,
            }),
        decreases candidate.parts.len() - p,
    {
        proof {
            lemma_part_urls_step(parts, p as int);
        }
        if let Some(url) = part_data_url(&candidate.parts[p]) {
            let angle = if variations.len() == 0 {
                Angle::Side
            } else {
                Angle::Back
            };
            variations.push(ImageVariation { image: url, angle });
        }
        p += 1;
    }
    proof {
        lemma_part_urls_prefix(parts, p as int);
        if p == candidate.parts.len() {
            assert(parts.take(p as int) =~= parts);
        }
    }
    variations
}

proof fn lemma_part_urls_prefix(parts: Seq<Option<InlineDataView>>, i: int)
    requires
        0 <= i <= parts.len(),
    ensures
        part_urls(parts.take(i)).len() <= part_urls(parts).len(),
        forall|k: int|
            0 <= k < part_urls(parts.take(i)).len() ==> part_urls(parts.take(i))[k] == part_urls(
                parts,
            )[k],
    decreases parts.len() - i,
{
    if i == parts.len() {
        assert(parts.take(i) =~= parts);
    } else {
        lemma_part_urls_step(parts, i);
        lemma_part_urls_prefix(parts, i + 1);
    }
}

/// The variations that a reply gives in the mode asked for, or
/// `NoImagesGenerated` if it gives none.
pub fn variations_of(generate_angles: bool, response: &ApiResponse) -> (outcome: Result<
    Vec<ImageVariation>,
    GenerationError,
>)
    ensures
        outcome_view(outcome) == response_outcome(generate_angles, response@),
{
    let variations = if generate_angles {
        collect_side_and_back(response)
    } else {
        collect_front(response)
    };
    if variations.len() == 0 {
        Err(GenerationError::NoImagesGenerated)
    } else {
        Ok(variations)
    }
}

fn make_request(api_key: &str, instruction: String, base64_image: &str) -> (request: ApiRequest)
    ensures
        request@ == api_request(api_key@, instruction@, base64_image@),
{
    ApiRequest {
        url: URL.to_owned(),
        api_key: api_key.to_owned(),
        text: instruction,
        mime_type: IMAGE_MIME_TYPE.to_owned(),
        data: base64_image.to_owned(),
    }
}

/// The call that asks for the side and back views together, for a photo that
/// is already in base64.
pub fn generate_all_angles_together(
    prompt: &str,
    base64_image: &str,
    api_key: &str,
    prompts: &Prompts,
) -> (request: ApiRequest)
    ensures
        request@ == api_request(api_key@, instruction(*prompts, prompt@, true), base64_image@),
{
    make_request(api_key, prompts.side_and_back_views(prompt), base64_image)
}

/// Begins a generation. Without a credential it ends here, with
/// `MissingCredential`, and nothing is to be sent. With one, the result is the
/// call to make: the caller sends it and hands the reply to `read_reply`.
pub fn generate_haircut_images(
    prompt: &str,
    image_data: &[u8],
    generate_angles: bool,
    prompts: &Prompts,
    api_key: Option<&str>,
) -> (begun: Result<ApiRequest, GenerationError>)
    requires
        encoded_len(image_data@.len()) <= usize::MAX,
    ensures
        match api_key {
            Some(key) => begun matches Ok(request) && request@ == api_request(
                key@,
                instruction(*prompts, prompt@, generate_angles),
                base64_text(image_data@),
            ),
            None => begun matches Err(error) && error@ == GenerationFailure::MissingCredential,
        },
{
    let key = match api_key {
        Some(key) => key,
        None => { return Err(GenerationError::MissingCredential); },
    };
    let base64_image = encode(image_data);
    if generate_angles {
        return Ok(generate_all_angles_together(prompt, base64_image.as_str(), key, prompts));
    }
    Ok(make_request(key, prompts.front_view(prompt), base64_image.as_str()))
}

/// Makes of a reply of the service what `reply_outcome` says, for the
/// document that the body parses to.
pub fn read_reply(generate_angles: bool, status: u16, body: &str) -> (outcome: Result<
    Vec<ImageVariation>,
    GenerationError,
>)
    ensures
        outcome_view(outcome) == reply_outcome(generate_angles, status, body@, json_parsed(body@)),
{
    if status < 200 || status > 299 {
        return Err(
            GenerationError::UpstreamError {
                status,
                body: truncate(body, UPSTREAM_BODY_LIMIT).to_owned(),
            },
        );
    }
    match parse(body) {
        Ok(document) => {
            let response = read_response(&document);
            variations_of(generate_angles, &response)
        },
        Err(_) => Err(GenerationError::ResponseParseError),
    }
}

/// In the front view mode the images of all candidates are collected, in
/// the order of the candidates, and each is a front view.
pub proof fn lemma_front_collects_all(
    first: Seq<Seq<Option<InlineDataView>>>,
    second: Seq<Seq<Option<InlineDataView>>>,
)
    ensures
        front_variations(first + second) == front_variations(first) + front_variations(second),
        forall|i: int|
            0 <= i < front_variations(first).len() ==> (#[trigger] front_variations(first)[i]).angle
                == Angle::Front,
{
    lemma_candidate_urls_add(first, second);
    assert(as_front(candidate_urls(first) + candidate_urls(second)) =~= as_front(
        candidate_urls(first),
    ) + as_front(candidate_urls(second)));
}

proof fn lemma_candidate_urls_add(
    first: Seq<Seq<Option<InlineDataView>>>,
    second: Seq<Seq<Option<InlineDataView>>>,
)
    ensures
        candidate_urls(first + second) == candidate_urls(first) + candidate_urls(second),
    decreases second.len(),
{
    if second.len() == 0 {
        assert(first + second =~= first);
        assert(candidate_urls(first) + candidate_urls(second) =~= candidate_urls(first));
    } else {
        lemma_candidate_urls_add(first, second.drop_last());
        assert((first + second).drop_last() =~= first + second.drop_last());
        assert(candidate_urls(first + second) =~= candidate_urls(first) + candidate_urls(second));
    }
}

/// In the mode for side and back views only the first candidate counts, no
/// more than two images are taken, and where there are two the first is the
/// side view and the second the back view.
pub proof fn lemma_side_then_back(response: Seq<Seq<Option<InlineDataView>>>)
    requires
        response.len() > 0,
    ensures
        side_and_back_variations(response) == side_and_back_variations(seq![response[0]]),
        side_and_back_variations(response).len() <= 2,
        part_urls(response[0]).len() >= 2 ==> side_and_back_variations(response) == seq![
            Variation { image: part_urls(response[0])[0], angle: Angle::Side },
            Variation { image: part_urls(response[0])[1], angle: Angle::Back },
        ],
{
}

/// A reply in which no part has inline data gives no images, in either mode.
pub proof fn lemma_no_inline_data(generate_angles: bool, response: Seq<Seq<Option<InlineDataView>>>)
    requires
        forall|c: int, p: int|
            0 <= c < response.len() && 0 <= p < response[c].len() ==> (#[trigger] response[c][p])
                is None,
    ensures
        response_outcome(generate_angles, response) == Err::<Seq<Variation>, GenerationFailure>(
            GenerationFailure::NoImagesGenerated,
        ),
{
    assert forall|c: int| 0 <= c < response.len() implies part_urls(#[trigger] response[c]).len()
        == 0 by {
        lemma_no_urls(response[c]);
    }
    lemma_no_candidate_urls(response);
}

proof fn lemma_no_urls(parts: Seq<Option<InlineDataView>>)
    requires
        forall|p: int| 0 <= p < parts.len() ==> (#[trigger] parts[p]) is None,
    ensures
        part_urls(parts).len() == 0,
    decreases parts.len(),
{
    if parts.len() > 0 {
        lemma_no_urls(parts.drop_last());
    }
}

proof fn lemma_no_candidate_urls(candidates: Seq<Seq<Option<InlineDataView>>>)
    requires
        forall|c: int| 0 <= c < candidates.len() ==> part_urls(#[trigger] candidates[c]).len() == 0,
    ensures
        candidate_urls(candidates).len() == 0,
    decreases candidates.len(),
{
    if candidates.len() > 0 {
        lemma_no_candidate_urls(candidates.drop_last());
    }
}

} // verus!
