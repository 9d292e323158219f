//! The one operation that callers are offered: a photo and a style
//! description come in, generated images go out. The limit on requests and
//! the checks on the input come first; the call of the generation service is
//! handed to the caller, and its reply is turned into the answer.

use crate::encoding::{base64_bytes, base64_text, byte_len, decode};
use crate::gemini::{
    api_request, generate_haircut_images, instruction, outcome_view, read_reply, reply_outcome,
    variations_view, ApiRequest, ApiRequestView, GenerationError, GenerationFailure,
    ImageVariation, Variation,
};
use crate::json::json_parsed;
use crate::prompts::Prompts;
use crate::rate_limit::{
    admits, check_rate_limit, check_rate_limit_at, records_after, stamps_of, RateLimitStore,
};
use crate::validation::{
    image_verdict, lowercase, prompt_verdict, validate_image_data, validate_prompt,
};
use vstd::prelude::*;

verus! {

/// What a caller sends: the style description, the photo in base64, and
/// whether side and back views are wanted in place of the front view.
#[derive(Debug)]
pub struct GenerateRequest {
    pub prompt: String,
    pub image_data: String,
    pub generate_angles: bool,
}

/// What a caller gets back.
#[derive(Debug)]
pub struct GenerateResponse {
    pub success: bool,
    pub variations: Vec<ImageVariation>,
    pub message: Option<String>,
}

/// A `GenerateResponse` as plain data.
pub struct GenerateResponseView {
    pub success: bool,
    pub variations: Seq<Variation>,
    pub message: Option<Seq<char>>,
}

impl GenerateResponseView {
    /// A success carries images and no message; a failure carries no image.
    pub open spec fn well_formed(self) -> bool {
        &&& self.success ==> self.message is None && self.variations.len() > 0
        &&& !self.success ==> self.variations.len() == 0
    }
}

impl View for GenerateResponse {
    type V = GenerateResponseView;

    open spec fn view(&self) -> GenerateResponseView {
        GenerateResponseView {
            success: self.success,
            variations: variations_view(self.variations@),
            message: match self.message {
                Some(message) => Some(message@),
                None => None,
            },
        }
    }
}

/// The status under which an answer goes out.
#[derive(Clone, Copy, Debug, PartialEq, Eq, Structural)]
pub enum Status {
    Success,
    BadRequest,
    TooManyRequests,
    InternalError,
}

impl Status {
    /// The number of the status.
    pub open spec fn number(self) -> u16 {
        match self {
            Status::Success => 200,
            Status::BadRequest => 400,
            Status::TooManyRequests => 429,
            Status::InternalError => 500,
        }
    }

    /// The number of the status.
    pub fn code(&self) -> (code: u16)
        ensures
            code == self.number(),
    {
        match self {
            Status::Success => 200,
            Status::BadRequest => 400,
            Status::TooManyRequests => 429,
            Status::InternalError => 500,
        }
    }
}

/// An answer: its status and its body.
#[derive(Debug)]
pub struct Reply {
    pub status: Status,
    pub body: GenerateResponse,
}

/// A `Reply` as plain data.
pub struct ReplyView {
    pub status: Status,
    pub body: GenerateResponseView,
}

impl View for Reply {
    type V = ReplyView;

    open spec fn view(&self) -> ReplyView {
        ReplyView { status: self.status, body: self.body@ }
    }
}

/// The answer that turns a request down with a reason.
pub open spec fn refusal(status: Status, message: Seq<char>) -> ReplyView {
    ReplyView {
        status,
        body: GenerateResponseView {
            success: false,
            variations: Seq::empty(),
            message: Some(message),
        },
    }
}

/// The answer that carries generated images.
pub open spec fn success(variations: Seq<Variation>) -> ReplyView {
    ReplyView {
        status: Status::Success,
        body: GenerateResponseView { success: true, variations, message: None },
    }
}

/// What a client over its limit is told.
pub open spec fn rate_limit_message() -> Seq<char> {
    "Rate limit exceeded. Please wait a minute before trying again."@
}

/// What a caller is told when the generation failed, whatever the cause.
pub open spec fn failure_message() -> Seq<char> {
    "Failed to generate images"@
}

/// The answer to a client over its limit.
pub open spec fn too_many_requests() -> ReplyView {
    refusal(Status::TooManyRequests, rate_limit_message())
}

/// The answer to a request whose generation failed.
pub open spec fn failed() -> ReplyView {
    refusal(Status::InternalError, failure_message())
}

/// What becomes of a request once it is past the limit on requests. The
/// photo is checked, then the description; the first reason found turns the
/// request down as a bad request. Without a credential the generation fails.
/// Otherwise the service is called with the instruction for the description
/// and the photo's bytes, encoded anew.
pub open spec fn admission(
    prompt: Seq<char>,
    image_data: Seq<char>,
    generate_angles: bool,
    prompts: Prompts,
    api_key: Option<Seq<char>>,
) -> Result<ApiRequestView, ReplyView> {
    match image_verdict(base64_bytes(image_data) is Some, byte_len(image_data)) {
        Err(reason) => Err(refusal(Status::BadRequest, reason.text())),
        Ok(_) => match prompt_verdict(prompt, lowercase(prompt)) {
            Err(reason) => Err(refusal(Status::BadRequest, reason.text())),
            Ok(_) => match api_key {
                Some(key) => Ok(
                    api_request(
                        key,
                        instruction(prompts, prompt, generate_angles),
                        base64_text(base64_bytes(image_data)->0),
                    ),
                ),
                None => Err(failed()),
            },
        },
    }
}

/// The answer that the result of a generation comes to. No detail of a
/// failure is passed on.
pub open spec fn conclusion(outcome: Result<Seq<Variation>, GenerationFailure>) -> ReplyView {
    match outcome {
        Ok(variations) => if variations.len() > 0 {
            success(variations)
        } else {
            failed()
        },
        Err(_) => failed(),
    }
}

/// A credential that may be missing, as plain data.
pub open spec fn key_view(api_key: Option<&str>) -> Option<Seq<char>> {
    match api_key {
        Some(key) => Some(key@),
        None => None,
    }
}

/// What comes of a step that either calls the service or answers at once, as
/// plain data.
pub open spec fn step_view(step: Result<ApiRequest, Reply>) -> Result<ApiRequestView, ReplyView> {
    match step {
        Ok(call) => Ok(call@),
        Err(reply) => Err(reply@),
    }
}

fn refuse(status: Status, message: String) -> (reply: Reply)
    ensures
        reply@ == refusal(status, message@),
        reply@.body.well_formed(),
{
    let reply = Reply {
        status,
        body: GenerateResponse { success: false, variations: Vec::new(), message: Some(message) },
    };
    proof {
        assert(reply@.body.variations =~= Seq::<Variation>::empty());
    }
    reply
}

/// The answer to a client over its limit.
pub fn rate_limited() -> (reply: Reply)
    ensures
        reply@ == too_many_requests(),
        reply@.body.well_formed(),
{
    refuse(
        Status::TooManyRequests,
        "Rate limit exceeded. Please wait a minute before trying again.".to_owned(),
    )
}

/// The answer to a request whose generation failed.
pub fn generation_failed() -> (reply: Reply)
    ensures
        reply@ == failed(),
        reply@.body.well_formed(),
{
    refuse(Status::InternalError, "Failed to generate images".to_owned())
}

/// Takes a request that is past the limit on requests as far as the call of
/// the generation service: either the call to make, or the answer that ends
/// the request here.
pub fn generate_haircut_image(
    request: &GenerateRequest,
    prompts: &Prompts,
    api_key: Option<&str>,
) -> (step: Result<ApiRequest, Reply>)
    ensures
        step_view(step) == admission(
            request.prompt@,
            request.image_data@,
            request.generate_angles,
            *prompts,
            key_view(api_key),
        ),
        step matches Err(reply) ==> reply@.body.well_formed(),
{
    let image_data = request.image_data.as_str();
    let prompt = request.prompt.as_str();
    if let Err(reason) = validate_image_data(image_data) {
        return Err(refuse(Status::BadRequest, reason.message()));
    }
    if let Err(reason) = validate_prompt(prompt) {
        return Err(refuse(Status::BadRequest, reason.message()));
    }
    let image = match decode(image_data) {
        Ok(image) => image,
        Err(_) => { return Err(refuse(Status::BadRequest, "Invalid image data".to_owned())); },
    };
    match generate_haircut_images(
        prompt,
        image.as_slice(),
        request.generate_angles,
        prompts,
        api_key,
    ) {
        Ok(call) => Ok(call),
        Err(_) => Err(generation_failed()),
    }
}

/// Turns the result of a generation into the answer.
pub fn conclude(outcome: Result<Vec<ImageVariation>, GenerationError>) -> (reply: Reply)
    ensures
        reply@ == conclusion(outcome_view(outcome)),
        reply@.body.well_formed(),
{
    match outcome {
        Ok(variations) => {
            if variations.len() == 0 {
                return generation_failed();
            }
            Reply {
                status: Status::Success,
                body: GenerateResponse { success: true, variations, message: None },
            }
        },
        Err(_) => generation_failed(),
    }
}

/// Turns the reply of the generation service into the answer.
pub fn handle_reply(generate_angles: bool, status: u16, body: &str) -> (reply: Reply)
    ensures
        reply@ == conclusion(reply_outcome(generate_angles, status, body@, json_parsed(body@))),
        reply@.body.well_formed(),
{
    conclude(read_reply(generate_angles, status, body))
}

/// What becomes of a request, given what the limit on requests said of it:
/// a request that was not granted is answered at once, with nothing else
/// looked at.
pub open spec fn gate(
    granted: bool,
    prompt: Seq<char>,
    image_data: Seq<char>,
    generate_angles: bool,
    prompts: Prompts,
    api_key: Option<Seq<char>>,
) -> Result<ApiRequestView, ReplyView> {
    if granted {
        admission(prompt, image_data, generate_angles, prompts, api_key)
    } else {
        Err(too_many_requests())
    }
}

/// Takes a request on from the limit on requests, given what the limit said
/// of it. The limit itself is asked apart, so that a store which several
/// callers share is held no longer than that takes.
pub fn proceed(
    granted: bool,
    request: &GenerateRequest,
    prompts: &Prompts,
    api_key: Option<&str>,
) -> (step: Result<ApiRequest, Reply>)
    ensures
        step_view(step) == gate(
            granted,
            request.prompt@,
            request.image_data@,
            request.generate_angles,
            *prompts,
            key_view(api_key),
        ),
        step matches Err(reply) ==> reply@.body.well_formed(),
{
    if !granted {
        return Err(rate_limited());
    }
    generate_haircut_image(request, prompts, api_key)
}

/// Takes a request of `client` at `now` from the limit on requests to the
/// call of the generation service. The request is on record whatever becomes
/// of it.
pub fn handle_request_at(
    store: &mut RateLimitStore,
    client: &str,
    now: u64,
    request: &GenerateRequest,
    prompts: &Prompts,
    api_key: Option<&str>,
) -> (step: Result<ApiRequest, Reply>)
    ensures
        final(store)@ == records_after(old(store)@, client@, now),
        step_view(step) == gate(
            admits(stamps_of(old(store)@, client@), now),
            request.prompt@,
            request.image_data@,
            request.generate_angles,
            *prompts,
            key_view(api_key),
        ),
        step matches Err(reply) ==> reply@.body.well_formed(),
{
    let granted = check_rate_limit_at(store, client, now);
    proceed(granted, request, prompts, api_key)
}

/// Takes a request of `client` at the time that the system clock shows from
/// the limit on requests to the call of the generation service.
pub fn handle_request(
    store: &mut RateLimitStore,
    client: &str,
    request: &GenerateRequest,
    prompts: &Prompts,
    api_key: Option<&str>,
) -> (step: Result<ApiRequest, Reply>)
    ensures
        exists|now: u64|
            final(store)@ == #[trigger] records_after(old(store)@, client@, now) && step_view(step)
                == gate(
                admits(stamps_of(old(store)@, client@), now),
                request.prompt@,
                request.image_data@,
                request.generate_angles,
                *prompts,
                key_view(api_key),
            ),
        step matches Err(reply) ==> reply@.body.well_formed(),
{
    let granted = check_rate_limit(store, client);
    proceed(granted, request, prompts, api_key)
}

} // verus!
