//! The request gate and the client logic of a hairstyle preview service.
//!
//! A caller sends a photo and a description of a hairstyle; an outside image
//! generation service draws the person with that hairstyle. This library
//! holds what that takes apart from the network: the limit on requests for
//! each client (`rate_limit`), the checks on the input (`validation`), the
//! instruction templates (`prompts`), the call that is sent to the service
//! and the reading of its reply (`gemini`, `response`), and the answers that
//! go back to the caller (`handler`). The library sends nothing itself: it
//! hands out the call to make and takes in the reply.
//!
//! Base64 and JSON come from the `base64` and `serde_json` crates; `encoding`
//! and `json` say what is taken on trust of them.

mod clock;
pub mod encoding;
pub mod gemini;
pub mod handler;
pub mod json;
pub mod prompts;
pub mod rate_limit;
pub mod response;
pub mod text;
pub mod validation;
