//! Checks on a request's photo and style description, made before anything
//! is sent on.

use crate::encoding::{base64_bytes, byte_len, decode};
use crate::text::{blank, chars_of, contains, has_substring, is_blank};
use vstd::prelude::*;
use vstd::string::StrSliceExecFns;

verus! {

/// Why a request's input was turned down.
#[derive(Clone, Copy, Debug, PartialEq, Eq, Structural)]
pub enum ValidationError {
    /// The description is empty or blank.
    Empty,
    /// The description has more than `MAX_PROMPT_CHARS` characters.
    TooLong,
    /// The description holds a blocked word.
    BlockedContent,
    /// The photo is no base64 text.
    InvalidFormat,
    /// The photo is estimated at more than `MAX_IMAGE_BYTES` bytes.
    TooLarge,
}

impl ValidationError {
    /// The reason as it is told to the caller.
    pub open spec fn text(self) -> Seq<char> {
        match self {
            ValidationError::Empty => "Prompt cannot be empty"@,
            ValidationError::TooLong => "Prompt too long (max 500 characters)"@,
            ValidationError::BlockedContent => "Prompt contains invalid content"@,
            ValidationError::InvalidFormat => "Invalid image data format"@,
            ValidationError::TooLarge => "Image too large (max 10MB)"@,
        }
    }

    /// The reason as it is told to the caller.
    pub fn message(&self) -> (message: String)
        ensures
            message@ == self.text(),
    {
        match self {
            ValidationError::Empty => "Prompt cannot be empty".to_owned(),
            ValidationError::TooLong => "Prompt too long (max 500 characters)".to_owned(),
            ValidationError::BlockedContent => "Prompt contains invalid content".to_owned(),
            ValidationError::InvalidFormat => "Invalid image data format".to_owned(),
            ValidationError::TooLarge => "Image too large (max 10MB)".to_owned(),
        }
    }
}

/// The most characters a description may have.
pub const MAX_PROMPT_CHARS: usize = 500;

/// The most bytes a photo may be estimated at: 10 MB.
pub const MAX_IMAGE_BYTES: usize = 10485760;

/// The words that a description may not hold, in lower case.
pub open spec fn blocklist() -> Seq<Seq<char>> {
    seq!["script"@, "javascript"@, "html"@, "css"@, "<"@, ">"@, "http"@, "www"@]
}

/// Whether a text holds a blocked word anywhere, inside other words too.
pub open spec fn is_blocked(text: Seq<char>) -> bool {
    exists|i: int| 0 <= i < blocklist().len() && has_substring(text, #[trigger] blocklist()[i])
}

/// The verdict on a description, given the description in lower case. A blank
/// description is `Empty` whatever its length, a long one `TooLong` whatever
/// it holds.
pub open spec fn prompt_verdict(prompt: Seq<char>, lowered: Seq<char>) -> Result<
    (),
    ValidationError,
> {
    if is_blank(prompt) {
        Err(ValidationError::Empty)
    } else if prompt.len() > MAX_PROMPT_CHARS {
        Err(ValidationError::TooLong)
    } else if is_blocked(lowered) {
        Err(ValidationError::BlockedContent)
    } else {
        Ok(())
    }
}

/// The size at which a photo is estimated from the length of its base64
/// text: three bytes for four characters, rounded down. Padding is counted
/// as if it were data.
pub open spec fn estimated_size(encoded_len: nat) -> nat {
    encoded_len * 3 / 4
}

/// The verdict on a photo, given whether its text decodes and how long the
/// text is.
pub open spec fn image_verdict(decodes: bool, encoded_len: nat) -> Result<(), ValidationError> {
    if !decodes {
        Err(ValidationError::InvalidFormat)
    } else if estimated_size(encoded_len) > MAX_IMAGE_BYTES {
        Err(ValidationError::TooLarge)
    } else {
        Ok(())
    }
}

/// What `str::to_lowercase` makes of a text.
pub uninterp spec fn lowercase(text: Seq<char>) -> Seq<char>;

/// Calls `str::to_lowercase`. The result is named `lowercase`.
#[verifier::external_body]
fn to_lowercase(text: &str) -> (lowered: String)
    ensures
        lowered@ == lowercase(text@),
{
    text.to_lowercase()
}

fn blocked_words() -> (words: Vec<&'static str>)
    ensures
        words@.len() == blocklist().len(),
        forall|i: int| 0 <= i < words@.len() ==> (#[trigger] words@[i])@ == blocklist()[i],
{
    vec!["script", "javascript", "html", "css", "<", ">", "http", "www"]
}

/// Tells whether a text holds a blocked word. The text is taken as it is: a
/// caller that wants case to be ignored hands it over in lower case.
pub fn contains_blocked(text: &str) -> (found: bool)
    ensures
        found == is_blocked(text@),
{
    let characters = chars_of(text);
    let words = blocked_words();
    let mut i: usize = 0;
    while i < words.len()
        invariant
            characters@ == text@,
            i <= words@.len() == blocklist().len(),
            forall|j: int| 0 <= j < words@.len() ==> (#[trigger] words@[j])@ == blocklist()[j],
            forall|j: int| 0 <= j < i ==> !has_substring(text@, #[trigger] blocklist()[j]),
        decreases words.len() - i,
    {
        let word = chars_of(words[i]);
        if contains(characters.as_slice(), word.as_slice()) {
            return true;
        }
        i += 1;
    }
    false
}

/// Checks a style description: it may not be blank, nor longer than
/// `MAX_PROMPT_CHARS` characters, nor hold a blocked word in any mix of upper
/// and lower case. The first of these that fails is reported.
pub fn validate_prompt(prompt: &str) -> (verdict: Result<(), ValidationError>)
    ensures
        verdict == prompt_verdict(prompt@, lowercase(prompt@)),
{
    if blank(prompt) {
        return Err(ValidationError::Empty);
    }
    if prompt.unicode_len() > MAX_PROMPT_CHARS {
        return Err(ValidationError::TooLong);
    }
    let lowered = to_lowercase(prompt);
    if contains_blocked(lowered.as_str()) {
        return Err(ValidationError::BlockedContent);
    }
    Ok(())
}

/// The verdict on a photo whose text is `encoded_len` bytes long and decodes
/// or does not.
pub fn check_image(decodes: bool, encoded_len: usize) -> (verdict: Result<(), ValidationError>)
    ensures
        verdict == image_verdict(decodes, encoded_len as nat),
{
    if !decodes {
        return Err(ValidationError::InvalidFormat);
    }
    let estimate: u128 = (encoded_len as u128) * 3 / 4;
    if estimate > MAX_IMAGE_BYTES as u128 {
        return Err(ValidationError::TooLarge);
    }
    Ok(())
}

/// Checks a photo in base64: the text must decode, and the size estimated
/// from its length may not be over `MAX_IMAGE_BYTES`. The estimate is never
/// more than two bytes under the true size, so a photo that passes decodes
/// to `MAX_IMAGE_BYTES + 2` bytes at most.
pub fn validate_image_data(data: &str) -> (verdict: Result<(), ValidationError>)
    ensures
        verdict == image_verdict(base64_bytes(data@) is Some, byte_len(data@)),
        verdict is Ok ==> base64_bytes(data@)->0.len() <= MAX_IMAGE_BYTES + 2,
{
    let decodes = decode(data).is_ok();
    check_image(decodes, data.len())
}

} // verus!
