//! Instruction templates for the image generation service.

use crate::text::{replace_all, replaced};
use vstd::prelude::*;

verus! {

/// The token that stands for the style description in a template.
pub open spec fn placeholder() -> Seq<char> {
    "{haircut}"@
}

/// A template with every placeholder replaced by the description, which is
/// taken as it is.
pub open spec fn rendered(template: Seq<char>, description: Seq<char>) -> Seq<char> {
    replaced(template, placeholder(), description)
}

/// The two instruction templates: one for the front view, one for the side
/// and back views together.
pub struct Prompts {
    front_view: String,
    side_and_back_views: String,
}

impl Prompts {
    /// The template for the front view.
    pub closed spec fn front_view_template(&self) -> Seq<char> {
        self.front_view@
    }

    /// The template for the side and back views.
    pub closed spec fn side_and_back_views_template(&self) -> Seq<char> {
        self.side_and_back_views@
    }

    /// Holds the two templates.
    pub fn new(front_view: String, side_and_back_views: String) -> (prompts: Prompts)
        ensures
            prompts.front_view_template() == front_view@,
            prompts.side_and_back_views_template() == side_and_back_views@,
    {
        Prompts { front_view, side_and_back_views }
    }

    /// The instruction for a front view of the described style.
    pub fn front_view(&self, haircut_description: &str) -> (instruction: String)
        ensures
            instruction@ == rendered(self.front_view_template(), haircut_description@),
    {
        replace_all(self.front_view.as_str(), "{haircut}", haircut_description)
    }

    /// The instruction for side and back views of the described style.
    pub fn side_and_back_views(&self, haircut_description: &str) -> (instruction: String)
        ensures
            instruction@ == rendered(self.side_and_back_views_template(), haircut_description@),
    {
        replace_all(self.side_and_back_views.as_str(), "{haircut}", haircut_description)
    }
}

} // verus!
