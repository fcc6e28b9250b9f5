//! Small structures nested in the upstream's response events.

use vstd::prelude::*;

verus! {

/// A range of positions in a response.
#[derive(Clone, Copy, Debug, PartialEq, Eq, Structural)]
pub struct ContentSpan {
    pub start: i32,
    pub end: i32,
}

/// A better source that a reference missed.
#[derive(Clone, Debug)]
pub struct MostRelevantMissedAlternative {
    pub url: String,
    pub license_name: Option<String>,
    pub repository: Option<String>,
}

/// Where code in a response comes from.
#[derive(Clone, Debug)]
pub struct Reference {
    pub license_name: Option<String>,
    pub repository: Option<String>,
    pub url: Option<String>,
    pub information: Option<String>,
    /// Where in the response the recommended content stands.
    pub recommendation_content_span: Option<ContentSpan>,
    pub most_relevant_missed_alternative: Option<MostRelevantMissedAlternative>,
}

impl Reference {
    /// A reference that says nothing yet.
    pub fn new() -> (reference: Self)
        ensures
            reference.license_name is None,
            reference.repository is None,
            reference.url is None,
            reference.information is None,
            reference.recommendation_content_span is None,
            reference.most_relevant_missed_alternative is None,
    {
        Reference {
            license_name: None,
            repository: None,
            url: None,
            information: None,
            recommendation_content_span: None,
            most_relevant_missed_alternative: None,
        }
    }
}

impl Default for Reference {
    fn default() -> (reference: Self)
        ensures
            reference.license_name is None,
            reference.repository is None,
            reference.url is None,
            reference.information is None,
            reference.recommendation_content_span is None,
            reference.most_relevant_missed_alternative is None,
    {
        Reference::new()
    }
}

/// A prompt that the assistant suggests as a follow-up.
#[derive(Clone, Debug)]
pub struct FollowupPrompt {
    pub content: String,
    /// What the user is taken to intend, by its name on the wire.
    pub user_intent: Option<String>,
}

/// The programming language of a piece of code.
#[derive(Clone, Debug)]
pub struct ProgrammingLanguage {
    pub language_name: String,
}

/// A customised model configuration.
#[derive(Clone, Debug)]
pub struct Customization {
    /// The resource name of the configuration.
    pub arn: String,
    pub name: Option<String>,
}

/// A query about code.
#[derive(Clone, Debug)]
pub struct CodeQuery {
    pub code_query_id: String,
    pub programming_language: Option<ProgrammingLanguage>,
    pub user_input_message_id: Option<String>,
}

} // verus!
