//! Which prompt template a piece of the conversation is to be rendered with.
//! The templates are files that the user may edit, so reading and filling them
//! is left to the caller.

use vstd::prelude::*;

verus! {

/// A template for the runtime context of a user message.
#[derive(Debug, Clone, Copy, PartialEq, Eq, Structural)]
pub enum PromptTemplate {
    Triage,
    Translate,
    Correct,
    ExplainSelection,
    GotIt,
}

impl PromptTemplate {
    /// The name of the template's file.
    pub open spec fn spec_file_name(self) -> Seq<char> {
        match self {
            PromptTemplate::Triage => "triage.md"@,
            PromptTemplate::Translate => "translate.md"@,
            PromptTemplate::Correct => "correct.md"@,
            PromptTemplate::ExplainSelection => "explain-selection.md"@,
            PromptTemplate::GotIt => "got-it.md"@,
        }
    }

    /// The name of the template's file in the folder of templates.
    pub fn file_name(self) -> (name: &'static str)
        ensures
            name@ == self.spec_file_name(),
    {
        match self {
            PromptTemplate::Triage => "triage.md",
            PromptTemplate::Translate => "translate.md",
            PromptTemplate::Correct => "correct.md",
            PromptTemplate::ExplainSelection => "explain-selection.md",
            PromptTemplate::GotIt => "got-it.md",
        }
    }
}

/// A text to be put into a template.
#[derive(Debug)]
pub struct PromptRequest {
    pub template: PromptTemplate,
    pub text: String,
}

/// What a prompt request asks for.
#[verifier::ext_equal]
pub struct PromptModel {
    pub template: PromptTemplate,
    pub text: Seq<char>,
}

impl View for PromptRequest {
    type V = PromptModel;

    open spec fn view(&self) -> PromptModel {
        PromptModel { template: self.template, text: self.text@ }
    }
}

/// A prompt request is seen with its template and its text.
pub proof fn requests_are_seen_whole(request: PromptRequest)
    ensures
        request@.template == request.template,
        request@.text == request.text@,
{
}

/// No two templates are in the same file.
pub proof fn templates_have_their_own_files(a: PromptTemplate, b: PromptTemplate)
    ensures
        a.spec_file_name() == b.spec_file_name() ==> a == b,
{
    reveal_strlit("triage.md");
    reveal_strlit("translate.md");
    reveal_strlit("correct.md");
    reveal_strlit("explain-selection.md");
    reveal_strlit("got-it.md");
    assert("triage.md"@.len() == 9 && "translate.md"@.len() == 12 && "correct.md"@.len() == 10);
    assert("explain-selection.md"@.len() == 20 && "got-it.md"@.len() == 9);
    assert("triage.md"@[0] == 't' && "got-it.md"@[0] == 'g');
}

}
