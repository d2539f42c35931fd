use vstd::prelude::*;

verus! {

/// Errors the library reports.
#[derive(Debug)]
pub enum SkillfileError {
    /// A registry could not be reached, or what it sent could not be read.
    Network(String),
    /// A request named something the library does not know.
    Manifest(String),
}

/// What an error holds, as plain text.
pub enum ErrorView {
    Network(Seq<char>),
    Manifest(Seq<char>),
}

impl View for SkillfileError {
    type V = ErrorView;

    open spec fn view(&self) -> ErrorView {
        match self {
            SkillfileError::Network(m) => ErrorView::Network(m@),
            SkillfileError::Manifest(m) => ErrorView::Manifest(m@),
        }
    }
}

/// The text an error carries.
pub open spec fn error_text(e: ErrorView) -> Seq<char> {
    match e {
        ErrorView::Network(m) => m,
        ErrorView::Manifest(m) => m,
    }
}

impl SkillfileError {
    /// The error's message.
    pub fn to_string(&self) -> (s: String)
        ensures
            s@ == error_text(self@),
    {
        match self {
            SkillfileError::Network(m) => m.clone(),
            SkillfileError::Manifest(m) => m.clone(),
        }
    }
}

} // verus!
