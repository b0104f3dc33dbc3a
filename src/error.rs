use vstd::prelude::*;

verus! {

/// Why a lookup did not produce a record.
#[derive(Debug)]
pub enum LookupError {
    /// No word was given.
    MissingWord,
    /// The service knows no entry for this word.
    WordNotFound(String),
    /// The service could not be reached, or answered with an unexpected status
    /// or a body that is not a non-empty JSON array.
    FetchFailed,
    /// The service's entry lacks the structure a record is read from.
    MalformedResponse,
    /// The cache store could not be written.
    CacheWriteFailed,
}

/// What an error says, as mathematical values.
pub enum ErrorModel {
    MissingWord,
    WordNotFound(Seq<char>),
    FetchFailed,
    MalformedResponse,
    CacheWriteFailed,
}

impl View for LookupError {
    type V = ErrorModel;

    open spec fn view(&self) -> ErrorModel {
        match self {
            LookupError::MissingWord => ErrorModel::MissingWord,
            LookupError::WordNotFound(w) => ErrorModel::WordNotFound(w@),
            LookupError::FetchFailed => ErrorModel::FetchFailed,
            LookupError::MalformedResponse => ErrorModel::MalformedResponse,
            LookupError::CacheWriteFailed => ErrorModel::CacheWriteFailed,
        }
    }
}

/// What the user is told for each error.
pub open spec fn message_text(e: ErrorModel) -> Seq<char> {
    match e {
        ErrorModel::MissingWord => "Missing word to define"@,
        ErrorModel::WordNotFound(_) => "No definition found; check the spelling"@,
        ErrorModel::FetchFailed => "Failed to fetch the definition"@,
        ErrorModel::MalformedResponse => "The dictionary service sent an unexpected answer"@,
        ErrorModel::CacheWriteFailed => "Failed to write to the dictionary cache"@,
    }
}

impl LookupError {
    /// A short description for the user.
    pub fn message(&self) -> (r: &'static str)
        ensures
            r@ == message_text(self@),
    {
        match self {
            LookupError::MissingWord => "Missing word to define",
            LookupError::WordNotFound(_) => "No definition found; check the spelling",
            LookupError::FetchFailed => "Failed to fetch the definition",
            LookupError::MalformedResponse => "The dictionary service sent an unexpected answer",
            LookupError::CacheWriteFailed => "Failed to write to the dictionary cache",
        }
    }
}

} // verus!
