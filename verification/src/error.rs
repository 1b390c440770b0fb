use vstd::prelude::*;

verus! {

/// A flow description, or a part of a graph, that is structurally invalid.
#[derive(Debug, Clone, Copy, PartialEq, Eq, Structural)]
pub enum Error {
    BadConstruction,
}

impl Error {
    /// The name of the error, as it is shown to a user.
    pub fn description(&self) -> (text: String)
        ensures
            text@ == "BadConstruction"@,
    {
        match self {
            Error::BadConstruction => "BadConstruction".to_owned(),
        }
    }
}

/// Why a description could not be obtained from a source.
#[derive(Debug, Clone, PartialEq, Eq)]
pub enum LoadError {
    /// The placeholder names a source that the list of sources does not hold.
    FunctionNotFound,
    /// Descriptions loaded eagerly were nested deeper than the caller allowed,
    /// which is what a description that refers to itself looks like.
    TooDeep,
    /// The source itself failed; the text is its message.
    Failed(String),
    /// The description that was loaded is structurally invalid.
    Invalid(Error),
}

impl LoadError {
    /// The words for the error.
    pub open spec fn spec_description(&self) -> Seq<char> {
        match self {
            LoadError::FunctionNotFound => "Function not found"@,
            LoadError::TooDeep => "Descriptions nested too deep"@,
            LoadError::Failed(message) => message@,
            LoadError::Invalid(_) => "BadConstruction"@,
        }
    }

    /// The error as it is shown to a user: a source's own message, or a few
    /// words for what the graph found.
    pub fn description(&self) -> (text: String)
        ensures
            text@ == self.spec_description(),
    {
        match self {
            LoadError::FunctionNotFound => "Function not found".to_owned(),
            LoadError::TooDeep => "Descriptions nested too deep".to_owned(),
            LoadError::Failed(message) => message.clone(),
            LoadError::Invalid(e) => e.description(),
        }
    }
}

} // verus!
