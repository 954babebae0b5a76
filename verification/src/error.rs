use vstd::prelude::*;

verus! {

/// What stopped a run. Every error is fatal: nothing is retried.
#[derive(Debug, Clone, Copy, PartialEq, Eq, Hash, Structural)]
pub enum MojError {
    UserError,
    ReadConfig,
    ParseConfig,
    FetchVersionManifest,
    OpenGitRepo,
    Decompilation,
    Commit,
    Tag,
    Reset,
}

impl MojError {
    /// The one-line description of the error, as a character sequence.
    pub open spec fn spec_message(self) -> Seq<char> {
        match self {
            MojError::UserError => "User error"@,
            MojError::ReadConfig => "Failed to read config file"@,
            MojError::ParseConfig => "Failed to parse config file"@,
            MojError::FetchVersionManifest => "Failed to fetch version manifest"@,
            MojError::OpenGitRepo => "Failed to open git repository"@,
            MojError::Decompilation => "Failed to decompile version"@,
            MojError::Commit => "Failed to add files and commit new version"@,
            MojError::Tag => "Failed to tag new version"@,
            MojError::Reset => "Failed to reset repository"@,
        }
    }

    /// The one-line description of the error.
    pub fn message(&self) -> (text: &'static str)
        ensures
            text@ == self.spec_message(),
    {
        match self {
            MojError::UserError => "User error",
            MojError::ReadConfig => "Failed to read config file",
            MojError::ParseConfig => "Failed to parse config file",
            MojError::FetchVersionManifest => "Failed to fetch version manifest",
            MojError::OpenGitRepo => "Failed to open git repository",
            MojError::Decompilation => "Failed to decompile version",
            MojError::Commit => "Failed to add files and commit new version",
            MojError::Tag => "Failed to tag new version",
            MojError::Reset => "Failed to reset repository",
        }
    }
}

} // verus!
