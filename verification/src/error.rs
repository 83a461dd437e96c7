//! The error taxonomy shared by every pipeline stage.
use vstd::prelude::*;
use vstd::string::*;

verus! {

/// A failure of one pipeline stage. Every variant carries its human-readable detail.
#[derive(Debug, Clone)]
pub enum CustomError {
    /// A repository operation failed.
    GitError(String),
    /// A filesystem operation failed.
    IoError(String),
    /// The manifest could not be parsed.
    TomlError(String),
    /// Bad or missing input.
    ValidationError(String),
    /// A tool ran and reported failure, or a packing invariant was violated.
    BuildError(String),
    /// A tool could not be started or awaited.
    ProcessError(String),
}

impl CustomError {
    /// The detail carried by the error, whatever its variant.
    pub open spec fn detail(self) -> Seq<char> {
        match self {
            CustomError::GitError(s) => s@,
            CustomError::IoError(s) => s@,
            CustomError::TomlError(s) => s@,
            CustomError::ValidationError(s) => s@,
            CustomError::BuildError(s) => s@,
            CustomError::ProcessError(s) => s@,
        }
    }

    /// The fixed heading under which each variant is reported.
    pub open spec fn heading(self) -> Seq<char> {
        match self {
            CustomError::GitError(_) => "Git operation failed: "@,
            CustomError::IoError(_) => "I/O operation failed: "@,
            CustomError::TomlError(_) => "TOML parsing failed: "@,
            CustomError::ValidationError(_) => "Validation error: "@,
            CustomError::BuildError(_) => "Build failed: "@,
            CustomError::ProcessError(_) => "Process execution failed: "@,
        }
    }

    /// The message shown to the user: the heading followed by the detail.
    pub fn message(&self) -> (out: String)
        ensures
            out@ == self.heading() + self.detail(),
    {
        match self {
            CustomError::GitError(s) => String::from_str("Git operation failed: ").concat(
                s.as_str(),
            ),
            CustomError::IoError(s) => String::from_str("I/O operation failed: ").concat(
                s.as_str(),
            ),
            CustomError::TomlError(s) => String::from_str("TOML parsing failed: ").concat(
                s.as_str(),
            ),
            CustomError::ValidationError(s) => String::from_str("Validation error: ").concat(
                s.as_str(),
            ),
            CustomError::BuildError(s) => String::from_str("Build failed: ").concat(s.as_str()),
            CustomError::ProcessError(s) => String::from_str(
                "Process execution failed: ",
            ).concat(s.as_str()),
        }
    }

    /// True for errors that come from a tool that ran and failed or from a violated
    /// packing invariant.
    pub fn is_build(&self) -> (b: bool)
        ensures
            b == (*self is BuildError),
    {
        match self {
            CustomError::BuildError(_) => true,
            _ => false,
        }
    }
}

} // verus!
