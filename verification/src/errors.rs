//! The errors of archive creation.

use vstd::prelude::*;

verus! {

/// `std::io::Error`, carried through as the cause of a failure. Nothing is
/// known of its contents.
#[verifier::external_type_specification]
#[verifier::external_body]
pub struct ExIoError(std::io::Error);

/// `std::io::Error::other`: an error that carries `message`.
#[verifier::external_body]
pub(crate) fn io_failure(message: &str) -> std::io::Error {
    std::io::Error::other(message.to_string())
}

/// What went wrong while an archive was made.
#[derive(Debug)]
pub enum ContextualError {
    /// An operation on bytes failed; the text names the operation.
    IoError(String, std::io::Error),
    /// The name of the source directory cannot be determined or is not valid
    /// text.
    InvalidPathError(String),
    /// A stage of archive creation failed; the text names the stage and the
    /// boxed error is the cause.
    ArchiveCreationError(String, Box<ContextualError>),
}

impl ContextualError {
    /// The error is the failure `cause` of an operation on bytes, with the
    /// context `context`.
    pub open spec fn is_io_error(self, context: Seq<char>, cause: std::io::Error) -> bool {
        &&& self matches ContextualError::IoError(c, e)
        &&& c@ == context
        &&& e == cause
    }

    /// The error attributes a failed operation on bytes to the stage `stage`,
    /// with the context `context` and the cause `cause`.
    pub open spec fn is_stage_failure(
        self,
        stage: Seq<char>,
        context: Seq<char>,
        cause: std::io::Error,
    ) -> bool {
        &&& self matches ContextualError::ArchiveCreationError(s, inner)
        &&& s@ == stage
        &&& *inner matches ContextualError::IoError(c, e)
        &&& c@ == context
        &&& e == cause
    }

    /// Attributes `cause` to the stage of archive creation named `stage`.
    pub fn in_stage(stage: &str, cause: ContextualError) -> (e: ContextualError)
        ensures
            e matches ContextualError::ArchiveCreationError(s, inner) && s@ == stage@ && *inner
                == cause,
    {
        ContextualError::ArchiveCreationError(stage.to_string(), Box::new(cause))
    }
}

} // verus!
