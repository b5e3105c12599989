//! The error every operation of the library reports.

use vstd::prelude::*;

verus! {

/// Which class of failure an error belongs to.
#[derive(Debug, Clone, Copy, PartialEq, Eq, Structural)]
pub enum ErrorKind {
    /// An argument, or a value read from a table, is not acceptable.
    InvalidArgument,
    /// A schema is missing something or does not fit.
    Schema,
    /// A caller's query is not acceptable.
    InvalidInput,
    /// Arrow failed, in its own words.
    Arrow,
}

/// A failed operation: its class and the message for the caller.
#[derive(Debug, Clone, PartialEq)]
pub struct StoreError {
    pub kind: ErrorKind,
    pub message: String,
}

/// The model of a [`StoreError`].
#[verifier::ext_equal]
pub struct Failure {
    pub kind: ErrorKind,
    pub message: Seq<char>,
}

impl View for StoreError {
    type V = Failure;

    open spec fn view(&self) -> Failure {
        Failure { kind: self.kind, message: self.message@ }
    }
}

/// The model of an invalid-argument failure.
pub open spec fn invalid_argument(message: Seq<char>) -> Failure {
    Failure { kind: ErrorKind::InvalidArgument, message }
}

/// The model of a schema failure.
pub open spec fn schema_failure(message: Seq<char>) -> Failure {
    Failure { kind: ErrorKind::Schema, message }
}

/// The model of an invalid-input failure.
pub open spec fn invalid_query(message: Seq<char>) -> Failure {
    Failure { kind: ErrorKind::InvalidInput, message }
}

/// The model of a failure of Arrow's.
pub open spec fn arrow_failure(message: Seq<char>) -> Failure {
    Failure { kind: ErrorKind::Arrow, message }
}

impl StoreError {
    /// An invalid-argument error carrying `message`.
    pub fn invalid_argument(message: String) -> (error: StoreError)
        ensures
            error@ == invalid_argument(message@),
    {
        StoreError { kind: ErrorKind::InvalidArgument, message }
    }

    /// A schema error carrying `message`.
    pub fn schema(message: String) -> (error: StoreError)
        ensures
            error@ == schema_failure(message@),
    {
        StoreError { kind: ErrorKind::Schema, message }
    }

    /// An invalid-input error carrying `message`.
    pub fn invalid_input(message: String) -> (error: StoreError)
        ensures
            error@ == invalid_query(message@),
    {
        StoreError { kind: ErrorKind::InvalidInput, message }
    }

    /// An error of Arrow's carrying `message`.
    pub fn arrow(message: String) -> (error: StoreError)
        ensures
            error@ == arrow_failure(message@),
    {
        StoreError { kind: ErrorKind::Arrow, message }
    }
}

/// What a failed check reports, or `None` where it passed.
pub open spec fn check_failure(result: Result<(), StoreError>) -> Option<Failure> {
    match result {
        Ok(_) => None,
        Err(error) => Some(error@),
    }
}

/// The model of an error holds each of its parts.
pub proof fn law_an_errors_model_is_whole(error: StoreError)
    ensures
        error@.kind == error.kind,
        error@.message == error.message@,
{
}

/// A failure keeps its words and has the kind that it is made for.
pub proof fn law_a_failure_has_its_kind(message: Seq<char>)
    ensures
        invalid_argument(message).kind == ErrorKind::InvalidArgument,
        schema_failure(message).kind == ErrorKind::Schema,
        invalid_query(message).kind == ErrorKind::InvalidInput,
        arrow_failure(message).kind == ErrorKind::Arrow,
        invalid_argument(message).message == message,
        schema_failure(message).message == message,
        invalid_query(message).message == message,
        arrow_failure(message).message == message,
{
}

/// A check fails with the failure of its error, and with none where it succeeds.
pub proof fn law_a_check_fails_with_its_error(result: Result<(), StoreError>)
    ensures
        result is Ok ==> check_failure(result) is None,
        result matches Err(error) ==> check_failure(result) == Some(error@),
{
}

} // verus!
