//! The status that a refused or failed call is answered with.

use vstd::prelude::*;

verus! {

/// The kind of a failure, as the gRPC protocol names it.
#[derive(Clone, Copy, Debug, PartialEq, Eq, Structural)]
pub enum Code {
    InvalidArgument,
    NotFound,
    AlreadyExists,
    FailedPrecondition,
    Unimplemented,
    Internal,
    Unavailable,
}

/// A failure: its kind and a message for the caller.
#[derive(Debug)]
pub struct Status {
    pub code: Code,
    pub message: String,
}

impl View for Status {
    type V = (Code, Seq<char>);

    open spec fn view(&self) -> (Code, Seq<char>) {
        (self.code, self.message@)
    }
}

impl Status {
    pub fn new(code: Code, message: String) -> (status: Status)
        ensures
            status@ == (code, message@),
    {
        Status { code, message }
    }

    pub fn code(&self) -> (code: Code)
        ensures
            code == self@.0,
    {
        self.code
    }

    pub fn message(&self) -> (message: &str)
        ensures
            message@ == self@.1,
    {
        self.message.as_str()
    }

    pub fn invalid_argument(message: &str) -> (status: Status)
        ensures
            status@ == (Code::InvalidArgument, message@),
    {
        Status::new(Code::InvalidArgument, message.to_string())
    }

    pub fn not_found(message: &str) -> (status: Status)
        ensures
            status@ == (Code::NotFound, message@),
    {
        Status::new(Code::NotFound, message.to_string())
    }

    pub fn already_exists(message: &str) -> (status: Status)
        ensures
            status@ == (Code::AlreadyExists, message@),
    {
        Status::new(Code::AlreadyExists, message.to_string())
    }

    pub fn failed_precondition(message: &str) -> (status: Status)
        ensures
            status@ == (Code::FailedPrecondition, message@),
    {
        Status::new(Code::FailedPrecondition, message.to_string())
    }

    pub fn unimplemented(message: &str) -> (status: Status)
        ensures
            status@ == (Code::Unimplemented, message@),
    {
        Status::new(Code::Unimplemented, message.to_string())
    }

    pub fn internal(message: &str) -> (status: Status)
        ensures
            status@ == (Code::Internal, message@),
    {
        Status::new(Code::Internal, message.to_string())
    }

    pub fn unavailable(message: &str) -> (status: Status)
        ensures
            status@ == (Code::Unavailable, message@),
    {
        Status::new(Code::Unavailable, message.to_string())
    }
}

/// A check without a result: it passes where `refusal` is nothing, and fails with that refusal
/// otherwise.
pub open spec fn answers(outcome: Result<(), Status>, refusal: Option<(Code, Seq<char>)>) -> bool {
    match outcome {
        Ok(()) => refusal is None,
        Err(status) => refusal == Some(status@),
    }
}

/// A call whose result is known in advance: the value, or the refusal.
pub open spec fn replies<T>(outcome: Result<T, Status>, expected: Result<T, (Code, Seq<char>)>) -> bool {
    match outcome {
        Ok(value) => expected == Ok::<T, (Code, Seq<char>)>(value),
        Err(status) => expected == Err::<T, (Code, Seq<char>)>(status@),
    }
}

/// A check passes if and only if there is nothing to refuse, and a call is answered with its value
/// if and only if it has one; a failure carries the code and the message of the refusal.
pub proof fn refusals_are_answered<T>(
    checked: Result<(), Status>,
    refusal: Option<(Code, Seq<char>)>,
    called: Result<T, Status>,
    expected: Result<T, (Code, Seq<char>)>,
)
    requires
        answers(checked, refusal),
        replies(called, expected),
    ensures
        checked is Ok <==> refusal is None,
        checked is Err ==> checked->Err_0.code == refusal->Some_0.0 && checked->Err_0.message@
            == refusal->Some_0.1,
        called is Ok <==> expected is Ok,
        called is Ok ==> called->Ok_0 == expected->Ok_0,
        called is Err ==> called->Err_0.code == expected->Err_0.0 && called->Err_0.message@
            == expected->Err_0.1,
{
}

} // verus!
