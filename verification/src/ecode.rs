use vstd::prelude::*;

verus! {

/// The error codes of iowow (`iw_ecode`) that the bindings name, as returned by
/// `iwrc_strip_errno`; `Unknown` stands for every other value.
#[derive(Debug, Clone, Copy, PartialEq, Eq)]
pub enum IwErrorCode {
    NoError,
    Fail,
    Errno,
    IoErrno,
    Again,
    NotExists,
    Readonly,
    AlreadyOpened,
    Threading,
    ThreadingErrno,
    Assertion,
    InvalidHandle,
    OutOfBounds,
    NotImplemented,
    Alloc,
    InvalidState,
    NotAligned,
    False,
    InvalidArgs,
    Overflow,
    InvalidValue,
    UnexpectedResponse,
    NotAllowed,
    Unsupported,
    Unknown,
}

/// The message that the bindings print and raise for an error code.
pub open spec fn error_message(code: IwErrorCode) -> Seq<char> {
    match code {
        IwErrorCode::NoError => "No error."@,
        IwErrorCode::Fail => "Unspecified error."@,
        IwErrorCode::Errno => "Error with expected errno status set."@,
        IwErrorCode::IoErrno => "IO error with expected errno status set."@,
        IwErrorCode::Again => "Again"@,
        IwErrorCode::NotExists => "Resource is not exists."@,
        IwErrorCode::Readonly => "Resource is readonly."@,
        IwErrorCode::AlreadyOpened => "Resource is already opened."@,
        IwErrorCode::Threading => "Threading error."@,
        IwErrorCode::ThreadingErrno => "Threading error with errno status set."@,
        IwErrorCode::Assertion => "Generic assertion error."@,
        IwErrorCode::InvalidHandle => "Invalid HANDLE value."@,
        IwErrorCode::OutOfBounds => "Invalid bounds specified."@,
        IwErrorCode::NotImplemented => "Method is not implemented."@,
        IwErrorCode::Alloc => "Memory allocation failed."@,
        IwErrorCode::InvalidState => "Illegal state error."@,
        IwErrorCode::NotAligned => "Argument is not aligned properly."@,
        IwErrorCode::False => "Request rejection/false response."@,
        IwErrorCode::InvalidArgs => "Invalid function arguments."@,
        IwErrorCode::Overflow => "Overflow."@,
        IwErrorCode::InvalidValue => "Invalid value."@,
        IwErrorCode::UnexpectedResponse => "Unexpected response (IW_ERROR_UNEXPECTED_RESPONSE)"@,
        IwErrorCode::NotAllowed => "Action is not allowed. (IW_ERROR_NOT_ALLOWED)"@,
        IwErrorCode::Unsupported => "Unsupported opration. (IW_ERROR_UNSUPPORTED)"@,
        IwErrorCode::Unknown => "Unknown error code"@,
    }
}

/// The human readable message for an error code.
pub fn err_to_str(code: IwErrorCode) -> (r: &'static str)
    ensures
        r@ == error_message(code),
{
    match code {
        IwErrorCode::NoError => "No error.",
        IwErrorCode::Fail => "Unspecified error.",
        IwErrorCode::Errno => "Error with expected errno status set.",
        IwErrorCode::IoErrno => "IO error with expected errno status set.",
        IwErrorCode::Again => "Again",
        IwErrorCode::NotExists => "Resource is not exists.",
        IwErrorCode::Readonly => "Resource is readonly.",
        IwErrorCode::AlreadyOpened => "Resource is already opened.",
        IwErrorCode::Threading => "Threading error.",
        IwErrorCode::ThreadingErrno => "Threading error with errno status set.",
        IwErrorCode::Assertion => "Generic assertion error.",
        IwErrorCode::InvalidHandle => "Invalid HANDLE value.",
        IwErrorCode::OutOfBounds => "Invalid bounds specified.",
        IwErrorCode::NotImplemented => "Method is not implemented.",
        IwErrorCode::Alloc => "Memory allocation failed.",
        IwErrorCode::InvalidState => "Illegal state error.",
        IwErrorCode::NotAligned => "Argument is not aligned properly.",
        IwErrorCode::False => "Request rejection/false response.",
        IwErrorCode::InvalidArgs => "Invalid function arguments.",
        IwErrorCode::Overflow => "Overflow.",
        IwErrorCode::InvalidValue => "Invalid value.",
        IwErrorCode::UnexpectedResponse => "Unexpected response (IW_ERROR_UNEXPECTED_RESPONSE)",
        IwErrorCode::NotAllowed => "Action is not allowed. (IW_ERROR_NOT_ALLOWED)",
        IwErrorCode::Unsupported => "Unsupported opration. (IW_ERROR_UNSUPPORTED)",
        IwErrorCode::Unknown => "Unknown error code",
    }
}

/// Distinct error codes get distinct messages, so a message names its code.
pub proof fn lemma_messages_distinct(a: IwErrorCode, b: IwErrorCode)
    requires
        a != b,
    ensures
        error_message(a) != error_message(b),
{
        reveal_strlit("No error.");
        reveal_strlit("Unspecified error.");
        reveal_strlit("Error with expected errno status set.");
        reveal_strlit("IO error with expected errno status set.");
        reveal_strlit("Again");
        reveal_strlit("Resource is not exists.");
        reveal_strlit("Resource is readonly.");
        reveal_strlit("Resource is already opened.");
        reveal_strlit("Threading error.");
        reveal_strlit("Threading error with errno status set.");
        reveal_strlit("Generic assertion error.");
        reveal_strlit("Invalid HANDLE value.");
        reveal_strlit("Invalid bounds specified.");
        reveal_strlit("Method is not implemented.");
        reveal_strlit("Memory allocation failed.");
        reveal_strlit("Illegal state error.");
        reveal_strlit("Argument is not aligned properly.");
        reveal_strlit("Request rejection/false response.");
        reveal_strlit("Invalid function arguments.");
        reveal_strlit("Overflow.");
        reveal_strlit("Invalid value.");
        reveal_strlit("Unexpected response (IW_ERROR_UNEXPECTED_RESPONSE)");
        reveal_strlit("Action is not allowed. (IW_ERROR_NOT_ALLOWED)");
        reveal_strlit("Unsupported opration. (IW_ERROR_UNSUPPORTED)");
        reveal_strlit("Unknown error code");
    if error_message(a) == error_message(b) {
        assert(error_message(a).len() == error_message(b).len());
        assert(error_message(a)[0] == error_message(b)[0]);
        assert(error_message(a)[2] == error_message(b)[2]);
    }
}

} // verus!
