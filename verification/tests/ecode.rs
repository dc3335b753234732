use ejdb2::ecode::{err_to_str, IwErrorCode};

const ALL: [IwErrorCode; 25] = [
    IwErrorCode::NoError,
    IwErrorCode::Fail,
    IwErrorCode::Errno,
    IwErrorCode::IoErrno,
    IwErrorCode::Again,
    IwErrorCode::NotExists,
    IwErrorCode::Readonly,
    IwErrorCode::AlreadyOpened,
    IwErrorCode::Threading,
    IwErrorCode::ThreadingErrno,
    IwErrorCode::Assertion,
    IwErrorCode::InvalidHandle,
    IwErrorCode::OutOfBounds,
    IwErrorCode::NotImplemented,
    IwErrorCode::Alloc,
    IwErrorCode::InvalidState,
    IwErrorCode::NotAligned,
    IwErrorCode::False,
    IwErrorCode::InvalidArgs,
    IwErrorCode::Overflow,
    IwErrorCode::InvalidValue,
    IwErrorCode::UnexpectedResponse,
    IwErrorCode::NotAllowed,
    IwErrorCode::Unsupported,
    IwErrorCode::Unknown,
];

#[test]
fn messages_of_known_codes() {
    assert_eq!(err_to_str(IwErrorCode::NoError), "No error.");
    assert_eq!(err_to_str(IwErrorCode::Fail), "Unspecified error.");
    assert_eq!(err_to_str(IwErrorCode::NotExists), "Resource is not exists.");
    assert_eq!(err_to_str(IwErrorCode::InvalidArgs), "Invalid function arguments.");
    assert_eq!(
        err_to_str(IwErrorCode::Unsupported),
        "Unsupported opration. (IW_ERROR_UNSUPPORTED)"
    );
}

#[test]
fn unknown_code_message() {
    assert_eq!(err_to_str(IwErrorCode::Unknown), "Unknown error code");
}

#[test]
fn every_code_has_its_own_message() {
    for (i, a) in ALL.iter().enumerate() {
        for (j, b) in ALL.iter().enumerate() {
            if i != j {
                assert_ne!(err_to_str(*a), err_to_str(*b));
            }
        }
    }
}
