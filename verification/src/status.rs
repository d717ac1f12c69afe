//! gRPC status values.
//!
//! [`RpcStatus`] is the error of every fallible operation of the crate: a code and
//! a message. The statuses that cross the network are `tonic`'s; they are read
//! with [`code_of`] and made with [`RpcStatus::to_grpc`].

use vstd::prelude::*;

verus! {

/// A gRPC status code.
#[derive(Debug, Clone, Copy, PartialEq, Eq, Structural)]
pub enum Code {
    Success,
    Cancelled,
    Unknown,
    InvalidArgument,
    DeadlineExceeded,
    NotFound,
    AlreadyExists,
    PermissionDenied,
    ResourceExhausted,
    FailedPrecondition,
    Aborted,
    OutOfRange,
    Unimplemented,
    Internal,
    Unavailable,
    DataLoss,
    Unauthenticated,
}

impl Code {
    /// The number that stands for this code on the wire.
    pub open spec fn wire_number(self) -> i32 {
        match self {
            Code::Success => 0,
            Code::Cancelled => 1,
            Code::Unknown => 2,
            Code::InvalidArgument => 3,
            Code::DeadlineExceeded => 4,
            Code::NotFound => 5,
            Code::AlreadyExists => 6,
            Code::PermissionDenied => 7,
            Code::ResourceExhausted => 8,
            Code::FailedPrecondition => 9,
            Code::Aborted => 10,
            Code::OutOfRange => 11,
            Code::Unimplemented => 12,
            Code::Internal => 13,
            Code::Unavailable => 14,
            Code::DataLoss => 15,
            Code::Unauthenticated => 16,
        }
    }

    /// The number that stands for this code on the wire.
    pub fn number(self) -> (r: i32)
        ensures
            r == self.wire_number(),
            0 <= r <= 16,
    {
        self as i32
    }

    /// The code with the given number; a number that stands for no code is
    /// [`Code::Unknown`].
    pub fn from_number(number: i32) -> (r: Code)
        ensures
            r == code_with_number(number),
    {
        match number {
            0 => Code::Success,
            1 => Code::Cancelled,
            2 => Code::Unknown,
            3 => Code::InvalidArgument,
            4 => Code::DeadlineExceeded,
            5 => Code::NotFound,
            6 => Code::AlreadyExists,
            7 => Code::PermissionDenied,
            8 => Code::ResourceExhausted,
            9 => Code::FailedPrecondition,
            10 => Code::Aborted,
            11 => Code::OutOfRange,
            12 => Code::Unimplemented,
            13 => Code::Internal,
            14 => Code::Unavailable,
            15 => Code::DataLoss,
            16 => Code::Unauthenticated,
            _ => Code::Unknown,
        }
    }
}

/// The code with the given number; a number that stands for no code is
/// [`Code::Unknown`].
pub open spec fn code_with_number(number: i32) -> Code {
    if number == 0 {
        Code::Success
    } else if number == 1 {
        Code::Cancelled
    } else if number == 3 {
        Code::InvalidArgument
    } else if number == 4 {
        Code::DeadlineExceeded
    } else if number == 5 {
        Code::NotFound
    } else if number == 6 {
        Code::AlreadyExists
    } else if number == 7 {
        Code::PermissionDenied
    } else if number == 8 {
        Code::ResourceExhausted
    } else if number == 9 {
        Code::FailedPrecondition
    } else if number == 10 {
        Code::Aborted
    } else if number == 11 {
        Code::OutOfRange
    } else if number == 12 {
        Code::Unimplemented
    } else if number == 13 {
        Code::Internal
    } else if number == 14 {
        Code::Unavailable
    } else if number == 15 {
        Code::DataLoss
    } else if number == 16 {
        Code::Unauthenticated
    } else {
        Code::Unknown
    }
}

/// The number of a code tells which code it is.
pub proof fn code_numbers_read_back(code: Code)
    ensures
        code_with_number(code.wire_number()) == code,
{
}

/// What a status says.
pub struct StatusView {
    pub code: Code,
    pub message: Seq<char>,
}

/// A code and a message for the caller.
#[derive(Debug, PartialEq, Eq)]
pub struct RpcStatus {
    pub code: Code,
    pub message: String,
}

impl View for RpcStatus {
    type V = StatusView;

    open spec fn view(&self) -> StatusView {
        StatusView { code: self.code, message: self.message@ }
    }
}

/// The status with the given code and message.
pub open spec fn status(code: Code, message: Seq<char>) -> StatusView {
    StatusView { code, message }
}

impl Clone for RpcStatus {
    fn clone(&self) -> (r: Self)
        ensures
            r == *self,
    {
        RpcStatus { code: self.code, message: self.message.clone() }
    }
}

impl RpcStatus {
    /// A status with the given code and message.
    pub fn new(code: Code, message: String) -> (r: RpcStatus)
        ensures
            r@ == status(code, message@),
    {
        RpcStatus { code, message }
    }

    /// The caller sent something malformed.
    pub fn invalid_argument(message: &str) -> (r: RpcStatus)
        ensures
            r@ == status(Code::InvalidArgument, message@),
    {
        RpcStatus { code: Code::InvalidArgument, message: message.to_owned() }
    }

    /// The caller sent too much.
    pub fn resource_exhausted(message: String) -> (r: RpcStatus)
        ensures
            r@ == status(Code::ResourceExhausted, message@),
    {
        RpcStatus { code: Code::ResourceExhausted, message }
    }

    /// The caller's view of the worker is out of date.
    pub fn failed_precondition(message: String) -> (r: RpcStatus)
        ensures
            r@ == status(Code::FailedPrecondition, message@),
    {
        RpcStatus { code: Code::FailedPrecondition, message }
    }

    /// The store could not be used.
    pub fn unavailable(message: String) -> (r: RpcStatus)
        ensures
            r@ == status(Code::Unavailable, message@),
    {
        RpcStatus { code: Code::Unavailable, message }
    }

    /// The store answered something that makes no sense.
    pub fn internal(message: &str) -> (r: RpcStatus)
        ensures
            r@ == status(Code::Internal, message@),
    {
        RpcStatus { code: Code::Internal, message: message.to_owned() }
    }

    /// The code of this status.
    pub fn code(&self) -> (r: Code)
        ensures
            r == self@.code,
    {
        self.code
    }

    /// The message of this status.
    pub fn message(&self) -> (r: &str)
        ensures
            r@ == self@.message,
    {
        self.message.as_str()
    }

    /// The status to send to a gRPC peer.
    pub fn to_grpc(&self) -> (r: tonic::Status)
        ensures
            grpc_code(r) == self@.code.wire_number(),
            grpc_message(r) == self@.message,
    {
        grpc_status(self.code.number(), self.message.clone())
    }
}

/// `tonic`'s status, carried without being looked into.
#[verifier::external_type_specification]
#[verifier::external_body]
pub struct ExGrpcStatus(tonic::Status);

/// The number of the code that `tonic::Status::code` returns.
pub uninterp spec fn grpc_code(status: tonic::Status) -> i32;

/// The text that `tonic::Status::message` returns.
pub uninterp spec fn grpc_message(status: tonic::Status) -> Seq<char>;

/// Calls `tonic::Status::code`. The result is the number of that code, which
/// is one of the seventeen that gRPC defines.
#[verifier::external_body]
fn grpc_code_number(status: &tonic::Status) -> (r: i32)
    ensures
        r == grpc_code(*status),
        0 <= r <= 16,
{
    status.code() as i32
}

/// Calls `tonic::Status::new`. The status that it returns has the code and the
/// message that it was made with.
#[verifier::external_body]
fn grpc_status(code: i32, message: String) -> (r: tonic::Status)
    requires
        0 <= code <= 16,
    ensures
        grpc_code(r) == code,
        grpc_message(r) == message@,
{
    tonic::Status::new(tonic::Code::from_i32(code), message)
}

/// The code that a gRPC peer answered with.
pub fn code_of(status: &tonic::Status) -> (r: Code)
    ensures
        r == code_with_number(grpc_code(*status)),
{
    Code::from_number(grpc_code_number(status))
}

} // verus!
