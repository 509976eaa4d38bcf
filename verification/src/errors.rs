use vstd::prelude::*;

verus! {

/// Failures that the server reports while handling a connection or a request.
#[derive(Clone, Copy, Debug, PartialEq, Eq, Structural)]
pub enum Errors {
    Unsupported,
    RequestTooLong,
    InvalidRequest,
    SessionAlreadyExist,
}

impl Errors {
    /// The numeric code of the error on the wire; codes start at 1.
    pub open spec fn spec_code(self) -> u8 {
        match self {
            Errors::Unsupported => 1,
            Errors::RequestTooLong => 2,
            Errors::InvalidRequest => 3,
            Errors::SessionAlreadyExist => 4,
        }
    }

    pub fn code(&self) -> (c: u8)
        ensures
            c == self.spec_code(),
    {
        match self {
            Errors::Unsupported => 1,
            Errors::RequestTooLong => 2,
            Errors::InvalidRequest => 3,
            Errors::SessionAlreadyExist => 4,
        }
    }

    /// The human-readable text of the error.
    pub open spec fn spec_message(self) -> Seq<char> {
        match self {
            Errors::Unsupported => "Unsupported"@,
            Errors::RequestTooLong => "Data too long"@,
            Errors::InvalidRequest => "Invalid request"@,
            Errors::SessionAlreadyExist => "Session with this id already exist"@,
        }
    }

    pub fn message(&self) -> (m: String)
        ensures
            m@ == self.spec_message(),
    {
        match self {
            Errors::Unsupported => "Unsupported".to_owned(),
            Errors::RequestTooLong => "Data too long".to_owned(),
            Errors::InvalidRequest => "Invalid request".to_owned(),
            Errors::SessionAlreadyExist => "Session with this id already exist".to_owned(),
        }
    }
}

} // verus!
