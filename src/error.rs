use vstd::prelude::*;

verus! {

/// Failures that a request to the gateway can end with.
#[derive(Debug, Clone, PartialEq, Eq)]
pub enum NodeError {
    /// The broker could not be reached or refused a publish.
    RedisError(String),
    /// The request carried no credential, or a wrong one.
    Unauthorized,
    /// The body was not a well-formed, in-range telemetry event.
    InvalidPayload(String),
    /// Start-up or binding failed.
    Internal(String),
}

/// HTTP status code that a failure is reported with.
pub open spec fn status_of(e: NodeError) -> u16 {
    match e {
        NodeError::RedisError(_) => 500,
        NodeError::Unauthorized => 401,
        NodeError::InvalidPayload(_) => 400,
        NodeError::Internal(_) => 500,
    }
}

/// Machine-readable code carried in the `error` field of the response body.
pub open spec fn code_of(e: NodeError) -> Seq<char> {
    match e {
        NodeError::RedisError(_) => "redis_error"@,
        NodeError::Unauthorized => "unauthorized"@,
        NodeError::InvalidPayload(_) => "invalid_payload"@,
        NodeError::Internal(_) => "internal_error"@,
    }
}

/// Human-readable text carried in the `message` field of the response body.
pub open spec fn message_of(e: NodeError) -> Seq<char> {
    match e {
        NodeError::RedisError(m) => m@,
        NodeError::Unauthorized => "Unauthorized"@,
        NodeError::InvalidPayload(m) => m@,
        NodeError::Internal(m) => m@,
    }
}

impl NodeError {
    /// A copy of the error.
    pub fn duplicate(&self) -> (r: NodeError)
        ensures
            r == *self,
    {
        match self {
            NodeError::RedisError(m) => NodeError::RedisError(m.clone()),
            NodeError::Unauthorized => NodeError::Unauthorized,
            NodeError::InvalidPayload(m) => NodeError::InvalidPayload(m.clone()),
            NodeError::Internal(m) => NodeError::Internal(m.clone()),
        }
    }

    /// HTTP status of the error response.
    pub fn status(&self) -> (r: u16)
        ensures
            r == status_of(*self),
    {
        match self {
            NodeError::RedisError(_) => 500,
            NodeError::Unauthorized => 401,
            NodeError::InvalidPayload(_) => 400,
            NodeError::Internal(_) => 500,
        }
    }

    /// Value of the `error` field of the response body.
    pub fn code(&self) -> (r: &'static str)
        ensures
            r@ == code_of(*self),
    {
        match self {
            NodeError::RedisError(_) => "redis_error",
            NodeError::Unauthorized => "unauthorized",
            NodeError::InvalidPayload(_) => "invalid_payload",
            NodeError::Internal(_) => "internal_error",
        }
    }

    /// Value of the `message` field of the response body.
    pub fn message(&self) -> (r: String)
        ensures
            r@ == message_of(*self),
    {
        match self {
            NodeError::RedisError(m) => m.clone(),
            NodeError::Unauthorized => String::from_str("Unauthorized"),
            NodeError::InvalidPayload(m) => m.clone(),
            NodeError::Internal(m) => m.clone(),
        }
    }
}

} // verus!
