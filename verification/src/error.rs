//! The errors of the library.
use vstd::prelude::*;
use vstd::string::StringExecFns;

verus! {

/// What can go wrong, each with a text that says more.
#[derive(Debug)]
pub enum CoreError {
    Database(String),
    Serialization(String),
    NotFound { entity: String, id: String },
    InvalidInput(String),
    Channel(String),
    Ai(String),
    Cloud(String),
    Connection(String),
    Auth(String),
    Parse(String),
    Knowledge(String),
    VaultParse(String),
    Embedding(String),
}

/// The message of an error.
pub open spec fn error_text(e: CoreError) -> Seq<char> {
    match e {
        CoreError::Database(m) => "database error: "@ + m@,
        CoreError::Serialization(m) => "serialization error: "@ + m@,
        CoreError::NotFound { entity, id } => "not found: "@ + entity@ + " with id "@ + id@,
        CoreError::InvalidInput(m) => "invalid input: "@ + m@,
        CoreError::Channel(m) => "channel error: "@ + m@,
        CoreError::Ai(m) => "ai error: "@ + m@,
        CoreError::Cloud(m) => "cloud error: "@ + m@,
        CoreError::Connection(m) => "connection error: "@ + m@,
        CoreError::Auth(m) => "auth error: "@ + m@,
        CoreError::Parse(m) => "parse error: "@ + m@,
        CoreError::Knowledge(m) => "knowledge error: "@ + m@,
        CoreError::VaultParse(m) => "vault parse error: "@ + m@,
        CoreError::Embedding(m) => "embedding error: "@ + m@,
    }
}

/// `head` followed by `tail`.
pub fn joined(head: &str, tail: &str) -> (r: String)
    ensures
        r@ == head@ + tail@,
{
    let mut r = head.to_owned();
    r.append(tail);
    r
}

impl CoreError {
    /// The message of the error.
    pub fn message(&self) -> (r: String)
        ensures
            r@ == error_text(*self),
    {
        match self {
            CoreError::Database(m) => joined("database error: ", m.as_str()),
            CoreError::Serialization(m) => joined("serialization error: ", m.as_str()),
            CoreError::NotFound { entity, id } => {
                let mut r = joined("not found: ", entity.as_str());
                r.append(" with id ");
                r.append(id.as_str());
                r
            },
            CoreError::InvalidInput(m) => joined("invalid input: ", m.as_str()),
            CoreError::Channel(m) => joined("channel error: ", m.as_str()),
            CoreError::Ai(m) => joined("ai error: ", m.as_str()),
            CoreError::Cloud(m) => joined("cloud error: ", m.as_str()),
            CoreError::Connection(m) => joined("connection error: ", m.as_str()),
            CoreError::Auth(m) => joined("auth error: ", m.as_str()),
            CoreError::Parse(m) => joined("parse error: ", m.as_str()),
            CoreError::Knowledge(m) => joined("knowledge error: ", m.as_str()),
            CoreError::VaultParse(m) => joined("vault parse error: ", m.as_str()),
            CoreError::Embedding(m) => joined("embedding error: ", m.as_str()),
        }
    }
}

} // verus!
