//! What holds of the messages of errors.
use vstd::prelude::*;

use crate::error;
use crate::error::CoreError;

verus! {

/// The message of an error says what kind of error it is, and then what went wrong.
pub proof fn an_error_says_what_it_is(m: String, entity: String, id: String)
    ensures
        error::error_text(CoreError::Database(m)) == "database error: "@ + m@,
        error::error_text(CoreError::Serialization(m)) == "serialization error: "@ + m@,
        error::error_text(CoreError::InvalidInput(m)) == "invalid input: "@ + m@,
        error::error_text(CoreError::Channel(m)) == "channel error: "@ + m@,
        error::error_text(CoreError::Ai(m)) == "ai error: "@ + m@,
        error::error_text(CoreError::Cloud(m)) == "cloud error: "@ + m@,
        error::error_text(CoreError::Connection(m)) == "connection error: "@ + m@,
        error::error_text(CoreError::Auth(m)) == "auth error: "@ + m@,
        error::error_text(CoreError::Parse(m)) == "parse error: "@ + m@,
        error::error_text(CoreError::Knowledge(m)) == "knowledge error: "@ + m@,
        error::error_text(CoreError::VaultParse(m)) == "vault parse error: "@ + m@,
        error::error_text(CoreError::Embedding(m)) == "embedding error: "@ + m@,
        error::error_text(CoreError::NotFound { entity, id }) == "not found: "@ + entity@
            + " with id "@ + id@,
{
}

} // verus!
