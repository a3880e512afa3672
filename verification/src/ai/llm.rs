//! Language models.
use vstd::prelude::*;
use vstd::string::StringExecFns;

use crate::error::{joined, CoreError};
use crate::text;
use crate::text::{excerpt_str, from_chars, to_chars};
use vstd::slice::slice_subrange;

verus! {

/// What a language model is asked.
#[derive(Debug)]
pub struct CompletionRequest {
    pub system: &'static str,
    pub user: String,
    /// The most tokens that the answer can have.
    pub max_tokens: u32,
}

/// A model that an Ollama server runs.
#[derive(Debug)]
pub struct OllamaLlm {
    base_url: String,
    model: String,
}

/// `s` without the slashes at its end.
pub open spec fn without_slashes(s: Seq<char>) -> Seq<char>
    decreases s.len(),
{
    if s.len() > 0 && s.last() == '/' {
        without_slashes(s.drop_last())
    } else {
        s
    }
}

/// The message for an answer that is no success.
pub open spec fn refused_text(status: Seq<char>, body: Seq<char>) -> Seq<char> {
    "ollama returned "@ + status + " — "@ + text::excerpt(body, 200)
}

impl OllamaLlm {
    /// The address of the server, without slashes at its end.
    pub closed spec fn base(&self) -> Seq<char> {
        self.base_url@
    }

    /// The name of the model.
    pub closed spec fn model_name(&self) -> Seq<char> {
        self.model@
    }

    /// The model of this name on the server at this address.
    pub fn new(base_url: String, model: String) -> (r: OllamaLlm)
        ensures
            r.base() == without_slashes(base_url@),
            r.model_name() == model@,
    {
        let v = to_chars(base_url.as_str());
        let mut n: usize = v.len();
        proof {
            assert(v@.take(n as int) =~= v@);
        }
        while n > 0 && v[n - 1] == '/'
            invariant
                n <= v@.len(),
                without_slashes(v@.take(n as int)) == without_slashes(v@),
            decreases n,
        {
            proof {
                assert(v@.take(n as int).drop_last() =~= v@.take(n - 1));
            }
            n -= 1;
        }
        OllamaLlm { base_url: from_chars(slice_subrange(v.as_slice(), 0, n)), model }
    }

    /// The name of the model.
    pub fn model(&self) -> (r: &str)
        ensures
            r@ == self.model_name(),
    {
        self.model.as_str()
    }

    /// Where a chat is asked for.
    pub fn chat_url(&self) -> (r: String)
        ensures
            r@ == self.base() + "/api/chat"@,
    {
        joined(self.base_url.as_str(), "/api/chat")
    }

    /// Where the server tells that it is there.
    pub fn health_url(&self) -> (r: String)
        ensures
            r@ == self.base() + "/api/tags"@,
    {
        joined(self.base_url.as_str(), "/api/tags")
    }

    /// Whether the server is there: it answered, and with success. `answered`
    /// is none where the request failed.
    pub fn health_check(answered: Option<bool>) -> (r: Result<bool, CoreError>)
        ensures
            r is Ok,
            r->Ok_0 == (answered == Some(true)),
    {
        match answered {
            Some(success) => Ok(success),
            None => Ok(false),
        }
    }

    /// The error for an answer that is no success, with the start of its body.
    pub fn refused(status: &str, body: &str) -> (r: CoreError)
        ensures
            r matches CoreError::Ai(m) && m@ == refused_text(status@, body@),
    {
        let mut m = "ollama returned ".to_owned();
        m.append(status);
        m.append(" — ");
        m.append(excerpt_str(body, 200).as_str());
        CoreError::Ai(m)
    }
}

} // verus!
