//! The adapter for chat backends that speak the common completions protocol:
//! a thin shim that turns a bare `host[:port]` model address into a base URL
//! with no authentication. The network exchange itself is performed by the
//! embedding application against this base URL.

use vstd::prelude::*;
use vstd::string::*;

use crate::errors::AgentError;

verus! {

/// The base URL the shim derives from a model address: `http://` before it,
/// and a trailing slash added when the address ends without one.
pub open spec fn spec_base_url(name: Seq<char>) -> Seq<char> {
    if name.len() > 0 && name.last() == '/' {
        "http://"@ + name
    } else {
        "http://"@ + name + "/"@
    }
}

/// A client of a completions-protocol backend, addressed by its base URL.
#[derive(Debug)]
pub struct OpenAiCompatibleClient {
    base_url: String,
}

impl OpenAiCompatibleClient {
    /// The base URL every request of this client goes to.
    pub closed spec fn spec_base(&self) -> Seq<char> {
        self.base_url@
    }

    /// Builds the client. The generator address and port of the run are not
    /// used: the model name itself carries `host[:port]`, which is rewritten
    /// into a plain `http` base URL with a trailing slash.
    pub fn new(url: &str, port: u16, model_name: &str, context_window: u32) -> (r: Result<
        OpenAiCompatibleClient,
        AgentError,
    >)
        ensures
            r matches Ok(c) && c.spec_base() == spec_base_url(model_name@),
    {
        let len = model_name.unicode_len();
        let ends_with_slash = len > 0 && model_name.get_char(len - 1) == '/';
        let base = String::from_str("http://").concat(model_name);
        let base_url = if ends_with_slash {
            base
        } else {
            base.concat("/")
        };
        Ok(OpenAiCompatibleClient { base_url })
    }

    /// The base URL every request of this client goes to.
    pub fn base_url(&self) -> (r: &String)
        ensures
            r@ == self.spec_base(),
    {
        &self.base_url
    }
}

} // verus!
