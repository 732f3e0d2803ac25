//! The access guard in front of the routes.
//!
//! Listing models is open to everyone. Every other request passes only with
//! the configured secret, where one is configured.

use vstd::prelude::*;
use crate::config::Config;
use crate::reply::{error_reply, error_reply_view, HttpReply, ReplyView};
use crate::text::{after_prefix, same_text, strip_prefix};

verus! {

/// The `Authorization` header of a request, as the host found it.
#[derive(Clone, Debug, PartialEq, Eq)]
pub enum Credential {
    /// The request has no such header.
    Missing,
    /// The header's value is not text.
    Malformed,
    /// The header's value.
    Text(String),
}

/// What the guard decides about a request.
#[derive(Debug, PartialEq, Eq)]
pub enum Verdict {
    /// The request goes on to its route, unchanged.
    Proceed,
    /// The request is answered with this reply and reaches no route.
    Reject(HttpReply),
}

/// The key that a header presents: what follows `Bearer ` in it.
pub open spec fn presented_key(authorization: Credential) -> Option<Seq<char>> {
    match authorization {
        Credential::Text(value) => after_prefix(value@, "Bearer "@),
        _ => None,
    }
}

/// Whether the guard lets a request pass. `config` is `None` where the host
/// has no configuration to show; the guard then lets everything pass. That
/// is unsafe and known to be: a host that loses its configuration opens
/// every route.
pub open spec fn admits(config: Option<&Config>, path: Seq<char>, authorization: Credential) -> bool {
    ||| path == "/v1/models"@
    ||| match config {
        None => true,
        Some(c) => match c.server_api_key {
            None => true,
            Some(secret) => presented_key(authorization) == Some(secret@),
        },
    }
}

/// The reply to a request that the guard turns away.
pub open spec fn unauthorized() -> ReplyView {
    error_reply_view(401, "Invalid API key"@, "authentication_error"@)
}

/// Makes the guard for a service.
pub struct ApiKeyAuth;

/// The guard in front of `service`.
pub struct ApiKeyAuthMiddleware<S> {
    pub service: S,
}

impl ApiKeyAuth {
    /// Puts the guard in front of `service`.
    pub fn new_transform<S>(&self, service: S) -> (guard: ApiKeyAuthMiddleware<S>)
        ensures
            guard.service == service,
    {
        ApiKeyAuthMiddleware { service }
    }
}

impl<S> ApiKeyAuthMiddleware<S> {
    /// Decides whether a request for `path` with the given `Authorization`
    /// header may pass. On `Proceed` the host hands the request to
    /// `self.service`; on `Reject` it sends the reply and the service is not
    /// called.
    pub fn call(
        &self,
        config: Option<&Config>,
        path: &str,
        authorization: &Credential,
    ) -> (verdict: Verdict)
        ensures
            verdict is Proceed <==> admits(config, path@, *authorization),
            verdict matches Verdict::Reject(reply) ==> reply@ == unauthorized(),
    {
        if same_text(path, "/v1/models") {
            return Verdict::Proceed;
        }
        let config = match config {
            Some(c) => c,
            None => {
                return Verdict::Proceed;
            },
        };
        if config.server_api_key.is_none() {
            return Verdict::Proceed;
        }
        let valid = match authorization {
            Credential::Text(value) => match strip_prefix(value.as_str(), "Bearer ") {
                Some(key) => config.validate_api_key(key),
                None => false,
            },
            _ => false,
        };
        if valid {
            Verdict::Proceed
        } else {
            Verdict::Reject(error_reply(401, "Invalid API key", "authentication_error"))
        }
    }
}

/// The listing route is open: whatever the configuration and the header, a
/// request for it passes.
pub proof fn listing_is_open(config: Option<&Config>, authorization: Credential)
    ensures
        admits(config, "/v1/models"@, authorization),
{
}

/// Without a configured secret every request passes, whatever header it
/// carries and also without one.
pub proof fn no_secret_admits_all(config: &Config, path: Seq<char>, authorization: Credential)
    requires
        config.server_api_key is None,
    ensures
        admits(Some(config), path, authorization),
{
}

/// With a configured secret a request for a protected route passes exactly if
/// its header reads `Bearer ` followed by the secret, character for character.
pub proof fn secret_is_demanded(config: &Config, path: Seq<char>, authorization: Credential)
    requires
        config.server_api_key is Some,
        path != "/v1/models"@,
    ensures
        admits(Some(config), path, authorization) <==> (authorization matches Credential::Text(value)
            && value@ == "Bearer "@ + config.server_api_key->0@),
{
    let secret = config.server_api_key->0@;
    if let Credential::Text(value) = authorization {
        let prefix = "Bearer "@;
        if value@ == prefix + secret {
            assert(prefix.is_prefix_of(value@));
            assert(value@.skip(prefix.len() as int) =~= secret);
        }
        if after_prefix(value@, prefix) == Some(secret) {
            assert(value@ =~= prefix + value@.skip(prefix.len() as int));
        }
    }
}

} // verus!
