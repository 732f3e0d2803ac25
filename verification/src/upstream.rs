//! The calls that the gateway asks its host to make, and what comes back.
//!
//! The library performs no I/O. It describes each upstream call as an
//! [`UpstreamRequest`], the host performs it, and reports an [`UpstreamOutcome`].

use vstd::prelude::*;
use crate::config::Provider;
use crate::text::{join, trim_trailing, without_trailing};

verus! {

#[derive(Clone, Copy, Debug, PartialEq, Eq, Structural)]
pub enum Method {
    Get,
    Post,
}

/// One HTTP call to a provider.
#[derive(Clone, Debug, PartialEq, Eq)]
pub struct UpstreamRequest {
    pub method: Method,
    pub url: String,
    /// Value of the `Authorization` header; without it the header is not sent.
    pub authorization: Option<String>,
    /// JSON body, sent as `application/json`.
    pub body: Option<Vec<u8>>,
}

/// What a request is, in mathematical terms.
pub struct RequestView {
    pub method: Method,
    pub url: Seq<char>,
    pub authorization: Option<Seq<char>>,
    pub body: Option<Seq<u8>>,
}

impl View for UpstreamRequest {
    type V = RequestView;

    open spec fn view(&self) -> RequestView {
        RequestView {
            method: self.method,
            url: self.url@,
            authorization: match self.authorization {
                Some(a) => Some(a@),
                None => None,
            },
            body: match self.body {
                Some(b) => Some(b@),
                None => None,
            },
        }
    }
}

/// How an upstream call ended.
#[derive(Clone, Debug, PartialEq, Eq)]
pub enum UpstreamOutcome {
    /// No call was made.
    NotAsked,
    /// The call failed before a complete response arrived.
    Unreachable { reason: String },
    /// A response arrived, with this status code and body.
    Answered { status: u16, body: Vec<u8> },
}

/// Whether a status code is in the 2xx class.
pub open spec fn is_success(status: u16) -> bool {
    200 <= status < 300
}

/// Whether a status code is in the 2xx class.
pub fn status_is_success(status: u16) -> (ok: bool)
    ensures
        ok == is_success(status),
{
    200 <= status && status < 300
}

impl Provider {
    /// The address of an endpoint of this provider: the base address without
    /// trailing slashes, followed by `path`.
    pub open spec fn endpoint_url(&self, path: Seq<char>) -> Seq<char> {
        without_trailing(self.base_url@, '/') + path
    }

    /// The `Authorization` header for this provider: none for an empty key.
    pub open spec fn bearer(&self) -> Option<Seq<char>> {
        if self.api_key@.len() == 0 {
            None
        } else {
            Some("Bearer "@ + self.api_key@)
        }
    }

    /// The call to this provider's listing endpoint.
    pub open spec fn listing_get(&self) -> RequestView {
        RequestView {
            method: Method::Get,
            url: self.endpoint_url("/models"@),
            authorization: self.bearer(),
            body: None,
        }
    }

    /// The call that lists this provider's models; none where the models are
    /// configured.
    pub open spec fn listing_call(&self) -> Option<RequestView> {
        if self.models is Some {
            None
        } else {
            Some(self.listing_get())
        }
    }

    /// The call that forwards a completion request with the given body.
    pub open spec fn completion_call(&self, body: Seq<u8>) -> RequestView {
        RequestView {
            method: Method::Post,
            url: self.endpoint_url("/chat/completions"@),
            authorization: self.bearer(),
            body: Some(body),
        }
    }

    /// Builds the address of an endpoint of this provider.
    pub fn endpoint(&self, path: &str) -> (url: String)
        ensures
            url@ == self.endpoint_url(path@),
    {
        join(trim_trailing(self.base_url.as_str(), '/'), path)
    }

    /// Builds the `Authorization` header value, if the provider has a key.
    pub fn authorization(&self) -> (header: Option<String>)
        ensures
            match header {
                Some(h) => self.bearer() == Some(h@),
                None => self.bearer() is None,
            },
    {
        if self.api_key.as_str().is_empty() {
            None
        } else {
            Some(join("Bearer ", self.api_key.as_str()))
        }
    }

    /// The request for this provider's model list. A provider with configured
    /// models is never asked: for it, and only for it, the result is `None`.
    pub fn models_request(&self) -> (request: Option<UpstreamRequest>)
        ensures
            request is None <==> self.models is Some,
            match request {
                Some(r) => self.listing_call() == Some(r@),
                None => self.listing_call() is None,
            },
    {
        match &self.models {
            Some(_) => None,
            None => Some(self.listing_request()),
        }
    }

    /// The call to this provider's listing endpoint, whether or not its
    /// models are configured.
    pub fn listing_request(&self) -> (request: UpstreamRequest)
        ensures
            request@ == self.listing_get(),
    {
        UpstreamRequest {
            method: Method::Get,
            url: self.endpoint("/models"),
            authorization: self.authorization(),
            body: None,
        }
    }

    /// The request that forwards a completion request body to this provider.
    pub fn chat_request(&self, body: Vec<u8>) -> (request: UpstreamRequest)
        ensures
            request@ == self.completion_call(body@),
    {
        UpstreamRequest {
            method: Method::Post,
            url: self.endpoint("/chat/completions"),
            authorization: self.authorization(),
            body: Some(body),
        }
    }
}

} // verus!
