//! Provider and gateway configuration.

use vstd::prelude::*;
use crate::text::texts;

verus! {

/// One configured backend. Its position in [`Config::providers`] is its priority.
#[derive(Debug, PartialEq, Eq)]
pub struct Provider {
    pub base_url: String,
    /// Bearer credential; empty means the backend is called without one.
    pub api_key: String,
    /// When present, these identifiers are the backend's models and it is never asked.
    pub models: Option<Vec<String>>,
}

/// What a provider is, in mathematical terms.
pub struct ProviderView {
    pub base_url: Seq<char>,
    pub api_key: Seq<char>,
    pub models: Option<Seq<Seq<char>>>,
}

impl View for Provider {
    type V = ProviderView;

    open spec fn view(&self) -> ProviderView {
        ProviderView {
            base_url: self.base_url@,
            api_key: self.api_key@,
            models: match self.models {
                Some(configured) => Some(texts(configured@)),
                None => None,
            },
        }
    }
}

impl Clone for Provider {
    fn clone(&self) -> (copy: Self)
        ensures
            copy@ == self@,
    {
        Provider {
            base_url: self.base_url.clone(),
            api_key: self.api_key.clone(),
            models: match &self.models {
                Some(configured) => Some(crate::listing::copy_texts(configured)),
                None => None,
            },
        }
    }
}

/// The gateway's configuration, read once and never changed afterwards.
#[derive(Clone, Debug, PartialEq, Eq)]
pub struct Config {
    /// Shared secret that protected routes demand; without one they are open.
    pub server_api_key: Option<String>,
    pub providers: Vec<Provider>,
}

impl Config {
    /// Whether `key` is acceptable as the gateway-wide secret.
    pub open spec fn accepts_key(&self, key: Seq<char>) -> bool {
        match self.server_api_key {
            Some(configured) => key == configured@,
            None => true,
        }
    }

    /// Compares a presented key with the configured secret, exactly; with no
    /// secret configured every key is accepted.
    pub fn validate_api_key(&self, provided_key: &str) -> (valid: bool)
        ensures
            valid == self.accepts_key(provided_key@),
    {
        match &self.server_api_key {
            Some(configured_key) => {
                let provided = String::from_str(provided_key);
                provided == *configured_key
            },
            None => true,
        }
    }
}

} // verus!
