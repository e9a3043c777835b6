//! Typed errors for listen-address resolution and bind policy.

use vstd::prelude::*;

use crate::addr_text::{listen_addr_text, listen_addr_to_text};
use crate::listener::ListenAddr;
use crate::text::push_text;

verus! {

/// Failure resolving `LEPTOS_SITE_ADDR` / `SITE_ADDR` into a [`ListenAddr`].
///
/// The message never includes the raw environment **value** (only the variable name).
#[derive(Debug, Clone, PartialEq, Eq)]
pub enum ListenAddrError {
    /// Environment variable exists but is not valid Unicode.
    EnvNotUnicode {
        /// Environment variable name (`LEPTOS_SITE_ADDR` or `SITE_ADDR`).
        var: &'static str,
    },
    /// Environment variable is set but does not parse as a socket address.
    InvalidSocketAddr {
        /// Environment variable name (`LEPTOS_SITE_ADDR` or `SITE_ADDR`).
        var: &'static str,
    },
}

impl ListenAddrError {
    /// The text of the error: the variable name and what is wrong with it.
    pub open spec fn spec_message(self) -> Seq<char> {
        match self {
            ListenAddrError::EnvNotUnicode { var } => "environment variable "@ + var@
                + " is not valid Unicode"@,
            ListenAddrError::InvalidSocketAddr { var } => "environment variable "@ + var@
                + " is not a valid socket address"@,
        }
    }

    /// Human-readable description (names the variable, never its value).
    pub fn message(&self) -> (text: String)
        ensures
            text@ == self.spec_message(),
    {
        let mut text = String::new();
        push_text(&mut text, "environment variable ");
        match self {
            ListenAddrError::EnvNotUnicode { var } => {
                push_text(&mut text, var);
                push_text(&mut text, " is not valid Unicode");
            },
            ListenAddrError::InvalidSocketAddr { var } => {
                push_text(&mut text, var);
                push_text(&mut text, " is not a valid socket address");
            },
        }
        text
    }
}

/// Failure from [`crate::listener::ensure_bind_allowed`].
#[derive(Debug, Clone, PartialEq, Eq)]
pub enum BindPolicyError {
    /// Non-loopback bind refused because `SUBSYSTEM_AUTH_HMAC_KEY` is unset or unusable.
    NonLoopbackWithoutHmacKey {
        /// Requested listen address (ops identity; not end-user PII).
        addr: ListenAddr,
    },
}

impl BindPolicyError {
    /// The text of the error: the refused address and the variable to set.
    pub open spec fn spec_message(self) -> Seq<char> {
        match self {
            BindPolicyError::NonLoopbackWithoutHmacKey { addr } => "refusing non-loopback bind "@
                + listen_addr_text(addr)
                + ": set SUBSYSTEM_AUTH_HMAC_KEY before exposing the process"@,
        }
    }

    /// Human-readable description (names the address, never key material).
    pub fn message(&self) -> (text: String)
        ensures
            text@ == self.spec_message(),
    {
        match self {
            BindPolicyError::NonLoopbackWithoutHmacKey { addr } => {
                let mut text = String::new();
                push_text(&mut text, "refusing non-loopback bind ");
                let shown = listen_addr_to_text(addr);
                push_text(&mut text, shown.as_str());
                push_text(&mut text, ": set SUBSYSTEM_AUTH_HMAC_KEY before exposing the process");
                text
            },
        }
    }
}

} // verus!
