//! Listen-address resolution and bind policy.
//!
//! The address comes from `LEPTOS_SITE_ADDR`, then `SITE_ADDR`, then an explicit
//! default; a set but unusable variable is an error, never a silent fallback.
//! A non-loopback address may only be bound when HMAC key material is configured.

use vstd::prelude::*;

use crate::error::{BindPolicyError, ListenAddrError};
use crate::subsystem_auth::{
    gate_outcome, key_material, load_hmac_key_material_from_env, HmacRejection,
};
use crate::text::opt_text;

verus! {

/// A socket address: an IPv4 or IPv6 address and a port, as `std::net::SocketAddr`
/// holds it.
#[derive(Debug, Clone, Copy, PartialEq, Eq)]
pub enum ListenAddr {
    /// `a.b.c.d:port`.
    V4 {
        /// The four address octets.
        octets: [u8; 4],
        /// TCP port.
        port: u16,
    },
    /// `[a:b:..:h%scope]:port`.
    V6 {
        /// The eight 16-bit address segments.
        segments: [u16; 8],
        /// TCP port.
        port: u16,
        /// IPv6 flow label.
        flowinfo: u32,
        /// IPv6 scope identifier.
        scope_id: u32,
    },
}

impl ListenAddr {
    /// The TCP port.
    pub open spec fn spec_port(self) -> u16 {
        match self {
            ListenAddr::V4 { port, .. } => port,
            ListenAddr::V6 { port, .. } => port,
        }
    }

    /// Loopback: `127.0.0.0/8` for IPv4, exactly `::1` for IPv6.
    pub open spec fn spec_is_loopback(self) -> bool {
        match self {
            ListenAddr::V4 { octets, .. } => octets@[0] == 127,
            ListenAddr::V6 { segments, .. } => segments@ == seq![0u16, 0, 0, 0, 0, 0, 0, 1],
        }
    }

    /// The TCP port.
    pub fn port(&self) -> (port: u16)
        ensures
            port == self.spec_port(),
    {
        match self {
            ListenAddr::V4 { port, .. } => *port,
            ListenAddr::V6 { port, .. } => *port,
        }
    }

    /// Whether the IP address is a loopback address.
    pub fn is_loopback(&self) -> (loopback: bool)
        ensures
            loopback == self.spec_is_loopback(),
    {
        match self {
            ListenAddr::V4 { octets, .. } => octets[0] == 127,
            ListenAddr::V6 { segments, .. } => {
                let s = segments;
                let r = s[0] == 0 && s[1] == 0 && s[2] == 0 && s[3] == 0 && s[4] == 0 && s[5] == 0
                    && s[6] == 0 && s[7] == 1;
                assert(r ==> s@ =~= seq![0u16, 0, 0, 0, 0, 0, 0, 1]);
                r
            },
        }
    }
}

/// Default listen address when neither `LEPTOS_SITE_ADDR` nor `SITE_ADDR` is set.
#[derive(Debug, Clone, Copy, PartialEq, Eq)]
pub enum ListenAddrDefault {
    /// `127.0.0.1:{port}` — preferred for local/embedded hosts.
    Loopback {
        /// TCP port.
        port: u16,
    },
    /// `0.0.0.0:{port}` — preferred for fleet apps that intentionally expose all interfaces.
    AllInterfaces {
        /// TCP port.
        port: u16,
    },
}

impl ListenAddrDefault {
    /// The address this default stands for.
    pub open spec fn spec_socket_addr(self) -> ListenAddr {
        match self {
            ListenAddrDefault::Loopback { port } => ListenAddr::V4 { octets: [127, 0, 0, 1], port },
            ListenAddrDefault::AllInterfaces { port } => ListenAddr::V4 { octets: [0, 0, 0, 0], port },
        }
    }

    /// The address this default stands for.
    pub fn socket_addr(self) -> (addr: ListenAddr)
        ensures
            addr == self.spec_socket_addr(),
    {
        match self {
            ListenAddrDefault::Loopback { port } => ListenAddr::V4 { octets: [127, 0, 0, 1], port },
            ListenAddrDefault::AllInterfaces { port } => ListenAddr::V4 { octets: [0, 0, 0, 0], port },
        }
    }
}

/// First choice of listen-address variable.
pub const LEPTOS_SITE_ADDR_ENV: &'static str = "LEPTOS_SITE_ADDR";

/// Second choice of listen-address variable.
pub const SITE_ADDR_ENV: &'static str = "SITE_ADDR";

/// What one listen-address variable held: unset, not Unicode, text that is
/// not a socket address, or (after trimming) a socket address.
#[derive(Debug, Clone, Copy, PartialEq, Eq)]
pub enum AddrEnvReading {
    /// The variable is not set.
    NotPresent,
    /// The variable is set but its value is not valid Unicode.
    NotUnicode,
    /// The trimmed value does not parse as a socket address.
    Invalid,
    /// The trimmed value parses as this socket address.
    Parsed(ListenAddr),
}

/// What one listen-address variable contributes: nothing when unset, its
/// address, or an error naming the variable.
pub open spec fn addr_from_reading(var: &'static str, reading: AddrEnvReading) -> Result<
    Option<ListenAddr>,
    ListenAddrError,
> {
    match reading {
        AddrEnvReading::NotPresent => Ok(None),
        AddrEnvReading::NotUnicode => Err(ListenAddrError::EnvNotUnicode { var }),
        AddrEnvReading::Invalid => Err(ListenAddrError::InvalidSocketAddr { var }),
        AddrEnvReading::Parsed(a) => Ok(Some(a)),
    }
}

/// `LEPTOS_SITE_ADDR` if set, else `SITE_ADDR` if set, else the default; the
/// first set variable decides, and an unusable one is an error.
pub open spec fn resolved_listen_addr(
    leptos_site_addr: AddrEnvReading,
    site_addr: AddrEnvReading,
    default: ListenAddrDefault,
) -> Result<ListenAddr, ListenAddrError> {
    match addr_from_reading(LEPTOS_SITE_ADDR_ENV, leptos_site_addr) {
        Ok(Some(a)) => Ok(a),
        Err(e) => Err(e),
        Ok(None) => match addr_from_reading(SITE_ADDR_ENV, site_addr) {
            Ok(Some(a)) => Ok(a),
            Err(e) => Err(e),
            Ok(None) => Ok(default.spec_socket_addr()),
        },
    }
}

fn read_addr_env(var: &'static str, reading: AddrEnvReading) -> (r: Result<
    Option<ListenAddr>,
    ListenAddrError,
>)
    ensures
        r == addr_from_reading(var, reading),
{
    match reading {
        AddrEnvReading::NotPresent => Ok(None),
        AddrEnvReading::NotUnicode => Err(ListenAddrError::EnvNotUnicode { var }),
        AddrEnvReading::Invalid => Err(ListenAddrError::InvalidSocketAddr { var }),
        AddrEnvReading::Parsed(a) => Ok(Some(a)),
    }
}

/// Resolve the listen address from what `LEPTOS_SITE_ADDR` and `SITE_ADDR`
/// held, then `default`.
///
/// Invalid or non-Unicode values return [`ListenAddrError`] (no silent fallback).
pub fn resolve_listen_addr(
    leptos_site_addr: AddrEnvReading,
    site_addr: AddrEnvReading,
    default: ListenAddrDefault,
) -> (r: Result<ListenAddr, ListenAddrError>)
    ensures
        r == resolved_listen_addr(leptos_site_addr, site_addr, default),
{
    match read_addr_env(LEPTOS_SITE_ADDR_ENV, leptos_site_addr) {
        Ok(Some(addr)) => Ok(addr),
        Ok(None) => match read_addr_env(SITE_ADDR_ENV, site_addr) {
            Ok(Some(addr)) => Ok(addr),
            Ok(None) => Ok(default.socket_addr()),
            Err(e) => Err(e),
        },
        Err(e) => Err(e),
    }
}

/// The bind policy: loopback always, anything else only with key material.
pub open spec fn bind_allowed(addr: ListenAddr, key_setting: Option<Seq<char>>) -> bool {
    addr.spec_is_loopback() || key_material(key_setting) is Some
}

/// Refuse non-loopback binds when the `SUBSYSTEM_AUTH_HMAC_KEY` value
/// `key_setting` gives no usable key material.
///
/// Checks key **presence** only; never returns key material.
pub fn ensure_bind_allowed(addr: ListenAddr, key_setting: Option<&str>) -> (r: Result<
    (),
    BindPolicyError,
>)
    ensures
        r is Ok <==> bind_allowed(addr, opt_text(key_setting)),
        r matches Err(e) ==> e == (BindPolicyError::NonLoopbackWithoutHmacKey { addr }),
{
    if addr.is_loopback() {
        return Ok(());
    }
    if load_hmac_key_material_from_env(key_setting).is_some() {
        return Ok(());
    }
    Err(BindPolicyError::NonLoopbackWithoutHmacKey { addr })
}

/// The first listen-address variable that is set decides: a usable
/// `LEPTOS_SITE_ADDR` wins whatever `SITE_ADDR` holds.
pub proof fn lemma_leptos_site_addr_first(
    addr: ListenAddr,
    site_addr: AddrEnvReading,
    default: ListenAddrDefault,
)
    ensures
        resolved_listen_addr(AddrEnvReading::Parsed(addr), site_addr, default) == Ok::<
            ListenAddr,
            ListenAddrError,
        >(addr),
{
}

/// No silent fallback: an unusable `LEPTOS_SITE_ADDR` is an error naming that
/// variable, even when `SITE_ADDR` or the default would do.
pub proof fn lemma_unusable_value_never_falls_back(
    site_addr: AddrEnvReading,
    default: ListenAddrDefault,
)
    ensures
        resolved_listen_addr(AddrEnvReading::Invalid, site_addr, default) == Err::<
            ListenAddr,
            ListenAddrError,
        >(ListenAddrError::InvalidSocketAddr { var: LEPTOS_SITE_ADDR_ENV }),
        resolved_listen_addr(AddrEnvReading::NotUnicode, site_addr, default) == Err::<
            ListenAddr,
            ListenAddrError,
        >(ListenAddrError::EnvNotUnicode { var: LEPTOS_SITE_ADDR_ENV }),
{
}

/// With neither variable set, the default address is used.
pub proof fn lemma_default_when_unset(default: ListenAddrDefault)
    ensures
        resolved_listen_addr(AddrEnvReading::NotPresent, AddrEnvReading::NotPresent, default)
            == Ok::<ListenAddr, ListenAddrError>(default.spec_socket_addr()),
        default matches ListenAddrDefault::Loopback { .. } ==> default.spec_socket_addr().spec_is_loopback(),
{
}

/// Loopback addresses are always allowed, with or without a key.
pub proof fn lemma_loopback_always_allowed(addr: ListenAddr, key_setting: Option<Seq<char>>)
    requires
        addr.spec_is_loopback(),
    ensures
        bind_allowed(addr, key_setting),
{
}

/// A process allowed to bind a non-loopback address holds key material, so
/// the HMAC middleware never refuses its enforced requests for want of a key.
pub proof fn lemma_public_bind_means_keyed_middleware(
    addr: ListenAddr,
    key_setting: Option<Seq<char>>,
    path: Seq<char>,
    method: Seq<char>,
    path_and_query: Seq<char>,
    auth_header: Seq<char>,
    body: Option<Seq<u8>>,
)
    requires
        !addr.spec_is_loopback(),
        bind_allowed(addr, key_setting),
    ensures
        key_material(key_setting) is Some,
        gate_outcome(path, key_material(key_setting), method, path_and_query, auth_header, body)
            != Some(HmacRejection::MissingKey),
{
}

/// IPv4 loopback is exactly `127.0.0.0/8`: without key material, an IPv4
/// address may be bound exactly when its first octet is 127; with key
/// material, any address may.
pub proof fn lemma_ipv4_bind_without_key(octets: [u8; 4], port: u16)
    ensures
        bind_allowed((ListenAddr::V4 { octets, port }), None) <==> octets@[0] == 127,
        (ListenAddr::V4 { octets, port }).spec_is_loopback() <==> octets@[0] == 127,
{
}

/// IPv6 loopback is exactly `::1`: without key material every other IPv6
/// address is refused.
pub proof fn lemma_ipv6_bind_without_key(segments: [u16; 8], port: u16, flowinfo: u32, scope_id: u32)
    ensures
        bind_allowed((ListenAddr::V6 { segments, port, flowinfo, scope_id }), None) <==> (
        segments@[0] == 0 && segments@[1] == 0 && segments@[2] == 0 && segments@[3] == 0
            && segments@[4] == 0 && segments@[5] == 0 && segments@[6] == 0 && segments@[7] == 1),
{
    let one = seq![0u16, 0, 0, 0, 0, 0, 0, 1];
    if segments@[0] == 0 && segments@[1] == 0 && segments@[2] == 0 && segments@[3] == 0
        && segments@[4] == 0 && segments@[5] == 0 && segments@[6] == 0 && segments@[7] == 1 {
        assert(segments@ =~= one);
    }
    if segments@ == one {
        assert(segments@[7] == one[7]);
    }
}

/// Any key material allows any address.
pub proof fn lemma_keyed_bind_always_allowed(addr: ListenAddr, key_setting: Option<Seq<char>>)
    requires
        key_material(key_setting) is Some,
    ensures
        bind_allowed(addr, key_setting),
{
}

} // verus!
