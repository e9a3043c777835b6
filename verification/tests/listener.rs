use soliton::listener::{
    ensure_bind_allowed, resolve_listen_addr, AddrEnvReading, ListenAddr, ListenAddrDefault,
};
use soliton::{BindPolicyError, ListenAddrError};

const TEST_KEY: &str = "soliton-test-hmac-key-32-bytes!!";

fn v4(octets: [u8; 4], port: u16) -> ListenAddr {
    ListenAddr::V4 { octets, port }
}

fn v6(segments: [u16; 8], port: u16) -> ListenAddr {
    ListenAddr::V6 { segments, port, flowinfo: 0, scope_id: 0 }
}

#[test]
fn resolve_loopback_default_happy_path() {
    let addr = resolve_listen_addr(
        AddrEnvReading::NotPresent,
        AddrEnvReading::NotPresent,
        ListenAddrDefault::Loopback { port: 3002 },
    )
    .expect("default");
    assert_eq!(addr, v4([127, 0, 0, 1], 3002));
}

#[test]
fn resolve_all_interfaces_default_happy_path() {
    let addr = resolve_listen_addr(
        AddrEnvReading::NotPresent,
        AddrEnvReading::NotPresent,
        ListenAddrDefault::AllInterfaces { port: 3000 },
    )
    .expect("default");
    assert_eq!(addr, v4([0, 0, 0, 0], 3000));
}

#[test]
fn resolve_leptos_precedes_site_happy_path() {
    let addr = resolve_listen_addr(
        AddrEnvReading::Parsed(v4([127, 0, 0, 1], 4100)),
        AddrEnvReading::Parsed(v4([127, 0, 0, 1], 4200)),
        ListenAddrDefault::Loopback { port: 3000 },
    )
    .expect("resolve");
    assert_eq!(addr, v4([127, 0, 0, 1], 4100));
}

#[test]
fn resolve_site_addr_when_leptos_absent_happy_path() {
    let addr = resolve_listen_addr(
        AddrEnvReading::NotPresent,
        AddrEnvReading::Parsed(v4([127, 0, 0, 1], 4300)),
        ListenAddrDefault::Loopback { port: 3000 },
    )
    .expect("resolve");
    assert_eq!(addr, v4([127, 0, 0, 1], 4300));
}

#[test]
fn resolve_invalid_env_errors_without_echoing_value_sad() {
    // `LEPTOS_SITE_ADDR=not-an-addr` reads as text that is no socket address.
    let err = resolve_listen_addr(
        AddrEnvReading::Invalid,
        AddrEnvReading::NotPresent,
        ListenAddrDefault::Loopback { port: 3000 },
    )
    .expect_err("invalid");
    assert_eq!(
        err,
        ListenAddrError::InvalidSocketAddr {
            var: "LEPTOS_SITE_ADDR"
        }
    );
    let msg = err.message();
    assert!(msg.contains("LEPTOS_SITE_ADDR"));
    assert!(!msg.contains("not-an-addr"));
}

#[test]
fn resolve_invalid_site_addr_when_leptos_absent_sad() {
    let err = resolve_listen_addr(
        AddrEnvReading::NotPresent,
        AddrEnvReading::Invalid,
        ListenAddrDefault::Loopback { port: 3000 },
    )
    .expect_err("invalid SITE_ADDR");
    assert_eq!(err, ListenAddrError::InvalidSocketAddr { var: "SITE_ADDR" });
    let msg = err.message();
    assert!(msg.contains("SITE_ADDR"));
    assert!(!msg.contains("not-an-addr"));
}

#[test]
fn resolve_invalid_leptos_does_not_fall_back_to_site_sad() {
    let err = resolve_listen_addr(
        AddrEnvReading::Invalid,
        AddrEnvReading::Parsed(v4([127, 0, 0, 1], 4300)),
        ListenAddrDefault::Loopback { port: 3000 },
    )
    .expect_err("invalid LEPTOS must not fall back");
    assert_eq!(
        err,
        ListenAddrError::InvalidSocketAddr {
            var: "LEPTOS_SITE_ADDR"
        }
    );
    assert!(!err.message().contains("not-an-addr"));
    assert!(!err.message().contains("127.0.0.1:4300"));
}

#[test]
fn resolve_non_unicode_env_sad() {
    let err = resolve_listen_addr(
        AddrEnvReading::NotUnicode,
        AddrEnvReading::NotPresent,
        ListenAddrDefault::Loopback { port: 3000 },
    )
    .expect_err("non-unicode");
    assert_eq!(
        err,
        ListenAddrError::EnvNotUnicode {
            var: "LEPTOS_SITE_ADDR"
        }
    );
    assert!(err.message().contains("LEPTOS_SITE_ADDR"));
}

#[test]
fn ensure_bind_loopback_ok_happy_path() {
    ensure_bind_allowed(v4([127, 0, 0, 1], 3002), None).expect("loopback");
}

#[test]
fn ensure_bind_ipv6_loopback_ok_happy_path() {
    ensure_bind_allowed(v6([0, 0, 0, 0, 0, 0, 0, 1], 3002), None).expect("ipv6 loopback");
}

#[test]
fn ensure_bind_public_with_key_ok_happy_path() {
    ensure_bind_allowed(v4([0, 0, 0, 0], 3012), Some(TEST_KEY)).expect("keyed");
}

#[test]
fn ensure_bind_public_without_key_sad() {
    let addr = v4([0, 0, 0, 0], 3012);
    let err = ensure_bind_allowed(addr, None).expect_err("must refuse");
    assert_eq!(err, BindPolicyError::NonLoopbackWithoutHmacKey { addr });
    assert!(!err.message().contains(TEST_KEY));
}

#[test]
fn ensure_bind_public_with_short_key_sad() {
    let addr = v4([0, 0, 0, 0], 3012);
    let err = ensure_bind_allowed(addr, Some("dev-secret")).expect_err("short key must refuse");
    assert_eq!(err, BindPolicyError::NonLoopbackWithoutHmacKey { addr });
}

#[test]
fn resolve_listen_addr_loopback_default_happy_path() {
    let addr = resolve_listen_addr(
        AddrEnvReading::NotPresent,
        AddrEnvReading::NotPresent,
        ListenAddrDefault::Loopback { port: 3002 },
    )
    .expect("default");
    assert_eq!(addr, v4([127, 0, 0, 1], 3002));
}

// ---- further cases ----

#[test]
fn resolve_site_non_unicode_names_site_addr() {
    let err = resolve_listen_addr(
        AddrEnvReading::NotPresent,
        AddrEnvReading::NotUnicode,
        ListenAddrDefault::AllInterfaces { port: 1 },
    )
    .expect_err("non-unicode SITE_ADDR");
    assert_eq!(err, ListenAddrError::EnvNotUnicode { var: "SITE_ADDR" });
    assert_eq!(err.message(), "environment variable SITE_ADDR is not valid Unicode");
    assert_eq!(
        ListenAddrError::InvalidSocketAddr { var: "LEPTOS_SITE_ADDR" }.message(),
        "environment variable LEPTOS_SITE_ADDR is not a valid socket address"
    );
}

#[test]
fn loopback_classification() {
    assert!(v4([127, 1, 2, 3], 80).is_loopback());
    assert!(!v4([128, 0, 0, 1], 80).is_loopback());
    assert!(!v4([10, 0, 0, 1], 80).is_loopback());
    assert!(!v6([0, 0, 0, 0, 0, 0, 0, 0], 80).is_loopback());
    assert!(!v6([0, 0, 0, 0, 0, 0xffff, 0x7f00, 1], 80).is_loopback());
    assert_eq!(v6([0, 0, 0, 0, 0, 0, 0, 1], 443).port(), 443);
    assert_eq!(ListenAddrDefault::Loopback { port: 9 }.socket_addr(), v4([127, 0, 0, 1], 9));
}

#[test]
fn ensure_bind_public_ipv6_and_hex_key() {
    let public6 = v6([0x2001, 0xdb8, 0, 0, 0, 0, 0, 1], 8080);
    assert!(ensure_bind_allowed(public6, None).is_err());
    let hex_key = format!("hex:{}", "01".repeat(32));
    assert!(ensure_bind_allowed(public6, Some(&hex_key)).is_ok());
    assert!(ensure_bind_allowed(public6, Some("hex:zz")).is_err());
}

#[test]
fn bind_policy_message_shows_address() {
    let err = ensure_bind_allowed(v4([0, 0, 0, 0], 3012), None).unwrap_err();
    assert_eq!(
        err.message(),
        "refusing non-loopback bind 0.0.0.0:3012: set SUBSYSTEM_AUTH_HMAC_KEY before exposing the process"
    );
    let cases: [(ListenAddr, &str); 6] = [
        (v6([0x2001, 0xdb8, 0, 0, 0, 0, 0, 1], 8080), "[2001:db8::1]:8080"),
        (v6([0, 0, 0, 0, 0, 0, 0, 0], 1), "[::]:1"),
        (v6([1, 0, 0, 2, 0, 0, 0, 3], 2), "[1:0:0:2::3]:2"),
        (v6([1, 0, 2, 0, 3, 0, 4, 0], 3), "[1:0:2:0:3:0:4:0]:3"),
        (v6([0, 0, 0, 0, 0, 0xffff, 0xc000, 0x0280], 4), "[::ffff:192.0.2.128]:4"),
        (
            ListenAddr::V6 {
                segments: [0xfe80, 0, 0, 0, 0, 0, 0, 0xabcd],
                port: 65535,
                flowinfo: 7,
                scope_id: 42,
            },
            "[fe80::abcd%42]:65535",
        ),
    ];
    for (addr, text) in cases {
        let msg = ensure_bind_allowed(addr, None).unwrap_err().message();
        assert_eq!(
            msg,
            format!("refusing non-loopback bind {text}: set SUBSYSTEM_AUTH_HMAC_KEY before exposing the process")
        );
    }
}
