use soliton::subsystem_auth::{
    hmac_gate_for_body, hmac_gate_for_path, hmac_hex, is_probe_path,
    load_hmac_key_material_from_env, parse_require_subsystem_hmac, path_class,
    require_subsystem_hmac_from_env, should_enforce_path, subsystem_hmac_header_pair,
    verify_hex_mac, HmacGateStep, HmacRejection, HMAC_BODY_LIMIT_BYTES, MIN_HMAC_KEY_LEN,
    REQUIRE_SUBSYSTEM_HMAC_ENV, SUBSYSTEM_AUTH_HEADER_NAME,
};

/// 32-byte UTF-8 test key (meets `MIN_HMAC_KEY_LEN`).
const TEST_KEY: &str = "soliton-test-hmac-key-32-bytes!!";

#[test]
fn parse_require_subsystem_hmac_truthy_and_falsy() {
    assert!(parse_require_subsystem_hmac("1"));
    assert!(parse_require_subsystem_hmac("true"));
    assert!(parse_require_subsystem_hmac("YES"));
    assert!(!parse_require_subsystem_hmac(""));
    assert!(!parse_require_subsystem_hmac("0"));
    assert!(!parse_require_subsystem_hmac("no"));
}

#[test]
fn require_from_env_defaults_false() {
    assert!(!require_subsystem_hmac_from_env(None));
    assert!(require_subsystem_hmac_from_env(Some("1")));
}

#[test]
fn load_key_none_when_unset_or_empty_sad() {
    assert!(load_hmac_key_material_from_env(None).is_none());
    assert!(load_hmac_key_material_from_env(Some("   ")).is_none());
    assert!(load_hmac_key_material_from_env(Some("hex:")).is_none());
}

#[test]
fn load_key_rejects_short_utf8_sad() {
    assert!(load_hmac_key_material_from_env(Some("dev-secret")).is_none());
}

#[test]
fn load_key_utf8_and_hex_happy_path() {
    assert_eq!(TEST_KEY.len(), MIN_HMAC_KEY_LEN);
    assert_eq!(
        load_hmac_key_material_from_env(Some(TEST_KEY)).as_deref(),
        Some(TEST_KEY.as_bytes())
    );
    // 32 bytes as hex (64 hex chars)
    let hex_key = format!("hex:{}", "ab".repeat(32));
    let loaded = load_hmac_key_material_from_env(Some(&hex_key)).expect("hex key");
    assert_eq!(loaded.len(), 32);
    assert_eq!(loaded, vec![0xab; 32]);
    assert!(load_hmac_key_material_from_env(Some("hex:zz")).is_none());
    assert!(load_hmac_key_material_from_env(Some("hex:deadbeef")).is_none());
}

#[test]
fn header_pair_none_without_key_sad() {
    assert!(subsystem_hmac_header_pair(None, "GET", "/api/x", b"").is_none());
}

#[test]
fn header_pair_stable_for_same_inputs_happy_path() {
    let key = Some(TEST_KEY);
    let a = subsystem_hmac_header_pair(key, "POST", "/api/jobs?x=1", b"body").unwrap();
    let b = subsystem_hmac_header_pair(key, "POST", "/api/jobs?x=1", b"body").unwrap();
    assert_eq!(a.0, SUBSYSTEM_AUTH_HEADER_NAME);
    assert_eq!(a.1, b.1);
    let c = subsystem_hmac_header_pair(key, "POST", "/api/jobs?x=1", b"other").unwrap();
    assert_ne!(a.1, c.1);
}

#[test]
fn verify_accepts_matching_tag_rejects_mismatch_happy_and_sad() {
    let key = TEST_KEY.as_bytes();
    let tag = hmac_hex(key, "GET", "/api/x", b"{}").unwrap();
    assert!(verify_hex_mac(key, "GET", "/api/x", b"{}", &tag));
    assert!(!verify_hex_mac(key, "GET", "/api/x", b"{}", "00"));
    assert!(!verify_hex_mac(key, "POST", "/api/x", b"{}", &tag));
    assert!(!verify_hex_mac(key, "GET", "/api/x", b"{}", &tag[..32]));
}

#[test]
fn should_enforce_exact_api_and_handoff_roots() {
    assert!(should_enforce_path("/api"));
    assert!(should_enforce_path("/api/ping"));
    assert!(should_enforce_path("/__handoff_internal"));
    assert!(should_enforce_path("/__handoff_internal/x"));
    assert!(!should_enforce_path("/health"));
    assert!(!should_enforce_path("/internal/ok"));
    assert!(!should_enforce_path("/public"));
    assert!(!should_enforce_path("/API/ping"));
}

#[test]
fn load_hmac_key_utf8_happy_path() {
    assert_eq!(
        load_hmac_key_material_from_env(Some(TEST_KEY)).as_deref(),
        Some(TEST_KEY.as_bytes())
    );
}

#[test]
fn load_hmac_key_empty_or_bad_hex_or_short_sad() {
    assert!(load_hmac_key_material_from_env(None).is_none());
    assert!(load_hmac_key_material_from_env(Some("   ")).is_none());
    assert!(load_hmac_key_material_from_env(Some("hex:zz")).is_none());
    assert!(load_hmac_key_material_from_env(Some("dev-secret")).is_none());
}

// ---- further cases ----

#[test]
fn hmac_hex_matches_reference_values() {
    let key = TEST_KEY.as_bytes();
    assert_eq!(
        hmac_hex(key, "GET", "/api/x", b"{}").unwrap(),
        "a9c524f1de730f785505be4a28c0c25a06303a23cd63319ecda3b11b979d0d72"
    );
    assert_eq!(
        hmac_hex(key, "POST", "/api/jobs?x=1", b"body").unwrap(),
        "0c06143585683db16cf9380420fec354456ae41b5019e34be516d1497a910afe"
    );
    let pair = subsystem_hmac_header_pair(Some(TEST_KEY), "GET", "/__handoff_internal/x", b"")
        .unwrap();
    assert_eq!(
        pair.1,
        "676cbf88aa7c5a5fb91652399b46afec2978108036d00a0d2e2b1556a18650db"
    );
}

#[test]
fn method_is_signed_upper_cased() {
    let key = TEST_KEY.as_bytes();
    let lower = hmac_hex(key, "get", "/api/x", b"{}").unwrap();
    let upper = hmac_hex(key, "GET", "/api/x", b"{}").unwrap();
    assert_eq!(lower, upper);
    assert!(verify_hex_mac(key, "Get", "/api/x", b"{}", &upper));
}

#[test]
fn verify_accepts_upper_case_hex_and_surrounding_whitespace() {
    let key = TEST_KEY.as_bytes();
    let tag = hmac_hex(key, "GET", "/api/x", b"{}").unwrap();
    assert!(verify_hex_mac(key, "GET", "/api/x", b"{}", &tag.to_uppercase()));
    assert!(verify_hex_mac(key, "GET", "/api/x", b"{}", &format!("  {tag}\t")));
    assert!(!verify_hex_mac(key, "GET", "/api/x", b"{}", &format!("{tag}00")));
    assert!(!verify_hex_mac(key, "GET", "/api/y", b"{}", &tag));
    assert!(!verify_hex_mac(b"another-key-another-key-32-bytes", "GET", "/api/x", b"{}", &tag));
}

#[test]
fn load_key_trims_and_accepts_spaced_hex() {
    let spaced = format!("  hex:  {}  ", "0f".repeat(40));
    assert_eq!(load_hmac_key_material_from_env(Some(&spaced)), Some(vec![0x0f; 40]));
    let padded = format!("\t{TEST_KEY}\n");
    assert_eq!(
        load_hmac_key_material_from_env(Some(&padded)),
        Some(TEST_KEY.as_bytes().to_vec())
    );
    // 31 bytes of hex is one short.
    assert!(load_hmac_key_material_from_env(Some(&format!("hex:{}", "11".repeat(31)))).is_none());
    // Odd number of hex digits.
    assert!(load_hmac_key_material_from_env(Some(&format!("hex:{}1", "11".repeat(32)))).is_none());
}

#[test]
fn key_length_counts_utf8_bytes() {
    // 16 two-byte characters: 32 bytes, enough.
    let key = "é".repeat(16);
    assert_eq!(key.chars().count(), 16);
    assert_eq!(load_hmac_key_material_from_env(Some(&key)), Some(key.as_bytes().to_vec()));
    // 15 of them: 30 bytes, too short.
    assert!(load_hmac_key_material_from_env(Some(&"é".repeat(15))).is_none());
}

#[test]
fn require_flag_trims_and_ignores_case() {
    assert!(parse_require_subsystem_hmac("  True \n"));
    assert!(parse_require_subsystem_hmac("yEs"));
    assert!(!parse_require_subsystem_hmac("truthy"));
    assert!(!parse_require_subsystem_hmac("y"));
    assert!(!require_subsystem_hmac_from_env(Some("false")));
    assert_eq!(REQUIRE_SUBSYSTEM_HMAC_ENV, "SUBSYSTEM_REQUIRE_AUTH_HMAC");
}

#[test]
fn path_classes_and_probes() {
    assert_eq!(path_class("/api"), "api");
    assert_eq!(path_class("/api/ping"), "api");
    assert_eq!(path_class("/__handoff_internal/x"), "handoff_internal");
    assert_eq!(path_class("/apiary"), "other");
    assert_eq!(path_class("/health"), "other");
    assert!(is_probe_path("/health"));
    assert!(is_probe_path("/internal/ok"));
    assert!(!is_probe_path("/internal"));
    assert!(!is_probe_path("/healthz"));
    assert!(!should_enforce_path("/apiary"));
    assert!(!should_enforce_path("/__handoff_internalx"));
}

#[test]
fn rejection_statuses_and_reasons() {
    assert_eq!(HmacRejection::MissingKey.status_code(), 401);
    assert_eq!(HmacRejection::MissingHeader.status_code(), 401);
    assert_eq!(HmacRejection::BadTag.status_code(), 403);
    assert_eq!(HmacRejection::BodyUnreadable.status_code(), 400);
    assert_eq!(HmacRejection::MissingKey.reason(), "missing_key");
    assert_eq!(HmacRejection::BodyUnreadable.reason(), "body_unreadable");
    assert_eq!(HmacRejection::MissingHeader.reason(), "missing_header");
    assert_eq!(HmacRejection::BadTag.reason(), "bad_tag");
    assert_eq!(HMAC_BODY_LIMIT_BYTES, 4 * 1024 * 1024);
}

#[test]
fn gate_forwards_probes_and_other_paths() {
    for path in ["/health", "/internal/ok", "/public"] {
        assert_eq!(hmac_gate_for_path(path, true), HmacGateStep::Forward, "path={path}");
        assert_eq!(hmac_gate_for_path(path, false), HmacGateStep::Forward, "path={path}");
    }
}

#[test]
fn gate_without_key_refuses_enforced_paths() {
    for path in ["/api", "/api/ping", "/__handoff_internal", "/__handoff_internal/x"] {
        assert_eq!(
            hmac_gate_for_path(path, false),
            HmacGateStep::Reject(HmacRejection::MissingKey),
            "path={path}"
        );
        assert_eq!(hmac_gate_for_path(path, true), HmacGateStep::CheckTag, "path={path}");
    }
    assert!(load_hmac_key_material_from_env(Some("dev-secret")).is_none());
}

#[test]
fn gate_accepts_signed_requests() {
    let key = load_hmac_key_material_from_env(Some(TEST_KEY)).unwrap();
    let body = br#"{"ok":true}"#;
    let (name, tag) = subsystem_hmac_header_pair(Some(TEST_KEY), "POST", "/api/echo", body).unwrap();
    assert_eq!(name, SUBSYSTEM_AUTH_HEADER_NAME);
    assert_eq!(hmac_gate_for_body(&key, "POST", "/api/echo", &tag, Some(body)), Ok(()));
    let (_, tag) =
        subsystem_hmac_header_pair(Some(TEST_KEY), "GET", "/__handoff_internal/x", b"").unwrap();
    assert_eq!(hmac_gate_for_body(&key, "GET", "/__handoff_internal/x", &tag, Some(b"")), Ok(()));
}

#[test]
fn gate_refuses_missing_bad_or_unreadable() {
    let key = load_hmac_key_material_from_env(Some(TEST_KEY)).unwrap();
    assert_eq!(
        hmac_gate_for_body(&key, "GET", "/api/ping", "", Some(b"")),
        Err(HmacRejection::MissingHeader)
    );
    assert_eq!(
        hmac_gate_for_body(&key, "GET", "/api/ping", "00", Some(b"")),
        Err(HmacRejection::BadTag)
    );
    let (_, tag) = subsystem_hmac_header_pair(Some(TEST_KEY), "POST", "/api/echo", b"x").unwrap();
    assert_eq!(
        hmac_gate_for_body(&key, "POST", "/api/echo", &tag, None),
        Err(HmacRejection::BodyUnreadable)
    );
    assert_eq!(
        hmac_gate_for_body(&key, "POST", "/api/echo", &tag, Some(b"y")),
        Err(HmacRejection::BadTag)
    );
}
