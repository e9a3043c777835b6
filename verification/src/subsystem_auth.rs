//! Subsystem HMAC bearer authentication.
//!
//! A request to `/api`, `/api/*`, `/__handoff_internal` or `/__handoff_internal/*`
//! must carry the header `x-subsystem-auth` holding the lower-case hex encoding
//! of `HMAC-SHA256(key, METHOD + "\n" + path_and_query + "\n" + body)`, with the
//! key taken from `SUBSYSTEM_AUTH_HMAC_KEY` (UTF-8 text, or `hex:` and hex digits,
//! at least 32 bytes). `/health` and `/internal/*` always pass; other paths pass.

use vstd::prelude::*;
use vstd::slice::slice_to_vec;
use vstd::utf8::encode_utf8;

use hmac::Mac;
use subtle::ConstantTimeEq;

use crate::hex_text::{
    hex_decode, hex_decode_chars, hex_encode, hex_encode_bytes, lemma_hex_round_trip,
    lemma_hex_text_trimmed,
};
use crate::text::{
    trim_end_chars, trim_start_chars,
    ascii_lower_chars, ascii_lowercase, ascii_upper_bytes, ascii_uppercase_bytes, chars_equal,
    chars_of, chars_start_with, opt_text, starts_with_chars, strip_prefix, strip_prefix_chars, trim_chars,
    trim_str,
};

verus! {

/// Minimum accepted length of HMAC key material (bytes after UTF-8 / `hex:` decode).
pub const MIN_HMAC_KEY_LEN: usize = 32;

/// Request header clients send (`x-subsystem-auth`).
pub const SUBSYSTEM_AUTH_HEADER_NAME: &'static str = "x-subsystem-auth";

/// Environment variable name historically used for "require HMAC" signaling.
pub const REQUIRE_SUBSYSTEM_HMAC_ENV: &'static str = "SUBSYSTEM_REQUIRE_AUTH_HMAC";

/// The bytes of an optional byte vector.
pub open spec fn opt_bytes(v: Option<Vec<u8>>) -> Option<Seq<u8>> {
    match v {
        Some(b) => Some(b@),
        None => None,
    }
}

/// A require-HMAC flag: `1`, `true` or `yes`, ASCII case-insensitive, after trimming.
pub open spec fn require_flag(value: Seq<char>) -> bool {
    let v = ascii_lower_chars(trim_chars(value));
    v == "1"@ || v == "true"@ || v == "yes"@
}

/// Parse a require-HMAC flag string (`1` / `true` / `yes`, case-insensitive).
pub fn parse_require_subsystem_hmac(value: &str) -> (required: bool)
    ensures
        required == require_flag(value@),
{
    let t = trim_str(value);
    let v = ascii_lowercase(&chars_of(t));
    chars_equal(&v, &chars_of("1")) || chars_equal(&v, &chars_of("true")) || chars_equal(
        &v,
        &chars_of("yes"),
    )
}

/// Whether the value of [`REQUIRE_SUBSYSTEM_HMAC_ENV`] (`None` when unset or
/// not Unicode) asks for HMAC: set and a flag per [`parse_require_subsystem_hmac`].
pub fn require_subsystem_hmac_from_env(raw: Option<&str>) -> (required: bool)
    ensures
        required == (raw matches Some(v) && require_flag(v@)),
{
    match raw {
        Some(v) => parse_require_subsystem_hmac(v),
        None => false,
    }
}

/// Key material named by a `SUBSYSTEM_AUTH_HMAC_KEY` value: the trimmed text's
/// UTF-8 bytes, or, after a `hex:` prefix, the bytes its trimmed hex digits
/// denote; absent when the variable is unset, blank, `hex:` with nothing or
/// bad hex after it, or when the key is shorter than [`MIN_HMAC_KEY_LEN`].
pub open spec fn key_material(raw: Option<Seq<char>>) -> Option<Seq<u8>> {
    match raw {
        None => None,
        Some(v) => {
            let t = trim_chars(v);
            if t.len() == 0 {
                None
            } else {
                let key = match strip_prefix_chars(t, "hex:"@) {
                    Some(rest) => {
                        let r = trim_chars(rest);
                        if r.len() == 0 {
                            None
                        } else {
                            hex_decode_chars(r)
                        }
                    },
                    None => Some(encode_utf8(t)),
                };
                match key {
                    Some(k) => if k.len() >= MIN_HMAC_KEY_LEN {
                        Some(k)
                    } else {
                        None
                    },
                    None => None,
                }
            }
        },
    }
}

/// Key material from the value of `SUBSYSTEM_AUTH_HMAC_KEY` (`None` when the
/// variable is unset or not Unicode): UTF-8 text, or `hex:` + hex bytes.
///
/// Returns `None` when the value is absent, empty, `hex:` decoding fails, or
/// the decoded key is shorter than [`MIN_HMAC_KEY_LEN`].
pub fn load_hmac_key_material_from_env(raw: Option<&str>) -> (key: Option<Vec<u8>>)
    ensures
        opt_bytes(key) == key_material(opt_text(raw)),
{
    let v = match raw {
        Some(v) => v,
        None => return None,
    };
    let t = trim_str(v);
    if t.is_empty() {
        return None;
    }
    let key: Vec<u8> = match strip_prefix(t, "hex:") {
        Some(rest) => {
            let rest = trim_str(rest);
            if rest.is_empty() {
                return None;
            }
            match hex_decode(rest) {
                Ok(k) => k,
                Err(_) => return None,
            }
        },
        None => slice_to_vec(t.as_bytes()),
    };
    if key.len() < MIN_HMAC_KEY_LEN {
        return None;
    }
    Some(key)
}

/// HMAC-SHA256 of `message` under `key`, as the `hmac` and `sha2` crates compute it.
pub uninterp spec fn hmac_sha256(key: Seq<u8>, message: Seq<u8>) -> Seq<u8>;

/// `Hmac::<Sha256>::new_from_slice(key)`, `update(message)`, `finalize()`: the
/// HMAC-SHA256 tag of `message` under `key`, 32 bytes long. HMAC accepts keys
/// of every length (longer ones are hashed first), so the tag is always there.
#[verifier::external_body]
fn hmac_sha256_tag(key: &[u8], message: &[u8]) -> (tag: Option<Vec<u8>>)
    ensures
        tag is Some,
        tag matches Some(t) ==> t@ == hmac_sha256(key@, message@) && t@.len() == 32,
{
    match hmac::Hmac::<sha2::Sha256>::new_from_slice(key) {
        Ok(mut mac) => {
            mac.update(message);
            Some(mac.finalize().into_bytes().to_vec())
        },
        Err(_) => None,
    }
}

/// `subtle`'s `ct_eq` on byte slices: true exactly when both hold the same bytes.
#[verifier::external_body]
fn constant_time_eq(a: &[u8], b: &[u8]) -> (same: bool)
    ensures
        same == (a@ == b@),
{
    bool::from(a.ct_eq(b))
}

/// The bytes a tag covers: the upper-cased method, a newline, the path and
/// query, a newline, the body.
pub open spec fn signed_message(method: Seq<char>, path_and_query: Seq<char>, body: Seq<u8>) -> Seq<
    u8,
> {
    ascii_upper_bytes(encode_utf8(method)) + seq![10u8] + encode_utf8(path_and_query) + seq![10u8]
        + body
}

/// The tag a request must carry.
pub open spec fn expected_tag(
    key: Seq<u8>,
    method: Seq<char>,
    path_and_query: Seq<char>,
    body: Seq<u8>,
) -> Seq<u8> {
    hmac_sha256(key, signed_message(method, path_and_query, body))
}

fn signed_message_bytes(method: &str, path_and_query: &str, body: &[u8]) -> (m: Vec<u8>)
    ensures
        m@ == signed_message(method@, path_and_query@, body@),
{
    let mut m = ascii_uppercase_bytes(method.as_bytes());
    m.push(10u8);
    let mut pq = slice_to_vec(path_and_query.as_bytes());
    m.append(&mut pq);
    m.push(10u8);
    let mut b = slice_to_vec(body);
    m.append(&mut b);
    m
}

/// Lower-case hex of the HMAC-SHA256 tag over `method` (upper-cased),
/// `path_and_query` and `body`. The tag always exists, so this is always `Ok`.
pub fn hmac_hex(key: &[u8], method: &str, path_and_query: &str, body: &[u8]) -> (r: Result<
    String,
    (),
>)
    ensures
        r matches Ok(s) && s@ == hex_encode_bytes(
            expected_tag(key@, method@, path_and_query@, body@),
        ),
        expected_tag(key@, method@, path_and_query@, body@).len() == 32,
{
    let message = signed_message_bytes(method, path_and_query, body);
    match hmac_sha256_tag(key, message.as_slice()) {
        Some(tag) => Ok(hex_encode(tag.as_slice())),
        None => Err(()),
    }
}

/// Returns `(header_name, hex_tag)` when the `SUBSYSTEM_AUTH_HMAC_KEY` value
/// `key_setting` gives usable key material, `None` otherwise.
///
/// `method` is uppercased before signing. `path_and_query` must match the request URI
/// (path plus optional `?query`). `body` is the raw request body bytes (empty for GET).
pub fn subsystem_hmac_header_pair(
    key_setting: Option<&str>,
    method: &str,
    path_and_query: &str,
    body: &[u8],
) -> (pair: Option<(&'static str, String)>)
    ensures
        pair is Some <==> key_material(opt_text(key_setting)) is Some,
        pair matches Some(p) ==> p.0 == SUBSYSTEM_AUTH_HEADER_NAME && p.1@ == hex_encode_bytes(
            expected_tag(
                key_material(opt_text(key_setting)).unwrap(),
                method@,
                path_and_query@,
                body@,
            ),
        ),
{
    let key = match load_hmac_key_material_from_env(key_setting) {
        Some(k) => k,
        None => return None,
    };
    match hmac_hex(key.as_slice(), method, path_and_query, body) {
        Ok(tag) => Some((SUBSYSTEM_AUTH_HEADER_NAME, tag)),
        Err(_) => None,
    }
}

/// A header value is accepted when, trimmed, it is hex text for exactly the
/// expected tag.
pub open spec fn tag_accepted(
    key: Seq<u8>,
    method: Seq<char>,
    path_and_query: Seq<char>,
    body: Seq<u8>,
    auth_hex: Seq<char>,
) -> bool {
    hex_decode_chars(trim_chars(auth_hex)) == Some(expected_tag(key, method, path_and_query, body))
}

/// Checks a presented hex tag against the expected one, comparing the 32 tag
/// bytes in constant time.
pub fn verify_hex_mac(
    key: &[u8],
    method: &str,
    path_and_query: &str,
    body: &[u8],
    auth_hex: &str,
) -> (ok: bool)
    ensures
        ok == tag_accepted(key@, method@, path_and_query@, body@, auth_hex@),
{
    let ghost tag = expected_tag(key@, method@, path_and_query@, body@);
    let expected_hex = match hmac_hex(key, method, path_and_query, body) {
        Ok(h) => h,
        Err(_) => return false,
    };
    proof {
        lemma_hex_text_trimmed(tag);
        lemma_hex_round_trip(tag);
    }
    let expected = match hex_decode(trim_str(expected_hex.as_str())) {
        Ok(e) => e,
        Err(_) => return false,
    };
    let provided = match hex_decode(trim_str(auth_hex)) {
        Ok(p) => p,
        Err(_) => return false,
    };
    if expected.len() != 32 || provided.len() != 32 {
        return false;
    }
    constant_time_eq(expected.as_slice(), provided.as_slice())
}


/// `/api` or a path under `/api/`.
pub open spec fn is_api_path(path: Seq<char>) -> bool {
    path == "/api"@ || starts_with_chars(path, "/api/"@)
}

/// `/__handoff_internal` or a path under `/__handoff_internal/`.
pub open spec fn is_handoff_path(path: Seq<char>) -> bool {
    path == "/__handoff_internal"@ || starts_with_chars(path, "/__handoff_internal/"@)
}

/// Paths on which the HMAC bearer is enforced.
pub open spec fn enforced_path(path: Seq<char>) -> bool {
    is_api_path(path) || is_handoff_path(path)
}

/// Probe paths, which always pass: `/health` and paths under `/internal/`.
pub open spec fn probe_path(path: Seq<char>) -> bool {
    path == "/health"@ || starts_with_chars(path, "/internal/"@)
}

/// Whether `path` is one of `/api`, `/api/*`, `/__handoff_internal`, `/__handoff_internal/*`.
pub fn should_enforce_path(path: &str) -> (enforce: bool)
    ensures
        enforce == enforced_path(path@),
{
    let p = chars_of(path);
    chars_equal(&p, &chars_of("/api")) || chars_start_with(&p, &chars_of("/api/")) || chars_equal(
        &p,
        &chars_of("/__handoff_internal"),
    ) || chars_start_with(&p, &chars_of("/__handoff_internal/"))
}

/// Whether `path` is `/health` or under `/internal/`.
pub fn is_probe_path(path: &str) -> (probe: bool)
    ensures
        probe == probe_path(path@),
{
    let p = chars_of(path);
    chars_equal(&p, &chars_of("/health")) || chars_start_with(&p, &chars_of("/internal/"))
}

/// Low-cardinality telemetry class of a path (never the raw path).
pub open spec fn path_class_name(path: Seq<char>) -> Seq<char> {
    if is_api_path(path) {
        "api"@
    } else if is_handoff_path(path) {
        "handoff_internal"@
    } else {
        "other"@
    }
}

/// Low-cardinality path class for telemetry: `api`, `handoff_internal` or `other`.
pub fn path_class(path: &str) -> (class: &'static str)
    ensures
        class@ == path_class_name(path@),
{
    let p = chars_of(path);
    if chars_equal(&p, &chars_of("/api")) || chars_start_with(&p, &chars_of("/api/")) {
        "api"
    } else if chars_equal(&p, &chars_of("/__handoff_internal")) || chars_start_with(
        &p,
        &chars_of("/__handoff_internal/"),
    ) {
        "handoff_internal"
    } else {
        "other"
    }
}

/// Why the HMAC bearer refused a request.
#[derive(Debug, Clone, Copy, PartialEq, Eq)]
pub enum HmacRejection {
    /// Enforced path, but no usable key material is configured.
    MissingKey,
    /// The body exceeded the read limit or could not be buffered.
    BodyUnreadable,
    /// The `x-subsystem-auth` header is missing or empty.
    MissingHeader,
    /// The presented tag does not match.
    BadTag,
}

/// Read limit for bodies on enforced paths (4 MiB).
pub const HMAC_BODY_LIMIT_BYTES: usize = 4 * 1024 * 1024;

impl HmacRejection {
    /// HTTP status for the rejection: 401, 400, 401, 403.
    pub open spec fn spec_status(self) -> u16 {
        match self {
            HmacRejection::MissingKey => 401,
            HmacRejection::BodyUnreadable => 400,
            HmacRejection::MissingHeader => 401,
            HmacRejection::BadTag => 403,
        }
    }

    /// Telemetry reason for the rejection.
    pub open spec fn spec_reason(self) -> Seq<char> {
        match self {
            HmacRejection::MissingKey => "missing_key"@,
            HmacRejection::BodyUnreadable => "body_unreadable"@,
            HmacRejection::MissingHeader => "missing_header"@,
            HmacRejection::BadTag => "bad_tag"@,
        }
    }

    /// HTTP status code the middleware answers with.
    pub fn status_code(&self) -> (status: u16)
        ensures
            status == self.spec_status(),
    {
        match self {
            HmacRejection::MissingKey => 401,
            HmacRejection::BodyUnreadable => 400,
            HmacRejection::MissingHeader => 401,
            HmacRejection::BadTag => 403,
        }
    }

    /// Low-cardinality reason recorded with the rejection.
    pub fn reason(&self) -> (reason: &'static str)
        ensures
            reason@ == self.spec_reason(),
    {
        match self {
            HmacRejection::MissingKey => "missing_key",
            HmacRejection::BodyUnreadable => "body_unreadable",
            HmacRejection::MissingHeader => "missing_header",
            HmacRejection::BadTag => "bad_tag",
        }
    }
}

/// What the HMAC middleware does once it has seen a request's path.
#[derive(Debug, Clone, Copy, PartialEq, Eq)]
pub enum HmacGateStep {
    /// Hand the request on untouched.
    Forward,
    /// Refuse the request.
    Reject(HmacRejection),
    /// Buffer the body (up to [`HMAC_BODY_LIMIT_BYTES`]) and check the tag.
    CheckTag,
}

/// First decision of the middleware, from the path and whether key material
/// is configured.
pub open spec fn gate_step(path: Seq<char>, key_loaded: bool) -> HmacGateStep {
    if probe_path(path) || !enforced_path(path) {
        HmacGateStep::Forward
    } else if !key_loaded {
        HmacGateStep::Reject(HmacRejection::MissingKey)
    } else {
        HmacGateStep::CheckTag
    }
}

/// Second decision, on an enforced path with key material: `body` is `None`
/// when it could not be read within the limit.
pub open spec fn tag_verdict(
    key: Seq<u8>,
    method: Seq<char>,
    path_and_query: Seq<char>,
    auth_header: Seq<char>,
    body: Option<Seq<u8>>,
) -> Option<HmacRejection> {
    match body {
        None => Some(HmacRejection::BodyUnreadable),
        Some(b) => if auth_header.len() == 0 {
            Some(HmacRejection::MissingHeader)
        } else if !tag_accepted(key, method, path_and_query, b, auth_header) {
            Some(HmacRejection::BadTag)
        } else {
            None
        },
    }
}

/// The whole middleware decision: `None` forwards the request, `Some` refuses it.
pub open spec fn gate_outcome(
    path: Seq<char>,
    key: Option<Seq<u8>>,
    method: Seq<char>,
    path_and_query: Seq<char>,
    auth_header: Seq<char>,
    body: Option<Seq<u8>>,
) -> Option<HmacRejection> {
    match gate_step(path, key is Some) {
        HmacGateStep::Forward => None,
        HmacGateStep::Reject(r) => Some(r),
        HmacGateStep::CheckTag => tag_verdict(key.unwrap(), method, path_and_query, auth_header, body),
    }
}

/// First step of the subsystem HMAC middleware: forward probe and
/// non-enforced paths, refuse enforced paths without key material (401),
/// otherwise go on to read the body and check the tag.
pub fn hmac_gate_for_path(path: &str, key_loaded: bool) -> (step: HmacGateStep)
    ensures
        step == gate_step(path@, key_loaded),
{
    if is_probe_path(path) || !should_enforce_path(path) {
        HmacGateStep::Forward
    } else if !key_loaded {
        HmacGateStep::Reject(HmacRejection::MissingKey)
    } else {
        HmacGateStep::CheckTag
    }
}

/// Second step: with the buffered body (`None` when unreadable), refuse a
/// missing/empty header (401) or a wrong tag (403); otherwise accept.
pub fn hmac_gate_for_body(
    key: &[u8],
    method: &str,
    path_and_query: &str,
    auth_header: &str,
    body: Option<&[u8]>,
) -> (verdict: Result<(), HmacRejection>)
    ensures
        match verdict {
            Ok(()) => tag_verdict(key@, method@, path_and_query@, auth_header@, opt_slice(body))
                is None,
            Err(r) => tag_verdict(key@, method@, path_and_query@, auth_header@, opt_slice(body))
                == Some(r),
        },
{
    let bytes = match body {
        Some(b) => b,
        None => return Err(HmacRejection::BodyUnreadable),
    };
    if auth_header.is_empty() {
        return Err(HmacRejection::MissingHeader);
    }
    if !verify_hex_mac(key, method, path_and_query, bytes, auth_header) {
        return Err(HmacRejection::BadTag);
    }
    Ok(())
}

/// The bytes of an optional byte slice.
pub open spec fn opt_slice(b: Option<&[u8]>) -> Option<Seq<u8>> {
    match b {
        Some(s) => Some(s@),
        None => None,
    }
}


/// Key material, when there is any, is at least [`MIN_HMAC_KEY_LEN`] bytes long.
pub proof fn lemma_key_material_is_long_enough(raw: Option<Seq<char>>)
    ensures
        key_material(raw) matches Some(k) ==> k.len() >= MIN_HMAC_KEY_LEN,
{
}

/// The hex tag computed for a request is accepted for that same request:
/// what [`hmac_hex`] and [`subsystem_hmac_header_pair`] produce,
/// [`verify_hex_mac`] accepts.
pub proof fn lemma_own_tag_accepted(
    key: Seq<u8>,
    method: Seq<char>,
    path_and_query: Seq<char>,
    body: Seq<u8>,
)
    ensures
        tag_accepted(
            key,
            method,
            path_and_query,
            body,
            hex_encode_bytes(expected_tag(key, method, path_and_query, body)),
        ),
{
    let t = expected_tag(key, method, path_and_query, body);
    lemma_hex_text_trimmed(t);
    lemma_hex_round_trip(t);
}

/// The method is signed upper-cased: two spellings that upper-case to the
/// same bytes accept the same headers.
pub proof fn lemma_method_case_insensitive(
    key: Seq<u8>,
    m1: Seq<char>,
    m2: Seq<char>,
    path_and_query: Seq<char>,
    body: Seq<u8>,
    auth_hex: Seq<char>,
)
    requires
        ascii_upper_bytes(encode_utf8(m1)) == ascii_upper_bytes(encode_utf8(m2)),
    ensures
        tag_accepted(key, m1, path_and_query, body, auth_hex) == tag_accepted(
            key,
            m2,
            path_and_query,
            body,
            auth_hex,
        ),
{
    assert(signed_message(m1, path_and_query, body) == signed_message(m2, path_and_query, body));
}

/// Probe paths (`/health`, `/internal/*`) are never enforced.
pub proof fn lemma_probe_paths_not_enforced(path: Seq<char>)
    requires
        probe_path(path),
    ensures
        !enforced_path(path),
{
    reveal_strlit("/health");
    reveal_strlit("/internal/");
    reveal_strlit("/api");
    reveal_strlit("/api/");
    reveal_strlit("/__handoff_internal");
    reveal_strlit("/__handoff_internal/");
    if path == "/health"@ {
        assert(path[1] == 'h');
    } else {
        assert(path.take(10)[1] == 'i');
        assert(path[1] == 'i');
    }
    if starts_with_chars(path, "/api/"@) {
        assert(path.take(5)[1] == 'a');
    }
    if starts_with_chars(path, "/__handoff_internal/"@) {
        assert(path.take(20)[1] == '_');
    }
}

/// Probe requests pass whatever the key, header or body.
pub proof fn lemma_probe_requests_forwarded(
    path: Seq<char>,
    key: Option<Seq<u8>>,
    method: Seq<char>,
    path_and_query: Seq<char>,
    auth_header: Seq<char>,
    body: Option<Seq<u8>>,
)
    requires
        probe_path(path),
    ensures
        gate_outcome(path, key, method, path_and_query, auth_header, body) is None,
{
}

/// Fail closed: an enforced path without key material is refused with 401.
pub proof fn lemma_unkeyed_enforced_refused(
    path: Seq<char>,
    method: Seq<char>,
    path_and_query: Seq<char>,
    auth_header: Seq<char>,
    body: Option<Seq<u8>>,
)
    requires
        enforced_path(path),
    ensures
        gate_outcome(path, None, method, path_and_query, auth_header, body) == Some(
            HmacRejection::MissingKey,
        ),
        HmacRejection::MissingKey.spec_status() == 401,
{
    if probe_path(path) {
        lemma_probe_paths_not_enforced(path);
    }
}

/// A request that carries the header computed for it with the configured key
/// passes the middleware on every path, as long as its body was readable.
/// (The tag length holds for every tag: [`hmac_hex`] ensures it.)
pub proof fn lemma_signed_request_forwarded(
    path: Seq<char>,
    key: Seq<u8>,
    method: Seq<char>,
    path_and_query: Seq<char>,
    body: Seq<u8>,
)
    requires
        expected_tag(key, method, path_and_query, body).len() == 32,
    ensures
        gate_outcome(
            path,
            Some(key),
            method,
            path_and_query,
            hex_encode_bytes(expected_tag(key, method, path_and_query, body)),
            Some(body),
        ) is None,
{
    lemma_own_tag_accepted(key, method, path_and_query, body);
}

/// The signed message ends with the whole body, however long: it is the
/// message for an empty body followed by every byte of the body.
pub proof fn lemma_signed_message_covers_whole_body(
    method: Seq<char>,
    path_and_query: Seq<char>,
    body: Seq<u8>,
)
    ensures
        signed_message(method, path_and_query, body) == signed_message(
            method,
            path_and_query,
            Seq::<u8>::empty(),
        ) + body,
        signed_message(method, path_and_query, body).len() == ascii_upper_bytes(
            encode_utf8(method),
        ).len() + encode_utf8(path_and_query).len() + 2 + body.len(),
        signed_message(method, path_and_query, body).skip(
            signed_message(method, path_and_query, body).len() - body.len(),
        ) == body,
{
    let p = ascii_upper_bytes(encode_utf8(method)) + seq![10u8] + encode_utf8(path_and_query)
        + seq![10u8];
    assert(p + Seq::<u8>::empty() =~= p);
    assert((p + body).skip(p.len() as int) =~= body);
}

/// Two bodies signed under the same method and path give the same message
/// only when they are the same body: no byte of the body goes unsigned.
pub proof fn lemma_signed_message_distinguishes_bodies(
    method: Seq<char>,
    path_and_query: Seq<char>,
    b1: Seq<u8>,
    b2: Seq<u8>,
)
    requires
        signed_message(method, path_and_query, b1) == signed_message(method, path_and_query, b2),
    ensures
        b1 == b2,
{
    lemma_signed_message_covers_whole_body(method, path_and_query, b1);
    lemma_signed_message_covers_whole_body(method, path_and_query, b2);
    let p = signed_message(method, path_and_query, Seq::<u8>::empty());
    assert((p + b1).skip(p.len() as int) =~= b1);
    assert((p + b2).skip(p.len() as int) =~= b2);
}

/// A value without the `hex:` prefix is used as text: the key is exactly the
/// UTF-8 bytes of the trimmed value once they are long enough, even when the
/// text happens to consist of hex digits.
pub proof fn lemma_plain_key_is_its_utf8_bytes(v: Seq<char>)
    requires
        trim_chars(v).len() > 0,
        strip_prefix_chars(trim_chars(v), "hex:"@) is None,
        encode_utf8(trim_chars(v)).len() >= MIN_HMAC_KEY_LEN,
    ensures
        key_material(Some(v)) == Some(encode_utf8(trim_chars(v))),
{
}

/// A key written as `hex:` followed by its lower-case hex text loads back as
/// the same bytes.
pub proof fn lemma_hex_key_loads_its_bytes(k: Seq<u8>)
    requires
        k.len() >= MIN_HMAC_KEY_LEN,
    ensures
        key_material(Some("hex:"@ + hex_encode_bytes(k))) == Some(k),
{
    reveal_strlit("hex:");
    let h = hex_encode_bytes(k);
    let v = "hex:"@ + h;
    lemma_hex_text_trimmed(k);
    lemma_hex_round_trip(k);
    assert(v[0] == 'h');
    assert(v.last() == h.last());
    assert(trim_start_chars(v) == v);
    assert(trim_end_chars(v) == v);
    assert(v.take(4) =~= "hex:"@);
    assert(v.skip(4) =~= h);
}

/// The require flag holds exactly for `1`, `true` and `yes` (after trimming
/// and ASCII lower-casing) and for no other word.
pub proof fn lemma_require_flag_words(v: Seq<char>)
    ensures
        require_flag(v) <==> ({
            let w = ascii_lower_chars(trim_chars(v));
            ||| w == seq!['1']
            ||| w == seq!['t', 'r', 'u', 'e']
            ||| w == seq!['y', 'e', 's']
        }),
{
    reveal_strlit("1");
    reveal_strlit("true");
    reveal_strlit("yes");
    assert("1"@ =~= seq!['1']);
    assert("true"@ =~= seq!['t', 'r', 'u', 'e']);
    assert("yes"@ =~= seq!['y', 'e', 's']);
}

/// A header is accepted exactly when it denotes the same bytes as the tag
/// [`hmac_hex`] computes for the request; so two accepted headers for one
/// request always denote the same tag.
pub proof fn lemma_accepted_headers_denote_the_signed_tag(
    key: Seq<u8>,
    method: Seq<char>,
    path_and_query: Seq<char>,
    body: Seq<u8>,
    h1: Seq<char>,
    h2: Seq<char>,
)
    ensures
        tag_accepted(key, method, path_and_query, body, h1) <==> hex_decode_chars(trim_chars(h1))
            == hex_decode_chars(hex_encode_bytes(expected_tag(key, method, path_and_query, body))),
        tag_accepted(key, method, path_and_query, body, h1) && tag_accepted(
            key,
            method,
            path_and_query,
            body,
            h2,
        ) ==> hex_decode_chars(trim_chars(h1)) == hex_decode_chars(trim_chars(h2)),
{
    lemma_hex_round_trip(expected_tag(key, method, path_and_query, body));
}

/// On an enforced path with key material: an unreadable body is answered
/// 400, an empty header 401, and a non-empty header that does not denote the
/// tag 403.
pub proof fn lemma_enforced_refusal_statuses(
    path: Seq<char>,
    key: Seq<u8>,
    method: Seq<char>,
    path_and_query: Seq<char>,
    auth_header: Seq<char>,
    body: Seq<u8>,
)
    requires
        enforced_path(path),
    ensures
        gate_outcome(path, Some(key), method, path_and_query, auth_header, None) matches Some(r)
            && r.spec_status() == 400,
        auth_header.len() == 0 ==> (gate_outcome(
            path,
            Some(key),
            method,
            path_and_query,
            auth_header,
            Some(body),
        ) matches Some(r) && r.spec_status() == 401),
        auth_header.len() > 0 && hex_decode_chars(trim_chars(auth_header)) != Some(
            expected_tag(key, method, path_and_query, body),
        ) ==> (gate_outcome(path, Some(key), method, path_and_query, auth_header, Some(body))
            matches Some(r) && r.spec_status() == 403),
{
    if probe_path(path) {
        lemma_probe_paths_not_enforced(path);
    }
}

} // verus!
