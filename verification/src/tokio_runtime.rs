//! Worker stack size for the host's multi-thread runtime.
//!
//! Host binaries often compose deeply nested async stacks; workers get
//! **8 MiB** by default, overridable via [`WORKER_STACK_ENV`]
//! (`SOLITON_WORKER_STACK_BYTES`, decimal bytes, at least 1 MiB).

use vstd::prelude::*;

use crate::addr_text::{decimal_digit, decimal_text};
use crate::text::{
    is_unicode_whitespace, opt_text, trim_chars, trim_end_chars, trim_start_chars, trim_str,
};

verus! {

/// Default per-worker stack size (8 MiB) for soliton-hosted server binaries.
pub const DEFAULT_WORKER_STACK_BYTES: usize = 8 * 1024 * 1024;

/// Smallest accepted override (1 MiB); smaller values fall back to the default.
pub const MIN_WORKER_STACK_BYTES: usize = 1024 * 1024;

/// Env var that overrides [`DEFAULT_WORKER_STACK_BYTES`] (decimal bytes).
pub const WORKER_STACK_ENV: &'static str = "SOLITON_WORKER_STACK_BYTES";

/// Every character is an ASCII decimal digit.
pub open spec fn all_decimal_digits(d: Seq<char>) -> bool {
    forall|i: int| 0 <= i < d.len() ==> '0' <= #[trigger] d[i] <= '9'
}

/// The number written by the decimal digits `d`.
pub open spec fn decimal_value(d: Seq<char>) -> nat
    decreases d.len(),
{
    if d.len() == 0 {
        0
    } else {
        decimal_value(d.drop_last()) * 10 + ((d.last() as nat) - 48) as nat
    }
}

/// `usize::from_str`: an optional `+` followed by one or more decimal digits
/// whose value fits in `usize`.
pub open spec fn usize_from_decimal(s: Seq<char>) -> Option<usize> {
    let d = if s.len() > 0 && s[0] == '+' {
        s.drop_first()
    } else {
        s
    };
    if d.len() > 0 && all_decimal_digits(d) && decimal_value(d) <= usize::MAX {
        Some(decimal_value(d) as usize)
    } else {
        None
    }
}

/// Declares `core::num::ParseIntError` so that the parsing wrapper can hand it back.
#[verifier::external_type_specification]
#[verifier::external_body]
pub struct ExParseIntError(core::num::ParseIntError);

/// `s.parse::<usize>()`: `Ok` exactly for an optional `+` and decimal digits
/// whose value fits in `usize` (no whitespace, no `-`), with that value.
#[verifier::external_body]
fn parse_usize(s: &str) -> (r: Result<usize, core::num::ParseIntError>)
    ensures
        match r {
            Ok(n) => usize_from_decimal(s@) == Some(n),
            Err(_) => usize_from_decimal(s@) is None,
        },
{
    s.parse::<usize>()
}

/// Stack size chosen from a `SOLITON_WORKER_STACK_BYTES` value: the default
/// when unset, not a decimal byte count, or below [`MIN_WORKER_STACK_BYTES`].
pub open spec fn worker_stack_choice(raw: Option<Seq<char>>) -> usize {
    match raw {
        None => DEFAULT_WORKER_STACK_BYTES,
        Some(v) => match usize_from_decimal(trim_chars(v)) {
            Some(n) => if n >= MIN_WORKER_STACK_BYTES {
                n
            } else {
                DEFAULT_WORKER_STACK_BYTES
            },
            None => DEFAULT_WORKER_STACK_BYTES,
        },
    }
}

/// Resolve the per-worker stack size from the value of [`WORKER_STACK_ENV`]
/// (`None` when unset or not Unicode), falling back to
/// [`DEFAULT_WORKER_STACK_BYTES`].
///
/// Values below 1 MiB, or non-decimal strings, use the default.
pub fn resolve_worker_stack_bytes(raw: Option<&str>) -> (bytes: usize)
    ensures
        bytes == worker_stack_choice(opt_text(raw)),
        bytes >= MIN_WORKER_STACK_BYTES,
{
    match raw {
        None => DEFAULT_WORKER_STACK_BYTES,
        Some(s) => match parse_usize(trim_str(s)) {
            Ok(n) => if n >= MIN_WORKER_STACK_BYTES {
                n
            } else {
                DEFAULT_WORKER_STACK_BYTES
            },
            Err(_) => DEFAULT_WORKER_STACK_BYTES,
        },
    }
}

/// Every decimal value at or above the floor is used unchanged.
pub proof fn lemma_override_used_unchanged(v: Seq<char>, n: usize)
    requires
        usize_from_decimal(trim_chars(v)) == Some(n),
        n >= MIN_WORKER_STACK_BYTES,
    ensures
        worker_stack_choice(Some(v)) == n,
{
}

proof fn lemma_decimal_text_reads_back(n: nat)
    ensures
        decimal_text(n).len() > 0,
        all_decimal_digits(decimal_text(n)),
        decimal_value(decimal_text(n)) == n,
    decreases n,
{
    let t = decimal_text(n);
    if n < 10 {
        assert(t.drop_last() =~= Seq::<char>::empty());
        assert(decimal_digit(n) as nat == 48 + n);
        assert(decimal_value(t) == decimal_value(t.drop_last()) * 10 + ((t.last() as nat) - 48) as nat);
    } else {
        lemma_decimal_text_reads_back(n / 10);
        let p = decimal_text(n / 10);
        assert(t == p.push(decimal_digit(n % 10)));
        assert(t.drop_last() =~= p);
        assert(decimal_digit(n % 10) as nat == 48 + n % 10);
        assert(decimal_value(t) == decimal_value(p) * 10 + ((t.last() as nat) - 48) as nat);
        assert(n == (n / 10) * 10 + n % 10);
        assert forall|i: int| 0 <= i < t.len() implies '0' <= #[trigger] t[i] <= '9' by {
            if i < p.len() {
                assert(t[i] == p[i]);
            }
        }
    }
}

/// Writing any stack size of at least 1 MiB in decimal, with or without
/// surrounding whitespace, gives exactly that size back.
pub proof fn lemma_decimal_override_round_trip(n: usize)
    requires
        n >= MIN_WORKER_STACK_BYTES,
    ensures
        worker_stack_choice(Some(decimal_text(n as nat))) == n,
{
    let t = decimal_text(n as nat);
    lemma_decimal_text_reads_back(n as nat);
    assert(t[0] != '+');
    assert(!is_unicode_whitespace(t[0]));
    assert(!is_unicode_whitespace(t.last()));
    assert(trim_start_chars(t) == t);
    assert(trim_end_chars(t) == t);
}

} // verus!
