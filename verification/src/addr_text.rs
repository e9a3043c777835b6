//! The text form of a [`ListenAddr`]: `a.b.c.d:port` for IPv4 and
//! `[segments%scope]:port` for IPv6, with the longest run of zero segments
//! written `::` and IPv4-mapped addresses written `::ffff:a.b.c.d`.

use vstd::prelude::*;

use crate::hex_text::lower_hex_digit;
use crate::listener::ListenAddr;
use crate::text::{push_char, push_text};

verus! {

/// Decimal digit for `0 <= n < 10`.
pub open spec fn decimal_digit(n: nat) -> char {
    (48 + n) as char
}

/// Decimal text of `n`, without leading zeros.
pub open spec fn decimal_text(n: nat) -> Seq<char>
    decreases n,
{
    if n < 10 {
        seq![decimal_digit(n)]
    } else {
        decimal_text(n / 10).push(decimal_digit(n % 10))
    }
}

/// Lower-case hex text of `n`, without leading zeros.
pub open spec fn hex_number_text(n: nat) -> Seq<char>
    decreases n,
{
    if n < 16 {
        seq![lower_hex_digit(n as int)]
    } else {
        hex_number_text(n / 16).push(lower_hex_digit((n % 16) as int))
    }
}

/// Dotted-decimal text of four octets.
pub open spec fn ipv4_text(a: u8, b: u8, c: u8, d: u8) -> Seq<char> {
    decimal_text(a as nat) + seq!['.'] + decimal_text(b as nat) + seq!['.'] + decimal_text(
        c as nat,
    ) + seq!['.'] + decimal_text(d as nat)
}

/// Segments in hex, separated by `:`.
pub open spec fn hex_groups(seg: Seq<u16>) -> Seq<char>
    decreases seg.len(),
{
    if seg.len() == 0 {
        seq![]
    } else if seg.len() == 1 {
        hex_number_text(seg[0] as nat)
    } else {
        hex_groups(seg.drop_last()) + seq![':'] + hex_number_text(seg.last() as nat)
    }
}

/// Length of the run of zero segments that ends just before index `i`.
pub open spec fn zero_run_ending(seg: Seq<u16>, i: int) -> nat
    decreases i,
{
    if i <= 0 {
        0
    } else if seg[i - 1] == 0 {
        zero_run_ending(seg, i - 1) + 1
    } else {
        0
    }
}

/// Start and length of the first longest run of zero segments among the
/// first `i` segments (`(0, 0)` when there is none).
pub open spec fn longest_zero_run(seg: Seq<u16>, i: int) -> (int, nat)
    decreases i,
{
    if i <= 0 {
        (0, 0)
    } else {
        let best = longest_zero_run(seg, i - 1);
        let r = zero_run_ending(seg, i);
        if r > best.1 {
            (i - r, r)
        } else {
            best
        }
    }
}

/// Text of an IPv6 address given by its eight segments.
pub open spec fn ipv6_text(seg: Seq<u16>) -> Seq<char> {
    if seg.take(6) == seq![0u16, 0, 0, 0, 0, 0xffff] {
        "::ffff:"@ + ipv4_text(
            (seg[6] / 256) as u8,
            (seg[6] % 256) as u8,
            (seg[7] / 256) as u8,
            (seg[7] % 256) as u8,
        )
    } else {
        let run = longest_zero_run(seg, 8);
        if run.1 > 1 {
            hex_groups(seg.take(run.0)) + "::"@ + hex_groups(seg.skip(run.0 + run.1))
        } else {
            hex_groups(seg)
        }
    }
}

/// Text of a socket address.
pub open spec fn listen_addr_text(addr: ListenAddr) -> Seq<char> {
    match addr {
        ListenAddr::V4 { octets, port } => ipv4_text(octets@[0], octets@[1], octets@[2], octets@[3])
            + seq![':'] + decimal_text(port as nat),
        ListenAddr::V6 { segments, port, scope_id, .. } => seq!['\u{5b}'] + ipv6_text(segments@) + (
        if scope_id == 0 {
            Seq::<char>::empty()
        } else {
            seq!['%'] + decimal_text(scope_id as nat)
        }) + "\u{5d}:"@ + decimal_text(port as nat),
    }
}

fn push_decimal(s: &mut String, n: u32)
    ensures
        final(s)@ == old(s)@ + decimal_text(n as nat),
    decreases n,
{
    if n >= 10 {
        push_decimal(s, n / 10);
    }
    let d: u8 = (n % 10) as u8;
    push_char(s, (d + 48) as char);
    proof {
        assert(decimal_text(n as nat) == if n < 10 {
            seq![decimal_digit(n as nat)]
        } else {
            decimal_text((n / 10) as nat).push(decimal_digit((n % 10) as nat))
        });
    }
}


fn push_hex_number(s: &mut String, n: u16)
    ensures
        final(s)@ == old(s)@ + hex_number_text(n as nat),
    decreases n,
{
    if n >= 16 {
        push_hex_number(s, n / 16);
    }
    let d: u8 = (n % 16) as u8;
    let c = if d < 10 {
        (d + 48) as char
    } else {
        (d + 87) as char
    };
    push_char(s, c);
    proof {
        assert(hex_number_text(n as nat) == if n < 16 {
            seq![lower_hex_digit(n as int)]
        } else {
            hex_number_text((n / 16) as nat).push(lower_hex_digit((n % 16) as int))
        });
    }
}

fn push_ipv4(s: &mut String, a: u8, b: u8, c: u8, d: u8)
    ensures
        final(s)@ == old(s)@ + ipv4_text(a, b, c, d),
{
    push_decimal(s, a as u32);
    push_char(s, '.');
    push_decimal(s, b as u32);
    push_char(s, '.');
    push_decimal(s, c as u32);
    push_char(s, '.');
    push_decimal(s, d as u32);
    assert(final(s)@ =~= old(s)@ + ipv4_text(a, b, c, d));
}

fn push_hex_groups(s: &mut String, seg: &[u16; 8], lo: usize, hi: usize)
    requires
        lo <= hi <= 8,
    ensures
        final(s)@ == old(s)@ + hex_groups(seg@.subrange(lo as int, hi as int)),
{
    let ghost start = old(s)@;
    assert(seg@.subrange(lo as int, lo as int) =~= Seq::<u16>::empty());
    assert(s@ =~= start + hex_groups(seg@.subrange(lo as int, lo as int)));
    for i in lo..hi
        invariant
            lo <= hi <= 8,
            s@ == start + hex_groups(seg@.subrange(lo as int, i as int)),
    {
        let ghost before = s@;
        let ghost prev = seg@.subrange(lo as int, i as int);
        let ghost next = seg@.subrange(lo as int, i + 1);
        assert(next.drop_last() =~= prev);
        assert(next.last() == seg@[i as int]);
        if i > lo {
            push_char(s, ':');
        }
        push_hex_number(s, seg[i]);
        if i > lo {
            assert(hex_groups(next) == hex_groups(prev) + seq![':'] + hex_number_text(
                seg@[i as int] as nat,
            ));
            assert(s@ =~= start + hex_groups(next));
        } else {
            assert(hex_groups(next) == hex_number_text(seg@[i as int] as nat));
            assert(prev.len() == 0);
            assert(s@ =~= start + hex_groups(next));
        }
    }
}

fn first_longest_zero_run(seg: &[u16; 8]) -> (run: (usize, usize))
    ensures
        run.0 as int == longest_zero_run(seg@, 8).0,
        run.1 as nat == longest_zero_run(seg@, 8).1,
        run.0 + run.1 <= 8,
{
    let mut best_start: usize = 0;
    let mut best_len: usize = 0;
    let mut cur_len: usize = 0;
    for i in 0..8usize
        invariant
            best_start as int == longest_zero_run(seg@, i as int).0,
            best_len as nat == longest_zero_run(seg@, i as int).1,
            cur_len as nat == zero_run_ending(seg@, i as int),
            cur_len <= i,
            best_start + best_len <= i,
    {
        if seg[i] == 0 {
            cur_len = cur_len + 1;
        } else {
            cur_len = 0;
        }
        if cur_len > best_len {
            best_start = i + 1 - cur_len;
            best_len = cur_len;
        }
    }
    (best_start, best_len)
}

fn push_ipv6(s: &mut String, seg: &[u16; 8])
    ensures
        final(s)@ == old(s)@ + ipv6_text(seg@),
{
    let ghost start = old(s)@;
    if seg[0] == 0 && seg[1] == 0 && seg[2] == 0 && seg[3] == 0 && seg[4] == 0 && seg[5] == 0xffff {
        assert(seg@.take(6) =~= seq![0u16, 0, 0, 0, 0, 0xffff]);
        push_text(s, "::ffff:");
        push_ipv4(
            s,
            (seg[6] / 256) as u8,
            (seg[6] % 256) as u8,
            (seg[7] / 256) as u8,
            (seg[7] % 256) as u8,
        );
        assert(s@ =~= start + ipv6_text(seg@));
    } else {
        assert(seg@.take(6) != seq![0u16, 0, 0, 0, 0, 0xffff]) by {
            if seg@.take(6) == seq![0u16, 0, 0, 0, 0, 0xffff] {
                assert(seg@.take(6)[0] == seg@[0]);
                assert(seg@.take(6)[1] == seg@[1]);
                assert(seg@.take(6)[2] == seg@[2]);
                assert(seg@.take(6)[3] == seg@[3]);
                assert(seg@.take(6)[4] == seg@[4]);
                assert(seg@.take(6)[5] == seg@[5]);
            }
        }
        let run = first_longest_zero_run(seg);
        if run.1 > 1 {
            push_hex_groups(s, seg, 0, run.0);
            push_text(s, "::");
            push_hex_groups(s, seg, run.0 + run.1, 8);
            assert(seg@.subrange(0, run.0 as int) == seg@.take(run.0 as int));
            assert(seg@.subrange((run.0 + run.1) as int, 8) == seg@.skip((run.0 + run.1) as int));
            assert(s@ =~= start + ipv6_text(seg@));
        } else {
            push_hex_groups(s, seg, 0, 8);
            assert(seg@.subrange(0, 8) =~= seg@);
            assert(s@ =~= start + ipv6_text(seg@));
        }
    }
}

/// Writes the text of `addr`: `a.b.c.d:port` or `[ipv6%scope]:port`.
pub fn listen_addr_to_text(addr: &ListenAddr) -> (text: String)
    ensures
        text@ == listen_addr_text(*addr),
{
    let mut s = String::new();
    match addr {
        ListenAddr::V4 { octets, port } => {
            push_ipv4(&mut s, octets[0], octets[1], octets[2], octets[3]);
            push_char(&mut s, ':');
            push_decimal(&mut s, *port as u32);
            assert(s@ =~= listen_addr_text(*addr));
        },
        ListenAddr::V6 { segments, port, scope_id, .. } => {
            push_char(&mut s, '\u{5b}');
            push_ipv6(&mut s, segments);
            if *scope_id != 0 {
                push_char(&mut s, '%');
                push_decimal(&mut s, *scope_id);
            }
            push_text(&mut s, "\u{5d}:");
            push_decimal(&mut s, *port as u32);
            assert(s@ =~= listen_addr_text(*addr));
        },
    }
    s
}

} // verus!
