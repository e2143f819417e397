use vstd::prelude::*;

use crate::error::IntErrorKind;

verus! {

pub open spec fn is_digit(c: char) -> bool {
    '0' <= c && c <= '9'
}

pub open spec fn digit_value(c: char) -> nat {
    (c as u32 - '0' as u32) as nat
}

/// The digits of a decimal number, without the optional leading `+`.
pub open spec fn unsigned_body(s: Seq<char>) -> Seq<char> {
    if s.len() > 0 && s[0] == '+' {
        s.subrange(1, s.len() as int)
    } else {
        s
    }
}

/// Reading the first `k` characters of `body` from left to right: the value
/// so far, or the first error met.
pub open spec fn scan_digits(body: Seq<char>, k: nat) -> Result<nat, IntErrorKind>
    decreases k,
{
    if k == 0 {
        Ok(0)
    } else {
        match scan_digits(body, (k - 1) as nat) {
            Err(e) => Err(e),
            Ok(v) => {
                let c = body[k - 1];
                if !is_digit(c) {
                    Err(IntErrorKind::InvalidDigit)
                } else if v * 10 + digit_value(c) > u64::MAX {
                    Err(IntErrorKind::PosOverflow)
                } else {
                    Ok(v * 10 + digit_value(c))
                }
            },
        }
    }
}

/// What reading `s` as an unsigned decimal `u64` gives; a lone `+` is an
/// invalid digit.
pub open spec fn decimal_u64(s: Seq<char>) -> Result<u64, IntErrorKind> {
    let body = unsigned_body(s);
    if s.len() == 0 {
        Err(IntErrorKind::Empty)
    } else if body.len() == 0 {
        Err(IntErrorKind::InvalidDigit)
    } else {
        match scan_digits(body, body.len()) {
            Ok(v) => Ok(v as u64),
            Err(e) => Err(e),
        }
    }
}

proof fn lemma_scan_bounded(body: Seq<char>, k: nat)
    requires
        k <= body.len(),
    ensures
        scan_digits(body, k) matches Ok(v) ==> v <= u64::MAX,
    decreases k,
{
    if k > 0 {
        lemma_scan_bounded(body, (k - 1) as nat);
    }
}

/// Reads an unsigned decimal number, with an optional leading `+`.
pub fn parse_u64(s: &str) -> (r: Result<u64, IntErrorKind>)
    ensures
        r == decimal_u64(s@),
{
    let n = s.unicode_len();
    let mut start: usize = 0;
    if n > 0 && s.get_char(0) == '+' {
        start = 1;
    }
    proof {
        assert(unsigned_body(s@) =~= s@.subrange(start as int, n as int));
    }
    if n == 0 {
        return Err(IntErrorKind::Empty);
    }
    if start == n {
        return Err(IntErrorKind::InvalidDigit);
    }
    let ghost body = unsigned_body(s@);
    let mut acc: u64 = 0;
    let mut i: usize = start;
    while i < n
        invariant
            start <= i <= n,
            n == s@.len(),
            body == s@.subrange(start as int, n as int),
            body == unsigned_body(s@),
            start < n,
            scan_digits(body, (i - start) as nat) == Ok::<nat, IntErrorKind>(acc as nat),
        decreases n - i,
    {
        let c = s.get_char(i);
        assert(body[(i - start) as int] == c);
        if !('0' <= c && c <= '9') {
            proof {
                assert(scan_digits(body, (i - start + 1) as nat) == Err::<nat, IntErrorKind>(
                    IntErrorKind::InvalidDigit,
                ));
                lemma_scan_rest_err(body, (i - start + 1) as nat, IntErrorKind::InvalidDigit);
            }
            return Err(IntErrorKind::InvalidDigit);
        }
        let d: u64 = (c as u32 - '0' as u32) as u64;
        if acc > (u64::MAX - d) / 10 {
            proof {
                assert(acc * 10 + d > u64::MAX) by (nonlinear_arith)
                    requires acc > (u64::MAX - d) / 10, d <= 9;
                assert(scan_digits(body, (i - start + 1) as nat) == Err::<nat, IntErrorKind>(
                    IntErrorKind::PosOverflow,
                ));
                lemma_scan_rest_err(body, (i - start + 1) as nat, IntErrorKind::PosOverflow);
            }
            return Err(IntErrorKind::PosOverflow);
        }
        assert(acc * 10 + d <= u64::MAX) by (nonlinear_arith)
            requires acc <= (u64::MAX - d) / 10, d <= 9;
        acc = acc * 10 + d;
        i = i + 1;
        assert(scan_digits(body, (i - start) as nat) == Ok::<nat, IntErrorKind>(acc as nat));
    }
    proof {
        lemma_scan_bounded(body, body.len());
    }
    Ok(acc)
}

/// Once a prefix fails, every longer prefix fails the same way.
proof fn lemma_scan_rest_err(body: Seq<char>, k: nat, e: IntErrorKind)
    requires
        k <= body.len(),
        scan_digits(body, k) == Err::<nat, IntErrorKind>(e),
    ensures
        scan_digits(body, body.len()) == Err::<nat, IntErrorKind>(e),
    decreases body.len() - k,
{
    if k < body.len() {
        lemma_scan_rest_err(body, k + 1, e);
    }
}

} // verus!

verus! {

/// `s` without its thousands separators.
pub open spec fn without_commas(s: Seq<char>) -> Seq<char> {
    s.filter(|c: char| c != ',')
}

/// Reads a count written with or without thousands separators (`1,955`).
pub fn number_from_text(s: &str) -> (r: Result<u64, IntErrorKind>)
    ensures
        r == decimal_u64(without_commas(s@)),
{
    let n = s.unicode_len();
    let mut cleaned = String::new();
    let mut i: usize = 0;
    while i < n
        invariant
            i <= n,
            n == s@.len(),
            cleaned@ == without_commas(s@.subrange(0, i as int)),
        decreases n - i,
    {
        let c = s.get_char(i);
        proof {
            let p = s@.subrange(0, i as int);
            assert(s@.subrange(0, i + 1) =~= p.push(c));
            reveal(Seq::filter);
            assert(p.push(c).drop_last() =~= p);
        }
        if c != ',' {
            crate::text::push_char(&mut cleaned, c);
        }
        i = i + 1;
    }
    assert(s@.subrange(0, n as int) =~= s@);
    parse_u64(cleaned.as_str())
}

} // verus!
