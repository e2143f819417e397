use base64::Engine;
use vstd::prelude::*;

use crate::text::push_char;

verus! {

/// Key used when the caller gives none.
pub const DEFAULT_KEY: &'static str = "fair-maiden";

/// Protocol version sent beside obfuscated fields.
pub const API_VERSION: &'static str = "1.0.0.1";

/// The character of a six-bit group in the standard alphabet
/// (`A`-`Z`, `a`-`z`, `0`-`9`, `+`, `/`).
pub open spec fn b64_char(v: u8) -> char {
    if v < 26 {
        (65 + v) as char
    } else if v < 52 {
        (71 + v) as char
    } else if v < 62 {
        (v - 4) as char
    } else if v == 62 {
        '+'
    } else {
        '/'
    }
}

/// Standard base64 with padding: each group of three bytes becomes four
/// characters of six bits each; a last group of one or two bytes is padded
/// with `=`.
pub open spec fn base64_standard(b: Seq<u8>) -> Seq<char>
    decreases b.len(),
{
    if b.len() == 0 {
        Seq::empty()
    } else if b.len() == 1 {
        seq![b64_char(b[0] >> 2), b64_char((b[0] & 3) << 4), '=', '=']
    } else if b.len() == 2 {
        seq![
            b64_char(b[0] >> 2),
            b64_char(((b[0] & 3) << 4) | (b[1] >> 4)),
            b64_char((b[1] & 15) << 2),
            '=',
        ]
    } else {
        seq![
            b64_char(b[0] >> 2),
            b64_char(((b[0] & 3) << 4) | (b[1] >> 4)),
            b64_char(((b[1] & 15) << 2) | (b[2] >> 6)),
            b64_char(b[2] & 63),
        ] + base64_standard(b.subrange(3, b.len() as int))
    }
}

/// Relies on `base64::engine::general_purpose::STANDARD.encode`: standard
/// alphabet, with padding.
#[verifier::external_body]
fn encode_base64(b: &Vec<u8>) -> (r: String)
    requires
        b@.len() <= usize::MAX / 2,
    ensures
        r@ == base64_standard(b@),
{
    base64::engine::general_purpose::STANDARD.encode(b)
}

/// Four characters for every started group of three bytes.
pub proof fn lemma_base64_len(b: Seq<u8>)
    ensures
        base64_standard(b).len() == 4 * ((b.len() + 2) / 3),
    decreases b.len(),
{
    if b.len() >= 3 {
        lemma_base64_len(b.subrange(3, b.len() as int));
    }
}

proof fn lemma_b64_char_injective(v: u8, w: u8)
    requires
        v < 64,
        w < 64,
        b64_char(v) == b64_char(w),
    ensures
        v == w,
{
    assert(b64_char(v) as u32 == b64_char(w) as u32);
}

/// Three bytes are told apart by their encoding.
pub proof fn lemma_base64_three_injective(b: Seq<u8>, c: Seq<u8>)
    requires
        b.len() == 3,
        c.len() == 3,
        base64_standard(b) == base64_standard(c),
    ensures
        b == c,
{
    let eb = base64_standard(b);
    let ec = base64_standard(c);
    assert(b.subrange(3, 3) =~= Seq::<u8>::empty());
    assert(c.subrange(3, 3) =~= Seq::<u8>::empty());
    let (b0, b1, b2, c0, c1, c2) = (b[0], b[1], b[2], c[0], c[1], c[2]);
    assert(eb[0] == ec[0] && eb[1] == ec[1] && eb[2] == ec[2] && eb[3] == ec[3]);
    assert(b0 >> 2 < 64 && c0 >> 2 < 64 && b2 & 63 < 64 && c2 & 63 < 64) by (bit_vector);
    assert(((b0 & 3) << 4) | (b1 >> 4) < 64 && ((c0 & 3) << 4) | (c1 >> 4) < 64) by (bit_vector);
    assert(((b1 & 15) << 2) | (b2 >> 6) < 64 && ((c1 & 15) << 2) | (c2 >> 6) < 64) by (bit_vector);
    lemma_b64_char_injective(b0 >> 2, c0 >> 2);
    lemma_b64_char_injective(((b0 & 3) << 4) | (b1 >> 4), ((c0 & 3) << 4) | (c1 >> 4));
    lemma_b64_char_injective(((b1 & 15) << 2) | (b2 >> 6), ((c1 & 15) << 2) | (c2 >> 6));
    lemma_b64_char_injective(b2 & 63, c2 & 63);
    assert(b0 == c0 && b1 == c1 && b2 == c2) by (bit_vector)
        requires
            b0 >> 2 == c0 >> 2,
            ((b0 & 3) << 4) | (b1 >> 4) == ((c0 & 3) << 4) | (c1 >> 4),
            ((b1 & 15) << 2) | (b2 >> 6) == ((c1 & 15) << 2) | (c2 >> 6),
            b2 & 63 == c2 & 63,
    ;
    assert(b =~= c);
}

/// Relies on `fastrand::u64`: a number drawn from `low..high`.
#[verifier::external_body]
fn draw_between(low: u64, high: u64) -> (r: u64)
    requires
        low < high,
    ensures
        low <= r < high,
{
    fastrand::u64(low..high)
}

pub open spec fn digit_char(d: nat) -> char {
    (d + 48) as char
}

/// The decimal digits of `n`, without leading zeros.
pub open spec fn decimal_text(n: nat) -> Seq<char>
    decreases n,
{
    if n < 10 {
        seq![digit_char(n)]
    } else {
        decimal_text(n / 10).push(digit_char(n % 10))
    }
}

/// The decimal digits of `n`.
pub fn decimal_chars(n: u64) -> (r: Vec<char>)
    ensures
        r@ == decimal_text(n as nat),
    decreases n,
{
    let d: u8 = (n % 10) as u8;
    let c: char = (d + 48) as char;
    if n < 10 {
        let mut v: Vec<char> = Vec::new();
        v.push(c);
        proof {
            assert(v@ =~= seq![digit_char(n as nat)]);
        }
        v
    } else {
        let mut v = decimal_chars(n / 10);
        v.push(c);
        v
    }
}

/// Each character of `text` XOR-ed with the key character at the same
/// position, the key repeating; the low byte of each.
pub open spec fn xor_bytes(text: Seq<char>, key: Seq<char>) -> Seq<u8> {
    Seq::new(
        text.len(),
        |i: int| (((text[i] as u32) ^ (key[i % key.len() as int] as u32)) & 0xff) as u8,
    )
}

/// The obfuscated field for the drawn number `n`.
pub open spec fn obfuscation_of(n: u64, key: Seq<char>) -> Seq<char> {
    base64_standard(xor_bytes(decimal_text(n as nat), key))
}

pub open spec fn key_in_use(key: Option<&str>) -> Seq<char> {
    match key {
        Some(k) => k@,
        None => DEFAULT_KEY@,
    }
}

/// The obfuscated field for a given number and key.
pub fn obfuscate_with(random_value: u64, key: &str) -> (r: String)
    requires
        key@.len() > 0,
    ensures
        r@ == obfuscation_of(random_value, key@),
        r@.len() == 4 * ((decimal_text(random_value as nat).len() + 2) / 3),
{
    let text = decimal_chars(random_value);
    proof {
        reveal_with_fuel(pow10, 21);
        lemma_decimal_len_bound(random_value as nat, 20);
    }
    let klen = key.unicode_len();
    let mut bytes: Vec<u8> = Vec::new();
    let mut i: usize = 0;
    while i < text.len()
        invariant
            i <= text@.len(),
            klen == key@.len(),
            klen > 0,
            text@ == decimal_text(random_value as nat),
            text@.len() <= 20,
            bytes@.len() == i,
            forall|j: int| 0 <= j < i ==> #[trigger] bytes@[j] == xor_bytes(text@, key@)[j],
        decreases text@.len() - i,
    {
        let k: u32 = key.get_char(i % klen) as u32;
        let t: u32 = text[i] as u32;
        bytes.push(((t ^ k) & 0xff) as u8);
        i = i + 1;
    }
    assert(bytes@ =~= xor_bytes(text@, key@));
    proof {
        lemma_base64_len(bytes@);
    }
    encode_base64(&bytes)
}

/// A freshly drawn anti-automation value: a number drawn from `400..600`,
/// its digits XOR-ed with the key, base64-encoded. Each call draws anew.
pub fn generate_obfuscated_data(encryption_key_option: Option<&str>) -> (r: String)
    requires
        key_in_use(encryption_key_option).len() > 0,
    ensures
        exists|n: u64| 400 <= n < 600 && r@ == obfuscation_of(n, key_in_use(encryption_key_option)),
        r@.len() == 4,
{
    let key = match encryption_key_option {
        Some(k) => k,
        None => DEFAULT_KEY,
    };
    let n = draw_between(400, 600);
    proof {
        lemma_decimal_len(n as nat);
    }
    obfuscate_with(n, key)
}

pub open spec fn pow10(k: nat) -> nat
    decreases k,
{
    if k == 0 {
        1
    } else {
        10 * pow10((k - 1) as nat)
    }
}

proof fn lemma_decimal_len_bound(n: nat, k: nat)
    requires
        k >= 1,
        n < pow10(k),
    ensures
        decimal_text(n).len() <= k,
    decreases k,
{
    if n >= 10 {
        assert(k >= 2) by {
            if k == 1 {
                assert(pow10(1) == 10 * pow10(0));
            }
        }
        assert(n / 10 < pow10((k - 1) as nat));
        lemma_decimal_len_bound(n / 10, (k - 1) as nat);
    }
}

proof fn lemma_decimal_len(n: nat)
    ensures
        n < 10 ==> decimal_text(n).len() == 1,
        10 <= n < 100 ==> decimal_text(n).len() == 2,
        100 <= n < 1000 ==> decimal_text(n).len() == 3,
    decreases n,
{
    if n >= 10 {
        lemma_decimal_len(n / 10);
    }
}

/// Two draws give the same field only when they drew the same number, so
/// two calls need not agree: nothing is reused from one request to the next.
pub proof fn lemma_fields_differ_with_draws(n1: u64, n2: u64, key: Seq<char>)
    requires
        400 <= n1 < 600,
        400 <= n2 < 600,
        key.len() > 0,
    ensures
        obfuscation_of(n1, key) == obfuscation_of(n2, key) <==> n1 == n2,
{
    if n1 != n2 {
        lemma_distinct_draws_differ(n1, n2, key);
        lemma_decimal_len(n1 as nat);
        lemma_decimal_len(n2 as nat);
        let b1 = xor_bytes(decimal_text(n1 as nat), key);
        let b2 = xor_bytes(decimal_text(n2 as nat), key);
        if base64_standard(b1) == base64_standard(b2) {
            lemma_base64_three_injective(b1, b2);
        }
    }
}

/// Two different draws never give the same bytes to encode.
pub proof fn lemma_distinct_draws_differ(n1: u64, n2: u64, key: Seq<char>)
    requires
        400 <= n1 < 600,
        400 <= n2 < 600,
        n1 != n2,
        key.len() > 0,
    ensures
        xor_bytes(decimal_text(n1 as nat), key) != xor_bytes(decimal_text(n2 as nat), key),
{
    let t1 = decimal_text(n1 as nat);
    let t2 = decimal_text(n2 as nat);
    lemma_decimal_len(n1 as nat);
    lemma_decimal_len(n2 as nat);
    lemma_decimal_len(n1 as nat / 10);
    lemma_decimal_len(n2 as nat / 10);
    assert(t1 == decimal_text(n1 as nat / 10).push(digit_char(n1 as nat % 10)));
    assert(t2 == decimal_text(n2 as nat / 10).push(digit_char(n2 as nat % 10)));
    let a1 = decimal_text(n1 as nat / 100);
    let a2 = decimal_text(n2 as nat / 100);
    assert(decimal_text(n1 as nat / 10) == a1.push(digit_char((n1 as nat / 10) % 10))) by {
        assert((n1 as nat / 10) / 10 == n1 as nat / 100);
    }
    assert(decimal_text(n2 as nat / 10) == a2.push(digit_char((n2 as nat / 10) % 10))) by {
        assert((n2 as nat / 10) / 10 == n2 as nat / 100);
    }
    assert(forall|x: nat| x < 10 ==> (#[trigger] digit_char(x) as u32) == x + 48);
    let b1 = xor_bytes(t1, key);
    let b2 = xor_bytes(t2, key);
    if b1 == b2 {
        assert forall|i: int| 0 <= i < 3 implies t1[i] == t2[i] by {
            let k = key[i % key.len() as int] as u32;
            let d1 = t1[i] as u32;
            let d2 = t2[i] as u32;
            assert(b1[i] == b2[i]);
            assert(d1 < 256 && d2 < 256);
            assert((((d1 ^ k) & 0xff) as u8) == (((d2 ^ k) & 0xff) as u8) ==> d1 == d2) by (bit_vector)
                requires
                    d1 < 256,
                    d2 < 256,
            ;
        }
        assert(t1[0] == t2[0] && t1[1] == t2[1] && t1[2] == t2[2]);
        assert(n1 as nat / 100 == n2 as nat / 100);
        assert((n1 as nat / 10) % 10 == (n2 as nat / 10) % 10);
        assert(n1 as nat % 10 == n2 as nat % 10);
        assert(n1 == n2);
    }
}

/// The part of `s` before the first `c`, all of `s` when there is none.
pub open spec fn before_first(s: Seq<char>, c: char) -> Seq<char>
    decreases s.len(),
{
    if s.len() == 0 || s[0] == c {
        Seq::empty()
    } else {
        seq![s[0]] + before_first(s.subrange(1, s.len() as int), c)
    }
}

/// What follows the first `c`; `None` when there is none.
pub open spec fn after_first(s: Seq<char>, c: char) -> Option<Seq<char>>
    decreases s.len(),
{
    if s.len() == 0 {
        None
    } else if s[0] == c {
        Some(s.subrange(1, s.len() as int))
    } else {
        after_first(s.subrange(1, s.len() as int), c)
    }
}

pub open spec fn email_local(email: Seq<char>) -> Seq<char> {
    before_first(email, '@')
}

pub open spec fn email_domain(email: Seq<char>) -> Seq<char> {
    match after_first(email, '@') {
        Some(rest) => before_first(rest, '@'),
        None => Seq::empty(),
    }
}

/// The address as logs show it: the first three characters of the local
/// part, a star for each further one, then `.@` and the domain (the text up
/// to a second `@`).
pub open spec fn masked_email(email: Seq<char>) -> Seq<char> {
    let local = email_local(email);
    let shown = if local.len() < 3 {
        local.len()
    } else {
        3
    };
    local.take(shown as int) + Seq::new((local.len() - shown) as nat, |i: int| '*') + seq!['.', '@']
        + email_domain(email)
}

/// Splits at the first `c`: what comes before it, and the index just after
/// it (`None` when there is no `c`).
fn split_first(s: &str, c: char) -> (r: (String, Option<usize>))
    ensures
        r.0@ == before_first(s@, c),
        match r.1 {
            Some(k) => 0 < k <= s@.len() && after_first(s@, c) == Some(s@.subrange(k as int, s@.len() as int)),
            None => after_first(s@, c) is None,
        },
{
    let n = s.unicode_len();
    let mut head = String::new();
    let mut i: usize = 0;
    assert(s@.subrange(0, n as int) =~= s@);
    assert(head@ + before_first(s@, c) =~= before_first(s@, c));
    while i < n
        invariant
            i <= n,
            n == s@.len(),
            head@ + before_first(s@.subrange(i as int, n as int), c) == before_first(s@, c),
            after_first(s@.subrange(i as int, n as int), c) == after_first(s@, c),
        decreases n - i,
    {
        let ch = s.get_char(i);
        let ghost rest = s@.subrange(i as int, n as int);
        assert(rest[0] == ch);
        assert(rest.subrange(1, rest.len() as int) =~= s@.subrange(i + 1, n as int));
        if ch == c {
            assert(head@ + Seq::<char>::empty() =~= head@);
            return (head, Some(i + 1));
        }
        assert(head@.push(ch) + before_first(s@.subrange(i + 1, n as int), c) =~= head@ + (seq![ch]
            + before_first(s@.subrange(i + 1, n as int), c)));
        push_char(&mut head, ch);
        i = i + 1;
    }
    assert(s@.subrange(n as int, n as int) =~= Seq::<char>::empty());
    assert(head@ + Seq::<char>::empty() =~= head@);
    (head, None)
}

/// Masks an e-mail address for display.
pub fn obfuscate_email(email: &str) -> (r: String)
    ensures
        r@ == masked_email(email@),
{
    let (local, after) = split_first(email, '@');
    let domain = match after {
        Some(k) => {
            let rest = email.substring_char(k, email.unicode_len());
            split_first(rest, '@').0
        },
        None => String::new(),
    };
    let n = local.as_str().unicode_len();
    let shown: usize = if n < 3 {
        n
    } else {
        3
    };
    let mut out = String::from_str(local.as_str().substring_char(0, shown));
    let mut stars: usize = 0;
    while stars < n - shown
        invariant
            stars <= n - shown,
            shown <= n,
            out@ == local@.take(shown as int) + Seq::new(stars as nat, |i: int| '*'),
        decreases n - shown - stars,
    {
        assert(local@.take(shown as int) + Seq::new((stars + 1) as nat, |i: int| '*') =~= (
        local@.take(shown as int) + Seq::new(stars as nat, |i: int| '*')).push('*'));
        push_char(&mut out, '*');
        stars = stars + 1;
    }
    push_char(&mut out, '.');
    push_char(&mut out, '@');
    out.append(domain.as_str());
    assert(out@ =~= masked_email(email@));
    out
}

} // verus!
