use vstd::prelude::*;

use crate::error::IntErrorKind;
use crate::numbers::{decimal_u64, parse_u64};
use crate::text::push_char;

verus! {

/// A span written as days, hours and minutes (`2d 5h 30m`).
#[derive(Debug, Clone, Copy, PartialEq, Eq, Structural)]
pub struct DurationParts {
    pub days: u64,
    pub hours: u64,
    pub minutes: u64,
}

/// The characters `char::is_whitespace` accepts (Unicode `White_Space`).
pub open spec fn is_white(c: char) -> bool {
    let u = c as u32;
    (0x9 <= u && u <= 0xd) || u == 0x20 || u == 0x85 || u == 0xa0 || u == 0x1680 || (0x2000 <= u
        && u <= 0x200a) || u == 0x2028 || u == 0x2029 || u == 0x202f || u == 0x205f || u == 0x3000
}

fn white(c: char) -> (r: bool)
    ensures
        r == is_white(c),
{
    let u = c as u32;
    (0x9 <= u && u <= 0xd) || u == 0x20 || u == 0x85 || u == 0xa0 || u == 0x1680 || (0x2000 <= u
        && u <= 0x200a) || u == 0x2028 || u == 0x2029 || u == 0x202f || u == 0x205f || u == 0x3000
}

/// What one word does to the parts read so far: a number ending in `d`, `h`
/// or `m` sets that unit; any other word is ignored.
pub open spec fn apply_word(st: Result<DurationParts, IntErrorKind>, w: Seq<char>) -> Result<
    DurationParts,
    IntErrorKind,
> {
    match st {
        Err(e) => Err(e),
        Ok(p) => if w.len() > 0 && (w.last() == 'd' || w.last() == 'h' || w.last() == 'm') {
            match decimal_u64(w.drop_last()) {
                Err(e) => Err(e),
                Ok(v) => Ok(
                    if w.last() == 'd' {
                        DurationParts { days: v, ..p }
                    } else if w.last() == 'h' {
                        DurationParts { hours: v, ..p }
                    } else {
                        DurationParts { minutes: v, ..p }
                    },
                ),
            }
        } else {
            Ok(p)
        },
    }
}

/// Reads the rest of `s`, `cur` being the word already begun, from state `st`.
pub open spec fn read_words(st: Result<DurationParts, IntErrorKind>, cur: Seq<char>, s: Seq<char>) -> Result<
    DurationParts,
    IntErrorKind,
>
    decreases s.len(),
{
    if s.len() == 0 {
        if cur.len() > 0 {
            apply_word(st, cur)
        } else {
            st
        }
    } else if is_white(s[0]) {
        let st2 = if cur.len() > 0 {
            apply_word(st, cur)
        } else {
            st
        };
        read_words(st2, Seq::empty(), s.subrange(1, s.len() as int))
    } else {
        read_words(st, cur.push(s[0]), s.subrange(1, s.len() as int))
    }
}

pub open spec fn zero_parts() -> DurationParts {
    DurationParts { days: 0, hours: 0, minutes: 0 }
}

/// The span a text writes: its whitespace-separated words read in order; the
/// first bad number is the error.
pub open spec fn duration_of(s: Seq<char>) -> Result<DurationParts, IntErrorKind> {
    read_words(Ok(zero_parts()), Seq::empty(), s)
}

proof fn lemma_read_err(e: IntErrorKind, cur: Seq<char>, s: Seq<char>)
    ensures
        read_words(Err(e), cur, s) == Err::<DurationParts, IntErrorKind>(e),
    decreases s.len(),
{
    if s.len() > 0 {
        if is_white(s[0]) {
            lemma_read_err(e, Seq::empty(), s.subrange(1, s.len() as int));
        } else {
            lemma_read_err(e, cur.push(s[0]), s.subrange(1, s.len() as int));
        }
    }
}

fn apply_word_exec(st: DurationParts, w: &String) -> (r: Result<DurationParts, IntErrorKind>)
    ensures
        r == apply_word(Ok(st), w@),
{
    let n = w.as_str().unicode_len();
    if n == 0 {
        return Ok(st);
    }
    let last = w.as_str().get_char(n - 1);
    if last != 'd' && last != 'h' && last != 'm' {
        return Ok(st);
    }
    let body = w.as_str().substring_char(0, n - 1);
    assert(body@ =~= w@.drop_last());
    let v = parse_u64(body)?;
    if last == 'd' {
        Ok(DurationParts { days: v, ..st })
    } else if last == 'h' {
        Ok(DurationParts { hours: v, ..st })
    } else {
        Ok(DurationParts { minutes: v, ..st })
    }
}

/// Reads a span such as `1d 2h 30m`; units may come in any order, a later one
/// replaces an earlier one of the same unit, and other words are ignored.
pub fn parse_duration(s: &str) -> (r: Result<DurationParts, IntErrorKind>)
    ensures
        r == duration_of(s@),
{
    let n = s.unicode_len();
    let mut parts = DurationParts { days: 0, hours: 0, minutes: 0 };
    let mut cur = String::new();
    let mut i: usize = 0;
    assert(s@.subrange(0, n as int) =~= s@);
    while i < n
        invariant
            i <= n,
            n == s@.len(),
            duration_of(s@) == read_words(Ok(parts), cur@, s@.subrange(i as int, n as int)),
        decreases n - i,
    {
        let c = s.get_char(i);
        let ghost rest = s@.subrange(i as int, n as int);
        assert(rest[0] == c);
        assert(rest.subrange(1, rest.len() as int) =~= s@.subrange(i + 1, n as int));
        if white(c) {
            if cur.as_str().unicode_len() > 0 {
                match apply_word_exec(parts, &cur) {
                    Ok(p) => {
                        parts = p;
                    },
                    Err(e) => {
                        proof {
                            lemma_read_err(e, Seq::empty(), s@.subrange(i + 1, n as int));
                        }
                        return Err(e);
                    },
                }
            }
            cur = String::new();
        } else {
            push_char(&mut cur, c);
        }
        i = i + 1;
    }
    if cur.as_str().unicode_len() > 0 {
        apply_word_exec(parts, &cur)
    } else {
        Ok(parts)
    }
}

} // verus!
