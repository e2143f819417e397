use vstd::prelude::*;

verus! {

/// Relies on `String::push`: appends one character.
#[verifier::external_body]
pub(crate) fn push_char(s: &mut String, c: char)
    ensures
        final(s)@ == old(s)@.push(c),
{
    s.push(c)
}

/// `s` with every backslash taken out.
pub open spec fn without_backslashes(s: Seq<char>) -> Seq<char> {
    s.filter(|c: char| c != '\\')
}

pub open spec fn starts_with_u0026(s: Seq<char>) -> bool {
    &&& s.len() >= 5
    &&& s[0] == 'u'
    &&& s[1] == '0'
    &&& s[2] == '0'
    &&& s[3] == '2'
    &&& s[4] == '6'
}

/// `s` with each `u0026`, found from left to right without overlap, turned
/// into `&`.
pub open spec fn with_ampersands(s: Seq<char>) -> Seq<char>
    decreases s.len(),
{
    if s.len() == 0 {
        s
    } else if starts_with_u0026(s) {
        seq!['&'] + with_ampersands(s.subrange(5, s.len() as int))
    } else {
        seq![s[0]] + with_ampersands(s.subrange(1, s.len() as int))
    }
}

/// What the escape clean-up makes of a captured value.
pub open spec fn unescaped(s: Seq<char>) -> Seq<char> {
    with_ampersands(without_backslashes(s))
}

pub open spec fn has_u0026_at(s: Seq<char>, i: int) -> bool {
    starts_with_u0026(s.subrange(i, s.len() as int))
}

/// Text with no backslash and no `u0026` is left as it is.
pub proof fn lemma_unescaped_plain(s: Seq<char>)
    requires
        !s.contains('\\'),
        forall|i: int| 0 <= i < s.len() ==> !#[trigger] has_u0026_at(s, i),
    ensures
        unescaped(s) == s,
{
    assert(without_backslashes(s) == s) by {
        lemma_filter_keeps_all(s);
    }
    lemma_ampersands_plain(s);
}

proof fn lemma_filter_keeps_all(s: Seq<char>)
    requires
        !s.contains('\\'),
    ensures
        s.filter(|c: char| c != '\\') == s,
    decreases s.len(),
{
    reveal(Seq::filter);
    if s.len() > 0 {
        let t = s.drop_last();
        assert(!t.contains('\\')) by {
            if t.contains('\\') {
                let j = choose|j: int| 0 <= j < t.len() && t[j] == '\\';
                assert(s[j] == '\\');
            }
        }
        lemma_filter_keeps_all(t);
        assert(s.last() != '\\') by {
            assert(s[s.len() - 1] == s.last());
        }
        assert(s =~= t.push(s.last()));
    }
}

proof fn lemma_ampersands_plain(s: Seq<char>)
    requires
        forall|i: int| 0 <= i < s.len() ==> !#[trigger] has_u0026_at(s, i),
    ensures
        with_ampersands(s) == s,
    decreases s.len(),
{
    if s.len() > 0 {
        let t = s.subrange(1, s.len() as int);
        assert(!starts_with_u0026(s)) by {
            assert(!has_u0026_at(s, 0));
            assert(s.subrange(0, s.len() as int) =~= s);
        }
        assert forall|i: int| 0 <= i < t.len() implies !#[trigger] has_u0026_at(t, i) by {
            assert(!has_u0026_at(s, i + 1));
            assert(t.subrange(i, t.len() as int) =~= s.subrange(i + 1, s.len() as int));
        }
        lemma_ampersands_plain(t);
        assert(s =~= seq![s[0]] + t);
    }
}

/// Takes out backslashes and turns each `u0026` into `&`.
pub fn unescape(s: &str) -> (r: String)
    ensures
        r@ == unescaped(s@),
{
    let n = s.unicode_len();
    let mut stripped: Vec<char> = Vec::new();
    let mut i: usize = 0;
    while i < n
        invariant
            i <= n,
            n == s@.len(),
            stripped@ == without_backslashes(s@.subrange(0, i as int)),
        decreases n - i,
    {
        let c = s.get_char(i);
        proof {
            let p = s@.subrange(0, i as int);
            assert(s@.subrange(0, i + 1) =~= p.push(c));
            reveal(Seq::filter);
            assert(p.push(c).drop_last() =~= p);
        }
        if c != '\\' {
            stripped.push(c);
        }
        i = i + 1;
    }
    assert(s@.subrange(0, n as int) =~= s@);
    let mut out = String::new();
    let m = stripped.len();
    let mut j: usize = 0;
    proof {
        assert(stripped@.subrange(0, m as int) =~= stripped@);
        assert(out@ + with_ampersands(stripped@) =~= with_ampersands(stripped@));
    }
    while j < m
        invariant
            j <= m,
            m == stripped@.len(),
            out@ + with_ampersands(stripped@.subrange(j as int, m as int))
                == with_ampersands(stripped@),
        decreases m - j,
    {
        let rest = Ghost(stripped@.subrange(j as int, m as int));
        if m - j >= 5 && stripped[j] == 'u' && stripped[j + 1] == '0' && stripped[j + 2] == '0'
            && stripped[j + 3] == '2' && stripped[j + 4] == '6' {
            proof {
                assert(starts_with_u0026(rest@));
                assert(rest@.subrange(5, rest@.len() as int) =~= stripped@.subrange(
                    j + 5,
                    m as int,
                ));
                assert(out@.push('&') + with_ampersands(stripped@.subrange(j + 5, m as int))
                    =~= out@ + with_ampersands(rest@));
            }
            push_char(&mut out, '&');
            j = j + 5;
        } else {
            let c = stripped[j];
            proof {
                assert(!starts_with_u0026(rest@));
                assert(rest@.subrange(1, rest@.len() as int) =~= stripped@.subrange(
                    j + 1,
                    m as int,
                ));
                assert(out@.push(c) + with_ampersands(stripped@.subrange(j + 1, m as int))
                    =~= out@ + with_ampersands(rest@));
            }
            push_char(&mut out, c);
            j = j + 1;
        }
    }
    proof {
        assert(stripped@.subrange(m as int, m as int) =~= Seq::<char>::empty());
        assert(out@ + Seq::<char>::empty() =~= out@);
    }
    out
}

} // verus!
