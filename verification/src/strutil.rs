//! Verified character-level string operations used by the credential
//! extractor: equality, ASCII-case-insensitive equality, and whitespace
//! trimming, each proved against a sequence-level specification.

use vstd::prelude::*;

verus! {

/// The whitespace characters trimmed around a bearer token.
pub open spec fn is_wsp(c: char) -> bool {
    c == ' ' || c == '\t' || c == '\r' || c == '\n'
}

/// `s` with leading whitespace removed.
pub open spec fn trim_start_spec(s: Seq<char>) -> Seq<char>
    decreases s.len(),
{
    if s.len() > 0 && is_wsp(s[0]) {
        trim_start_spec(s.drop_first())
    } else {
        s
    }
}

/// `s` with trailing whitespace removed.
pub open spec fn trim_end_spec(s: Seq<char>) -> Seq<char>
    decreases s.len(),
{
    if s.len() > 0 && is_wsp(s.last()) {
        trim_end_spec(s.drop_last())
    } else {
        s
    }
}

/// `s` with surrounding whitespace removed.
pub open spec fn trim_spec(s: Seq<char>) -> Seq<char> {
    trim_end_spec(trim_start_spec(s))
}

/// Lower-cased code point of `c`, folding only the ASCII range.
pub open spec fn lower_code(c: char) -> int {
    if 'A' <= c && c <= 'Z' {
        c as u32 as int + 32
    } else {
        c as u32 as int
    }
}

/// Character sequences equal up to ASCII case.
pub open spec fn seq_eq_ci(x: Seq<char>, y: Seq<char>) -> bool {
    x.len() == y.len() && (forall|i: int| 0 <= i < x.len() ==> lower_code(x[i]) == lower_code(
        y[i],
    ))
}

fn is_wsp_char(c: char) -> (r: bool)
    ensures
        r == is_wsp(c),
{
    c == ' ' || c == '\t' || c == '\r' || c == '\n'
}

/// Character-for-character string equality.
pub fn str_eq(a: &str, b: &str) -> (r: bool)
    ensures
        r == (a@ == b@),
{
    let alen = a.unicode_len();
    let blen = b.unicode_len();
    if alen != blen {
        return false;
    }
    let mut i: usize = 0;
    while i < alen
        invariant
            alen == a@.len(),
            blen == b@.len(),
            alen == blen,
            i <= alen,
            forall|j: int| 0 <= j < i ==> a@[j] == b@[j],
        decreases alen - i,
    {
        if a.get_char(i) != b.get_char(i) {
            return false;
        }
        i += 1;
    }
    proof {
        assert(a@ =~= b@);
    }
    true
}

fn lower_code_exec(c: char) -> (r: u32)
    ensures
        r == lower_code(c),
{
    let code = c as u32;
    if 65 <= code && code <= 90 {
        code + 32
    } else {
        code
    }
}

/// String equality up to ASCII case.
pub fn str_eq_ignore_ascii_case(a: &str, b: &str) -> (r: bool)
    ensures
        r == seq_eq_ci(a@, b@),
{
    let alen = a.unicode_len();
    let blen = b.unicode_len();
    if alen != blen {
        return false;
    }
    let mut i: usize = 0;
    while i < alen
        invariant
            alen == a@.len(),
            blen == b@.len(),
            alen == blen,
            i <= alen,
            forall|j: int| 0 <= j < i ==> lower_code(a@[j]) == lower_code(b@[j]),
        decreases alen - i,
    {
        if lower_code_exec(a.get_char(i)) != lower_code_exec(b.get_char(i)) {
            return false;
        }
        i += 1;
    }
    true
}

/// `s` with surrounding whitespace removed, as a fresh `String`.
pub fn trim_str(s: &str) -> (r: String)
    ensures
        r@ == trim_spec(s@),
{
    let len = s.unicode_len();
    let mut a: usize = 0;
    proof {
        assert(s@.skip(0) =~= s@);
    }
    while a < len && is_wsp_char(s.get_char(a))
        invariant
            len == s@.len(),
            a <= len,
            trim_start_spec(s@) == trim_start_spec(s@.skip(a as int)),
        decreases len - a,
    {
        proof {
            assert(s@.skip(a as int).drop_first() =~= s@.skip(a as int + 1));
        }
        a += 1;
    }
    proof {
        assert(trim_start_spec(s@.skip(a as int)) == s@.skip(a as int)) by {
            if a < len {
                assert(!is_wsp(s@.skip(a as int)[0]));
            } else {
                assert(s@.skip(a as int) =~= Seq::<char>::empty());
            }
        }
        assert(s@.skip(a as int) =~= s@.subrange(a as int, len as int));
    }
    let mut b: usize = len;
    while b > a && is_wsp_char(s.get_char(b - 1))
        invariant
            len == s@.len(),
            a <= b <= len,
            trim_start_spec(s@) == s@.subrange(a as int, len as int),
            trim_end_spec(s@.subrange(a as int, len as int)) == trim_end_spec(
                s@.subrange(a as int, b as int),
            ),
        decreases b,
    {
        proof {
            assert(s@.subrange(a as int, b as int).last() == s@[b - 1]);
            assert(s@.subrange(a as int, b as int).drop_last() =~= s@.subrange(
                a as int,
                b as int - 1,
            ));
        }
        b -= 1;
    }
    proof {
        assert(trim_end_spec(s@.subrange(a as int, b as int)) == s@.subrange(a as int, b as int))
            by {
            if b > a {
                assert(!is_wsp(s@.subrange(a as int, b as int).last()));
            } else {
                assert(s@.subrange(a as int, b as int) =~= Seq::<char>::empty());
            }
        }
    }
    let out = s.substring_char(a, b);
    String::from_str(out)
}

} // verus!
