//! Small verified building blocks on byte slices: equality, prefix tests,
//! ASCII case mapping, splitting, substring search, and decimal
//! conversion. The parser and the serializer are built from these.

use vstd::prelude::*;

verus! {

/// Byte-for-byte equality of two slices.
pub fn bytes_eq(a: &[u8], b: &[u8]) -> (r: bool)
    ensures
        r == (a@ == b@),
{
    if a.len() != b.len() {
        return false;
    }
    let mut i: usize = 0;
    while i < a.len()
        invariant
            a@.len() == b@.len(),
            i <= a@.len(),
            forall|j: int| 0 <= j < i ==> a@[j] == b@[j],
        decreases a@.len() - i,
    {
        if a[i] != b[i] {
            return false;
        }
        i += 1;
    }
    proof {
        assert(a@ =~= b@);
    }
    true
}

/// `p` is a prefix of `s`.
pub open spec fn spec_starts_with(s: Seq<u8>, p: Seq<u8>) -> bool {
    p.len() <= s.len() && s.subrange(0, p.len() as int) == p
}

/// Prefix test on byte slices.
pub fn starts_with(s: &[u8], p: &[u8]) -> (r: bool)
    ensures
        r == spec_starts_with(s@, p@),
{
    if p.len() > s.len() {
        return false;
    }
    let mut i: usize = 0;
    while i < p.len()
        invariant
            p@.len() <= s@.len(),
            i <= p@.len(),
            forall|j: int| 0 <= j < i ==> s@[j] == p@[j],
        decreases p@.len() - i,
    {
        if s[i] != p[i] {
            proof {
                assert(s@.subrange(0, p@.len() as int)[i as int] == s@[i as int]);
            }
            return false;
        }
        i += 1;
    }
    proof {
        assert(s@.subrange(0, p@.len() as int) =~= p@);
    }
    true
}

/// Copy of `s` without its first `n` bytes.
pub fn bytes_skip(s: &[u8], n: usize) -> (r: Vec<u8>)
    requires
        n <= s@.len(),
    ensures
        r@ == s@.skip(n as int),
{
    let mut r: Vec<u8> = Vec::new();
    let mut i: usize = n;
    while i < s.len()
        invariant
            n <= i <= s@.len(),
            r@ == s@.subrange(n as int, i as int),
        decreases s@.len() - i,
    {
        let b = s[i];
        r.push(b);
        proof {
            assert(r@ =~= s@.subrange(n as int, i + 1 as int));
        }
        i += 1;
    }
    proof {
        assert(s@.subrange(n as int, s@.len() as int) =~= s@.skip(n as int));
    }
    r
}

/// Copy of the first `n` bytes of `s`.
pub fn bytes_take(s: &[u8], n: usize) -> (r: Vec<u8>)
    requires
        n <= s@.len(),
    ensures
        r@ == s@.take(n as int),
{
    let mut r: Vec<u8> = Vec::new();
    let mut i: usize = 0;
    while i < n
        invariant
            i <= n <= s@.len(),
            r@ == s@.subrange(0, i as int),
        decreases n - i,
    {
        let b = s[i];
        r.push(b);
        proof {
            assert(r@ =~= s@.subrange(0, i + 1 as int));
        }
        i += 1;
    }
    proof {
        assert(s@.subrange(0, n as int) =~= s@.take(n as int));
    }
    r
}

/// Copy of a whole slice.
pub fn bytes_to_vec(s: &[u8]) -> (r: Vec<u8>)
    ensures
        r@ == s@,
{
    let r = bytes_skip(s, 0);
    proof {
        assert(s@.skip(0) =~= s@);
    }
    r
}

/// One byte mapped to ASCII lower case.
pub open spec fn spec_lower_byte(b: u8) -> u8 {
    if 65 <= b <= 90 {
        (b + 32) as u8
    } else {
        b
    }
}

/// One byte mapped to ASCII upper case.
pub open spec fn spec_upper_byte(b: u8) -> u8 {
    if 97 <= b <= 122 {
        (b - 32) as u8
    } else {
        b
    }
}

/// A byte sequence mapped to ASCII lower case.
pub open spec fn spec_lower(s: Seq<u8>) -> Seq<u8> {
    s.map_values(|b: u8| spec_lower_byte(b))
}

/// A byte sequence mapped to ASCII upper case.
pub open spec fn spec_upper(s: Seq<u8>) -> Seq<u8> {
    s.map_values(|b: u8| spec_upper_byte(b))
}

/// ASCII lower-case copy of a slice.
pub fn ascii_lower(s: &[u8]) -> (r: Vec<u8>)
    ensures
        r@ == spec_lower(s@),
{
    let mut r: Vec<u8> = Vec::new();
    let mut i: usize = 0;
    while i < s.len()
        invariant
            i <= s@.len(),
            r@.len() == i,
            forall|j: int| 0 <= j < i ==> r@[j] == spec_lower_byte(s@[j]),
        decreases s@.len() - i,
    {
        let b = s[i];
        if 65 <= b && b <= 90 {
            r.push(b + 32);
        } else {
            r.push(b);
        }
        i += 1;
    }
    proof {
        assert(r@ =~= spec_lower(s@));
    }
    r
}

/// ASCII upper-case copy of a slice.
pub fn ascii_upper(s: &[u8]) -> (r: Vec<u8>)
    ensures
        r@ == spec_upper(s@),
{
    let mut r: Vec<u8> = Vec::new();
    let mut i: usize = 0;
    while i < s.len()
        invariant
            i <= s@.len(),
            r@.len() == i,
            forall|j: int| 0 <= j < i ==> r@[j] == spec_upper_byte(s@[j]),
        decreases s@.len() - i,
    {
        let b = s[i];
        if 97 <= b && b <= 122 {
            r.push(b - 32);
        } else {
            r.push(b);
        }
        i += 1;
    }
    proof {
        assert(r@ =~= spec_upper(s@));
    }
    r
}

/// Tokens of `s` split at every occurrence of `sep`, as Rust's
/// `split` yields them: adjacent separators give empty tokens, and
/// there is always at least one token.
pub open spec fn spec_split(s: Seq<u8>, sep: u8) -> Seq<Seq<u8>>
    decreases s.len(),
{
    if s.len() == 0 {
        seq![Seq::<u8>::empty()]
    } else if s[0] == sep {
        seq![Seq::<u8>::empty()] + spec_split(s.skip(1), sep)
    } else {
        let rest = spec_split(s.skip(1), sep);
        seq![seq![s[0]] + rest[0]] + rest.skip(1)
    }
}

pub proof fn lemma_split_nonempty(s: Seq<u8>, sep: u8)
    ensures
        spec_split(s, sep).len() >= 1,
    decreases s.len(),
{
    if s.len() > 0 {
        lemma_split_nonempty(s.skip(1), sep);
    }
}

/// Split a slice at every occurrence of `sep`.
pub fn split_bytes(s: &[u8], sep: u8) -> (r: Vec<Vec<u8>>)
    ensures
        r.deep_view() == spec_split(s@, sep),
{
    let mut toks: Vec<Vec<u8>> = Vec::new();
    let mut cur: Vec<u8> = Vec::new();
    let mut i: usize = 0;
    proof {
        assert(s@.skip(0) =~= s@);
    }
    while i < s.len()
        invariant
            i <= s@.len(),
            spec_split(s@, sep) =~= toks.deep_view() + seq![
                cur@ + spec_split(s@.skip(i as int), sep)[0],
            ] + spec_split(s@.skip(i as int), sep).skip(1),
        decreases s@.len() - i,
    {
        let ghost pre_toks = toks.deep_view();
        let ghost pre_cur = cur@;
        let ghost tail = spec_split(s@.skip(i as int), sep);
        let ghost tail1 = spec_split(s@.skip(i + 1 as int), sep);
        proof {
            assert(s@.skip(i as int).skip(1) =~= s@.skip(i + 1 as int));
            assert(s@.skip(i as int)[0] == s@[i as int]);
            lemma_split_nonempty(s@.skip(i + 1 as int), sep);
        }
        let b = s[i];
        if b == sep {
            toks.push(cur);
            cur = Vec::new();
            proof {
                assert(tail =~= seq![Seq::<u8>::empty()] + tail1);
                assert(tail[0] =~= Seq::<u8>::empty());
                assert(pre_cur + tail[0] =~= pre_cur);
                assert(tail.skip(1) =~= tail1);
                assert(tail1 =~= seq![tail1[0]] + tail1.skip(1));
                assert(toks.deep_view() =~~= pre_toks + seq![pre_cur]);
                assert(spec_split(s@, sep) =~= toks.deep_view() + seq![
                    cur@ + tail1[0],
                ] + tail1.skip(1));
            }
        } else {
            cur.push(b);
            proof {
                assert(tail =~= seq![seq![s@[i as int]] + tail1[0]] + tail1.skip(1));
                assert(tail[0] =~= seq![s@[i as int]] + tail1[0]);
                assert(cur@ =~= pre_cur + seq![s@[i as int]]);
                assert(pre_cur + tail[0] =~= cur@ + tail1[0]);
                assert(tail.skip(1) =~= tail1.skip(1));
                assert(spec_split(s@, sep) =~= toks.deep_view() + seq![
                    cur@ + tail1[0],
                ] + tail1.skip(1));
            }
        }
        i += 1;
    }
    proof {
        assert(s@.skip(s@.len() as int) =~= Seq::<u8>::empty());
        let tail = spec_split(s@.skip(s@.len() as int), sep);
        assert(tail =~= seq![Seq::<u8>::empty()]);
        assert(cur@ + tail[0] =~= cur@);
        assert(tail.skip(1) =~= Seq::<Seq<u8>>::empty());
        assert(spec_split(s@, sep) =~= toks.deep_view() + seq![cur@]);
    }
    let ghost pre_toks = toks.deep_view();
    let ghost last = cur@;
    toks.push(cur);
    proof {
        assert(toks.deep_view() =~~= pre_toks + seq![last]);
        assert(toks.deep_view() =~= spec_split(s@, sep));
    }
    toks
}

/// `pat` occurs in `s` at index `i`.
pub open spec fn spec_matches_at(s: Seq<u8>, pat: Seq<u8>, i: int) -> bool {
    0 <= i && i + pat.len() <= s.len() && s.subrange(i, i + pat.len()) == pat
}

/// Index of the first occurrence of `pat` in `s` at or after `from`.
pub open spec fn spec_find(s: Seq<u8>, pat: Seq<u8>, from: int) -> Option<int>
    decreases s.len() + 1 - from,
    when 0 <= from
{
    if from + pat.len() > s.len() {
        None
    } else if spec_matches_at(s, pat, from) {
        Some(from)
    } else {
        spec_find(s, pat, from + 1)
    }
}

/// `pat` occurs somewhere in `s`.
pub open spec fn spec_contains(s: Seq<u8>, pat: Seq<u8>) -> bool {
    spec_find(s, pat, 0) is Some
}

/// A found index is a real match at or after the starting point.
pub proof fn lemma_find_matches(s: Seq<u8>, pat: Seq<u8>, from: int)
    requires
        0 <= from,
        spec_find(s, pat, from) is Some,
    ensures
        spec_matches_at(s, pat, spec_find(s, pat, from)->Some_0),
        from <= spec_find(s, pat, from)->Some_0,
    decreases s.len() + 1 - from,
{
    if from + pat.len() > s.len() {
    } else if spec_matches_at(s, pat, from) {
    } else {
        lemma_find_matches(s, pat, from + 1);
    }
}

/// Does `pat` occur in `s` at index `i`?
fn matches_at(s: &[u8], pat: &[u8], i: usize) -> (r: bool)
    requires
        i + pat@.len() <= s@.len(),
    ensures
        r == spec_matches_at(s@, pat@, i as int),
{
    let s_len = s.len();
    let mut j: usize = 0;
    while j < pat.len()
        invariant
            i + pat@.len() <= s@.len(),
            s@.len() == s_len,
            j <= pat@.len(),
            forall|k: int| 0 <= k < j ==> s@[i + k] == pat@[k],
        decreases pat@.len() - j,
    {
        if s[i + j] != pat[j] {
            proof {
                assert(s@.subrange(i as int, i + pat@.len())[j as int] == s@[i + j]);
            }
            return false;
        }
        j += 1;
    }
    proof {
        assert(s@.subrange(i as int, i + pat@.len()) =~= pat@);
    }
    true
}

/// Index of the first occurrence of `pat` in `s`, if any.
pub fn find_sub(s: &[u8], pat: &[u8]) -> (r: Option<usize>)
    ensures
        match r {
            Some(i) => spec_find(s@, pat@, 0) == Some(i as int),
            None => spec_find(s@, pat@, 0) is None,
        },
{
    if pat.len() > s.len() {
        return None;
    }
    let last = s.len() - pat.len();
    let mut i: usize = 0;
    loop
        invariant
            pat@.len() <= s@.len(),
            last == s@.len() - pat@.len(),
            i <= last,
            spec_find(s@, pat@, 0) == spec_find(s@, pat@, i as int),
        decreases last - i,
    {
        if matches_at(s, pat, i) {
            return Some(i);
        }
        if i == last {
            proof {
                assert(spec_find(s@, pat@, i + 1 as int) is None);
            }
            return None;
        }
        i += 1;
    }
}

/// `pat` occurs somewhere in `s`.
pub fn contains_sub(s: &[u8], pat: &[u8]) -> (r: bool)
    ensures
        r == spec_contains(s@, pat@),
{
    find_sub(s, pat).is_some()
}

/// A decimal digit.
pub open spec fn spec_is_digit(b: u8) -> bool {
    48 <= b <= 57
}

/// Every byte of `s` is a decimal digit.
pub open spec fn spec_all_digits(s: Seq<u8>) -> bool {
    forall|i: int| 0 <= i < s.len() ==> spec_is_digit(#[trigger] s[i])
}

/// The number written in `s`, read as decimal digits.
pub open spec fn spec_dec_value(s: Seq<u8>) -> int
    decreases s.len(),
{
    if s.len() == 0 {
        0
    } else {
        spec_dec_value(s.drop_last()) * 10 + (s.last() - 48)
    }
}

/// What parsing `s` as a non-negative decimal number that fits in
/// `usize` yields: the value, or nothing when `s` is empty, holds a
/// non-digit, or names a number above `usize::MAX`.
pub open spec fn spec_parse_decimal(s: Seq<u8>) -> Option<int> {
    if s.len() > 0 && spec_all_digits(s) && spec_dec_value(s) <= usize::MAX {
        Some(spec_dec_value(s))
    } else {
        None
    }
}

proof fn lemma_dec_value_bounds(s: Seq<u8>)
    requires
        spec_all_digits(s),
    ensures
        spec_dec_value(s) >= 0,
    decreases s.len(),
{
    if s.len() > 0 {
        assert(spec_all_digits(s.drop_last())) by {
            assert(forall|i: int| 0 <= i < s.len() - 1 ==> s.drop_last()[i] == s[i]);
        }
        lemma_dec_value_bounds(s.drop_last());
    }
}

proof fn lemma_dec_value_grows(s: Seq<u8>, i: int)
    requires
        spec_all_digits(s),
        0 <= i <= s.len(),
    ensures
        spec_dec_value(s) >= spec_dec_value(s.take(i)),
    decreases s.len() - i,
{
    if i == s.len() {
        assert(s.take(i) =~= s);
    } else {
        assert(spec_all_digits(s.take(i))) by {
            assert(forall|j: int| 0 <= j < i ==> s.take(i)[j] == s[j]);
        }
        lemma_dec_value_bounds(s.take(i));
        assert(s.take(i + 1).drop_last() =~= s.take(i));
        assert(s.take(i + 1).last() == s[i]);
        assert(spec_dec_value(s.take(i + 1)) == spec_dec_value(s.take(i)) * 10 + (s[i] - 48));
        lemma_dec_value_grows(s, i + 1);
    }
}

/// Parse a slice as a non-negative decimal number.
pub fn parse_decimal(s: &[u8]) -> (r: Option<usize>)
    ensures
        match r {
            Some(n) => spec_parse_decimal(s@) == Some(n as int),
            None => spec_parse_decimal(s@) is None,
        },
{
    if s.len() == 0 {
        return None;
    }
    let mut val: usize = 0;
    let mut i: usize = 0;
    while i < s.len()
        invariant
            0 < s@.len(),
            i <= s@.len(),
            spec_all_digits(s@.take(i as int)),
            val == spec_dec_value(s@.take(i as int)),
        decreases s@.len() - i,
    {
        let b = s[i];
        if b < 48 || b > 57 {
            return None;
        }
        let d = (b - 48) as usize;
        proof {
            assert(s@.take(i + 1 as int).drop_last() =~= s@.take(i as int));
            assert(s@.take(i + 1 as int).last() == s@[i as int]);
        }
        if val > (usize::MAX - d) / 10 {
            proof {
                let m = usize::MAX as int;
                vstd::arithmetic::div_mod::lemma_fundamental_div_mod(m - d, 10);
                assert(val * 10 + d > m) by (nonlinear_arith)
                    requires
                        val > (m - d) / 10,
                        m - d == 10 * ((m - d) / 10) + (m - d) % 10,
                        0 <= (m - d) % 10 < 10,
                        d >= 0,
                {}
                if spec_all_digits(s@) {
                    lemma_dec_value_grows(s@, i + 1);
                    assert(spec_dec_value(s@) > usize::MAX);
                }
            }
            return None;
        }
        proof {
            let m = usize::MAX as int;
            vstd::arithmetic::div_mod::lemma_fundamental_div_mod(m - d, 10);
            assert(val * 10 + d <= m) by (nonlinear_arith)
                requires
                    val <= (m - d) / 10,
                    m - d == 10 * ((m - d) / 10) + (m - d) % 10,
                    0 <= (m - d) % 10 < 10,
                    val >= 0,
            {}
        }
        val = val * 10 + d;
        i += 1;
    }
    proof {
        assert(s@.take(s@.len() as int) =~= s@);
    }
    Some(val)
}

/// The decimal digits of `n`, most significant first.
pub open spec fn spec_decimal(n: int) -> Seq<u8>
    decreases n,
    when n >= 0
{
    if n < 10 {
        seq![(48 + n) as u8]
    } else {
        spec_decimal(n / 10) + seq![(48 + n % 10) as u8]
    }
}

/// Append the decimal digits of `n`.
pub fn push_decimal(out: &mut Vec<u8>, n: usize)
    ensures
        final(out)@ == old(out)@ + spec_decimal(n as int),
    decreases n,
{
    if n < 10 {
        let ghost pre = out@;
        out.push(48 + n as u8);
        proof {
            assert(out@ =~= pre + spec_decimal(n as int));
        }
    } else {
        let ghost pre = out@;
        proof {
            assert(n as int / 10 < n as int) by (nonlinear_arith)
                requires
                    n >= 10,
            {}
        }
        push_decimal(out, n / 10);
        out.push(48 + (n % 10) as u8);
        proof {
            assert(out@ =~= pre + spec_decimal(n as int));
        }
    }
}

} // verus!
