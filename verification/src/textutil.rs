//! Character-level text helpers: decimal rendering and parsing over
//! `Vec<char>`, substring search, and ASCII case folding. Exec code works on
//! character vectors; contracts are stated over `Seq<char>`.

use vstd::prelude::*;

verus! {

/// The decimal digit character for `d` (0..=9).
pub open spec fn digit_char(d: nat) -> char {
    ((48 + d % 10) as u8) as char
}

/// Decimal digits of `n` without a leading zero, except that 0 renders as
/// a single digit elsewhere (see `dec_digits`); empty for 0.
pub open spec fn dec_rest(n: nat) -> Seq<char>
    decreases n,
{
    if n == 0 {
        Seq::<char>::empty()
    } else {
        dec_rest(n / 10).push(digit_char(n % 10))
    }
}

/// The usual decimal rendering of `n`: "0" for 0, no leading zeros
/// otherwise.
pub open spec fn dec_digits(n: nat) -> Seq<char> {
    if n == 0 {
        seq!['0']
    } else {
        dec_rest(n)
    }
}

fn digit_char_exec(d: u64) -> (r: char)
    requires
        d < 10,
    ensures
        r == digit_char(d as nat),
{
    (48 + (d as u8)) as char
}

/// Append the decimal rendering of `n`.
pub fn push_u64_chars(out: &mut Vec<char>, n: u64)
    ensures
        final(out)@ == old(out)@ + dec_digits(n as nat),
{
    if n == 0 {
        out.push('0');
        assert(out@ =~= old(out)@ + dec_digits(0));
        return;
    }
    let mut digits: Vec<char> = Vec::new();
    let mut m: u64 = n;
    while m > 0
        invariant
            dec_rest(n as nat) =~= dec_rest(m as nat) + digits@,
        decreases m,
    {
        let d = digit_char_exec(m % 10);
        digits.insert(0, d);
        assert(dec_rest(m as nat) =~= dec_rest((m / 10) as nat).push(digit_char(
            (m % 10) as nat,
        )));
        m = m / 10;
    }
    assert(dec_rest(n as nat) =~= digits@);
    let k = digits.len();
    let mut i: usize = 0;
    while i < k
        invariant
            i <= k,
            k == digits@.len(),
            dec_rest(n as nat) =~= digits@,
            out@ =~= old(out)@ + digits@.take(i as int),
        decreases k - i,
    {
        out.push(digits[i]);
        assert(digits@.take(i + 1) =~= digits@.take(i as int).push(digits@[i as int]));
        i = i + 1;
    }
    assert(digits@.take(k as int) =~= digits@);
}

/// A fraction below 100 rendered as exactly two digits.
pub open spec fn pad2(f: nat) -> Seq<char> {
    seq![digit_char(f / 10 % 10), digit_char(f % 10)]
}

/// A fraction below 1000 rendered as exactly three digits.
pub open spec fn pad3(f: nat) -> Seq<char> {
    seq![digit_char(f / 100 % 10), digit_char(f / 10 % 10), digit_char(f % 10)]
}

/// A basis-point value rendered as a percentage with two decimals,
/// e.g. 5500 -> "55.00".
pub open spec fn bp_fixed2(v: nat) -> Seq<char> {
    dec_digits(v / 100) + seq!['.'] + pad2(v % 100)
}

/// A millisecond value rendered as seconds with three decimals,
/// e.g. 1000500 -> "1000.500".
pub open spec fn ms_fixed3(v: nat) -> Seq<char> {
    dec_digits(v / 1000) + seq!['.'] + pad3(v % 1000)
}

/// Append a basis-point value as a percentage with two decimals.
pub fn push_bp_fixed2(out: &mut Vec<char>, v: u64)
    ensures
        final(out)@ == old(out)@ + bp_fixed2(v as nat),
{
    push_u64_chars(out, v / 100);
    out.push('.');
    let f = v % 100;
    out.push(digit_char_exec(f / 10));
    out.push(digit_char_exec(f % 10));
    assert(out@ =~= old(out)@ + bp_fixed2(v as nat));
}

/// Append a millisecond value as seconds with three decimals.
pub fn push_ms_fixed3(out: &mut Vec<char>, v: u64)
    ensures
        final(out)@ == old(out)@ + ms_fixed3(v as nat),
{
    push_u64_chars(out, v / 1000);
    out.push('.');
    let f = v % 1000;
    out.push(digit_char_exec(f / 100));
    out.push(digit_char_exec(f / 10 % 10));
    out.push(digit_char_exec(f % 10));
    assert(out@ =~= old(out)@ + ms_fixed3(v as nat));
}

/// Append every character of `s`.
pub fn push_chars(out: &mut Vec<char>, s: &Vec<char>)
    ensures
        final(out)@ == old(out)@ + s@,
{
    let k = s.len();
    let mut i: usize = 0;
    while i < k
        invariant
            i <= k,
            k == s@.len(),
            out@ =~= old(out)@ + s@.take(i as int),
        decreases k - i,
    {
        out.push(s[i]);
        assert(s@.take(i + 1) =~= s@.take(i as int).push(s@[i as int]));
        i = i + 1;
    }
    assert(s@.take(k as int) =~= s@);
}

/// Append every character of the string slice `s`.
pub fn push_str_chars(out: &mut Vec<char>, s: &str)
    ensures
        final(out)@ == old(out)@ + s@,
{
    let v = chars_of(s);
    push_chars(out, &v);
}

/// The characters of a string slice, as a vector.
pub fn chars_of(s: &str) -> (r: Vec<char>)
    ensures
        r@ == s@,
{
    let n = s.unicode_len();
    let mut r: Vec<char> = Vec::new();
    let mut i: usize = 0;
    while i < n
        invariant
            i <= n,
            n == s@.len(),
            r@ =~= s@.take(i as int),
        decreases n - i,
    {
        r.push(s.get_char(i));
        assert(s@.take(i + 1) =~= s@.take(i as int).push(s@[i as int]));
        i = i + 1;
    }
    assert(s@.take(n as int) =~= s@);
    r
}

/// Relies on `String`'s `FromIterator<char>` implementation: collecting
/// characters yields the string of exactly those characters, in order.
#[verifier::external_body]
pub fn chars_to_string(v: Vec<char>) -> (r: String)
    ensures
        r@ == v@,
{
    v.into_iter().collect()
}

/// Is every character a decimal digit?
pub open spec fn all_digits(s: Seq<char>) -> bool {
    forall|i: int| 0 <= i < s.len() ==> '0' <= #[trigger] s[i] <= '9'
}

/// The numeric value of a digit string (most significant first).
pub open spec fn dec_val(s: Seq<char>) -> nat
    decreases s.len(),
{
    if s.len() == 0 {
        0
    } else {
        (dec_val(s.drop_last()) * 10 + (s.last() as int - 48)) as nat
    }
}

/// Parse a non-empty all-digit string into a `u64`; `None` when empty,
/// when a non-digit occurs, or when the value does not fit.
pub open spec fn spec_parse_u64(s: Seq<char>) -> Option<u64> {
    if s.len() > 0 && all_digits(s) && dec_val(s) <= u64::MAX {
        Some(dec_val(s) as u64)
    } else {
        None
    }
}

/// Is every character of `v` a decimal digit?
pub fn vec_all_digits(v: &Vec<char>) -> (r: bool)
    ensures
        r == all_digits(v@),
{
    let n = v.len();
    let mut i: usize = 0;
    while i < n
        invariant
            i <= n,
            n == v@.len(),
            forall|k: int| 0 <= k < i ==> '0' <= #[trigger] v@[k] <= '9',
        decreases n - i,
    {
        let c = v[i];
        if c < '0' || c > '9' {
            return false;
        }
        i = i + 1;
    }
    true
}

/// Parse a slice [lo, hi) of `v` as a decimal `u64`.
pub fn parse_u64_range(v: &Vec<char>, lo: usize, hi: usize) -> (r: Option<u64>)
    requires
        lo <= hi <= v@.len(),
    ensures
        r == spec_parse_u64(v@.subrange(lo as int, hi as int)),
{
    let ghost s = v@.subrange(lo as int, hi as int);
    if lo == hi {
        return None;
    }
    let mut acc: u64 = 0;
    let mut i: usize = lo;
    while i < hi
        invariant
            lo <= i <= hi <= v@.len(),
            s =~= v@.subrange(lo as int, hi as int),
            all_digits(s.take(i - lo)),
            acc == dec_val(s.take(i - lo)),
        decreases hi - i,
    {
        let c = v[i];
        if c < '0' || c > '9' {
            assert(s[i - lo] == c);
            return None;
        }
        let d: u64 = (c as u64) - 48;
        assert(s.take(i - lo + 1).drop_last() =~= s.take(i - lo));
        assert(s.take(i - lo + 1).last() == c);
        if acc > (u64::MAX - d) / 10 {
            proof {
                assert(dec_val(s.take(i - lo + 1)) == dec_val(s.take(i - lo)) * 10 + (s.take(
                    i - lo + 1,
                ).last() as int - 48));
                assert(acc as int * 10 + d as int > u64::MAX as int);
                if all_digits(s) {
                    lemma_dec_val_monotone(s, i - lo + 1);
                }
            }
            return None;
        }
        acc = acc * 10 + d;
        i = i + 1;
    }
    assert(s.take(hi - lo) =~= s);
    Some(acc)
}

/// A prefix of a digit string never exceeds the whole string's value.
proof fn lemma_dec_val_monotone(s: Seq<char>, k: int)
    requires
        0 <= k <= s.len(),
        all_digits(s),
    ensures
        dec_val(s.take(k)) <= dec_val(s),
    decreases s.len() - k,
{
    if k < s.len() {
        lemma_dec_val_monotone(s, k + 1);
        assert(s.take(k + 1).drop_last() =~= s.take(k));
        assert(dec_val(s.take(k + 1)) == dec_val(s.take(k)) * 10 + (s.take(k + 1).last() as nat
            - 48));
    } else {
        assert(s.take(k) =~= s);
    }
}

/// The fields of `s` split on the separator: one more field than there
/// are separators, fields may be empty.
pub open spec fn split_on(s: Seq<char>, sep: char) -> Seq<Seq<char>>
    decreases s.len(),
{
    if s.len() == 0 {
        seq![Seq::<char>::empty()]
    } else {
        let rest = split_on(s.drop_first(), sep);
        if s[0] == sep {
            seq![Seq::<char>::empty()] + rest
        } else {
            seq![seq![s[0]] + rest[0]] + rest.drop_first()
        }
    }
}

pub proof fn lemma_split_on_len(s: Seq<char>, sep: char)
    ensures
        split_on(s, sep).len() >= 1,
    decreases s.len(),
{
    if s.len() > 0 {
        lemma_split_on_len(s.drop_first(), sep);
    }
}

/// Split a character vector on a separator.
pub fn vec_split_on(v: &Vec<char>, sep: char) -> (r: Vec<Vec<char>>)
    ensures
        r@.len() == split_on(v@, sep).len(),
        forall|i: int| 0 <= i < r@.len() ==> #[trigger] r@[i]@ == split_on(v@, sep)[i],
{
    let n = v.len();
    let mut out: Vec<Vec<char>> = Vec::new();
    let mut cur: Vec<char> = Vec::new();
    let mut i: usize = 0;
    proof {
        lemma_split_on_len(v@, sep);
        assert(v@.skip(0) =~= v@);
    }
    while i < n
        invariant
            i <= n,
            n == v@.len(),
            split_on(v@.skip(i as int), sep).len() >= 1,
            split_on(v@, sep) =~= out@.map_values(|x: Vec<char>| x@) + seq![
                cur@ + split_on(v@.skip(i as int), sep)[0],
            ] + split_on(v@.skip(i as int), sep).drop_first(),
        decreases n - i,
    {
        let c = v[i];
        proof {
            assert(v@.skip(i as int).drop_first() =~= v@.skip(i + 1));
            lemma_split_on_len(v@.skip(i + 1), sep);
            assert(v@.skip(i as int)[0] == v@[i as int]);
            assert(v@.skip(i as int).len() > 0);
        }
        proof {
            assert(split_on(v@.skip(i + 1), sep) =~= seq![split_on(v@.skip(i + 1), sep)[0]]
                + split_on(v@.skip(i + 1), sep).drop_first());
        }
        if c == sep {
            let ghost out_pre = out@;
            let ghost cur_pre = cur@;
            out.push(cur);
            cur = Vec::new();
            proof {
                assert(out@.map_values(|x: Vec<char>| x@) =~= out_pre.map_values(
                    |x: Vec<char>| x@,
                ).push(cur_pre));
                assert(split_on(v@.skip(i as int), sep) =~= seq![Seq::<char>::empty()] + split_on(
                    v@.skip(i + 1),
                    sep,
                ));
                assert(split_on(v@, sep) =~= out@.map_values(|x: Vec<char>| x@) + seq![
                    cur@ + split_on(v@.skip(i + 1), sep)[0],
                ] + split_on(v@.skip(i + 1), sep).drop_first());
            }
        } else {
            let ghost cur_pre = cur@;
            cur.push(c);
            proof {
                assert(cur@ =~= cur_pre + seq![c]);
                assert(split_on(v@.skip(i as int), sep) =~= seq![
                    seq![v@[i as int]] + split_on(v@.skip(i + 1), sep)[0],
                ] + split_on(v@.skip(i + 1), sep).drop_first());
                assert(cur_pre + (seq![v@[i as int]] + split_on(v@.skip(i + 1), sep)[0]) =~= cur@
                    + split_on(v@.skip(i + 1), sep)[0]);
                assert(split_on(v@, sep) =~= out@.map_values(|x: Vec<char>| x@) + seq![
                    cur@ + split_on(v@.skip(i + 1), sep)[0],
                ] + split_on(v@.skip(i + 1), sep).drop_first());
            }
        }
        i = i + 1;
    }
    proof {
        assert(v@.skip(n as int) =~= Seq::<char>::empty());
        assert(split_on(v@.skip(n as int), sep) =~= seq![Seq::<char>::empty()]);
    }
    out.push(cur);
    proof {
        assert(split_on(v@, sep) =~= out@.map_values(|x: Vec<char>| x@));
        assert forall|i2: int| 0 <= i2 < out@.len() implies #[trigger] out@[i2]@ == split_on(
            v@,
            sep,
        )[i2] by {
            assert(out@.map_values(|x: Vec<char>| x@)[i2] == out@[i2]@);
        }
    }
    out
}

/// A trimmable blank: space or tab.
pub open spec fn is_blank(c: char) -> bool {
    c == ' ' || c == '\t' || c == '\r' || c == '\n'
}

pub open spec fn trim_start(s: Seq<char>) -> Seq<char>
    decreases s.len(),
{
    if s.len() > 0 && is_blank(s[0]) {
        trim_start(s.drop_first())
    } else {
        s
    }
}

pub open spec fn trim_end(s: Seq<char>) -> Seq<char>
    decreases s.len(),
{
    if s.len() > 0 && is_blank(s.last()) {
        trim_end(s.drop_last())
    } else {
        s
    }
}

/// The sequence without leading and trailing blanks.
pub open spec fn spec_trim(s: Seq<char>) -> Seq<char> {
    trim_end(trim_start(s))
}

/// Trim leading and trailing blanks.
pub fn vec_trim(v: &Vec<char>) -> (r: Vec<char>)
    ensures
        r@ == spec_trim(v@),
{
    let n = v.len();
    let mut lo: usize = 0;
    proof {
        assert(v@.skip(0) =~= v@);
    }
    while lo < n && (v[lo] == ' ' || v[lo] == '\t' || v[lo] == '\r' || v[lo] == '\n')
        invariant
            lo <= n,
            n == v@.len(),
            trim_start(v@) == trim_start(v@.skip(lo as int)),
        decreases n - lo,
    {
        proof {
            assert(v@.skip(lo as int).drop_first() =~= v@.skip(lo + 1));
        }
        lo = lo + 1;
    }
    proof {
        assert(trim_start(v@.skip(lo as int)) =~= v@.skip(lo as int));
        assert(trim_start(v@) =~= v@.skip(lo as int));
    }
    let mut hi: usize = n;
    while hi > lo && (v[hi - 1] == ' ' || v[hi - 1] == '\t' || v[hi - 1] == '\r' || v[hi
        - 1] == '\n')
        invariant
            lo <= hi <= n,
            n == v@.len(),
            trim_start(v@) =~= v@.skip(lo as int),
            trim_end(v@.skip(lo as int)) == trim_end(v@.subrange(lo as int, hi as int)),
        decreases hi,
    {
        proof {
            assert(v@.subrange(lo as int, hi as int).drop_last() =~= v@.subrange(
                lo as int,
                hi - 1,
            ));
            assert(v@.subrange(lo as int, hi as int).last() == v@[hi - 1]);
        }
        hi = hi - 1;
    }
    proof {
        assert(trim_end(v@.subrange(lo as int, hi as int)) =~= v@.subrange(lo as int, hi as int));
    }
    let mut r: Vec<char> = Vec::new();
    let mut i: usize = lo;
    while i < hi
        invariant
            lo <= i <= hi <= n,
            n == v@.len(),
            r@ =~= v@.subrange(lo as int, i as int),
        decreases hi - i,
    {
        r.push(v[i]);
        proof {
            assert(v@.subrange(lo as int, i + 1) =~= v@.subrange(lo as int, i as int).push(
                v@[i as int],
            ));
        }
        i = i + 1;
    }
    proof {
        assert(r@ =~= spec_trim(v@));
    }
    r
}

/// `needle` occurs contiguously in `hay`.
pub open spec fn contains_sub(hay: Seq<char>, needle: Seq<char>) -> bool {
    exists|i: int|
        0 <= i && i + needle.len() <= hay.len() && #[trigger] hay.subrange(i, i + needle.len())
            =~= needle
}

/// Substring search over character vectors.
pub fn vec_contains_sub(hay: &Vec<char>, needle: &Vec<char>) -> (r: bool)
    ensures
        r == contains_sub(hay@, needle@),
{
    let n = hay.len();
    let m = needle.len();
    if m > n {
        return false;
    }
    let limit = n - m;
    let mut i: usize = 0;
    while i <= limit
        invariant
            m <= n,
            limit == n - m,
            n == hay@.len(),
            m == needle@.len(),
            forall|k: int|
                0 <= k < i ==> !(#[trigger] hay@.subrange(k, k + needle@.len()) =~= needle@),
        decreases n - i,
    {
        let mut j: usize = 0;
        let mut ok = true;
        while j < m
            invariant
                i + m <= n,
                limit == n - m,
                i <= limit,
                n == hay@.len(),
                m == needle@.len(),
                j <= m,
                ok <==> hay@.subrange(i as int, i + j as int) =~= needle@.take(j as int),
            decreases m - j,
        {
            let same = hay[i + j] == needle[j];
            proof {
                assert(hay@.subrange(i as int, i + j + 1).drop_last() =~= hay@.subrange(
                    i as int,
                    i + j as int,
                ));
                assert(needle@.take(j + 1).drop_last() =~= needle@.take(j as int));
                assert(hay@.subrange(i as int, i + j + 1).last() == hay@[i + j]);
                assert(needle@.take(j + 1).last() == needle@[j as int]);
                if ok && same {
                    assert(hay@.subrange(i as int, i + j + 1) =~= needle@.take(j + 1));
                }
                if !(ok && same) {
                    assert(!(hay@.subrange(i as int, i + j + 1) =~= needle@.take(j + 1)));
                }
            }
            ok = ok && same;
            j = j + 1;
        }
        if ok {
            assert(needle@.take(m as int) =~= needle@);
            return true;
        }
        assert(needle@.take(m as int) =~= needle@);
        i = i + 1;
    }
    return false;
}

/// How many times `c` occurs in `s`.
pub open spec fn count_char(s: Seq<char>, c: char) -> nat
    decreases s.len(),
{
    if s.len() == 0 {
        0
    } else {
        count_char(s.drop_last(), c) + (if s.last() == c {
            1nat
        } else {
            0nat
        })
    }
}

pub proof fn lemma_count_char_add(a: Seq<char>, b: Seq<char>, c: char)
    ensures
        count_char(a + b, c) == count_char(a, c) + count_char(b, c),
    decreases b.len(),
{
    if b.len() == 0 {
        assert(a + b =~= a);
    } else {
        lemma_count_char_add(a, b.drop_last(), c);
        assert((a + b).drop_last() =~= a + b.drop_last());
        assert((a + b).last() == b.last());
    }
}

pub proof fn lemma_count_char_single(c: char, d: char)
    ensures
        count_char(seq![c], d) == (if c == d {
            1nat
        } else {
            0nat
        }),
{
    assert(count_char(Seq::<char>::empty(), d) == 0);
    assert(seq![c].drop_last() =~= Seq::<char>::empty());
    assert(seq![c].last() == c);
    assert(count_char(seq![c], d) == count_char(seq![c].drop_last(), d) + (if c == d {
        1nat
    } else {
        0nat
    }));
}

pub proof fn lemma_count_char_pair(a: char, b: char, d: char)
    ensures
        count_char(seq![a, b], d) == count_char(seq![a], d) + count_char(seq![b], d),
{
    assert(seq![a, b] =~= seq![a] + seq![b]);
    lemma_count_char_add(seq![a], seq![b], d);
}

/// A sequence without any occurrence of `c` counts zero.
pub proof fn lemma_count_char_absent(s: Seq<char>, c: char)
    requires
        forall|i: int| 0 <= i < s.len() ==> s[i] != c,
    ensures
        count_char(s, c) == 0,
    decreases s.len(),
{
    if s.len() > 0 {
        lemma_count_char_absent(s.drop_last(), c);
    }
}

/// Every character of `dec_rest(n)` is a decimal digit.
pub proof fn lemma_dec_rest_digits(n: nat)
    ensures
        forall|i: int| 0 <= i < dec_rest(n).len() ==> '0' <= #[trigger] dec_rest(n)[i] <= '9',
    decreases n,
{
    if n > 0 {
        lemma_dec_rest_digits(n / 10);
        assert(('0' as int) == 48 && ('9' as int) == 57);
        assert((digit_char(n % 10) as int) == 48 + (n % 10));
        assert forall|i: int| 0 <= i < dec_rest(n).len() implies '0' <= #[trigger] dec_rest(
            n,
        )[i] <= '9' by {
            if i < dec_rest(n).len() - 1 {
                assert(dec_rest(n)[i] == dec_rest(n / 10)[i]);
            } else {
                assert(dec_rest(n)[i] == digit_char(n % 10));
            }
        }
    }
}

/// Every character of `dec_digits(n)` is a decimal digit.
pub proof fn lemma_dec_digits_digits(n: nat)
    ensures
        forall|i: int| 0 <= i < dec_digits(n).len() ==> '0' <= #[trigger] dec_digits(n)[i] <= '9',
{
    lemma_dec_rest_digits(n);
}

/// `dec_digits` never contains `c` when `c` is not a digit.
pub proof fn lemma_dec_digits_count_absent(n: nat, c: char)
    requires
        !('0' <= c <= '9'),
    ensures
        count_char(dec_digits(n), c) == 0,
{
    lemma_dec_digits_digits(n);
    lemma_count_char_absent(dec_digits(n), c);
}

/// Characters of a fixed-point rendering are digits or the decimal point.
pub proof fn lemma_bp_fixed2_count_absent(v: nat, c: char)
    requires
        !('0' <= c <= '9'),
        c != '.',
    ensures
        count_char(bp_fixed2(v), c) == 0,
{
    lemma_dec_digits_digits(v / 100);
    lemma_count_char_absent(bp_fixed2(v), c);
}

/// Characters of a millisecond rendering are digits or the decimal point.
pub proof fn lemma_ms_fixed3_count_absent(v: nat, c: char)
    requires
        !('0' <= c <= '9'),
        c != '.',
    ensures
        count_char(ms_fixed3(v), c) == 0,
{
    lemma_dec_digits_digits(v / 1000);
    lemma_count_char_absent(ms_fixed3(v), c);
}

/// `s` begins with `p`.
pub open spec fn starts_with(s: Seq<char>, p: Seq<char>) -> bool {
    s.len() >= p.len() && s.take(p.len() as int) =~= p
}

pub fn vec_starts_with(v: &Vec<char>, p: &Vec<char>) -> (r: bool)
    ensures
        r == starts_with(v@, p@),
{
    let m = p.len();
    if v.len() < m {
        return false;
    }
    let mut i: usize = 0;
    while i < m
        invariant
            i <= m,
            m == p@.len(),
            m <= v@.len(),
            forall|k: int| 0 <= k < i ==> v@[k] == p@[k],
        decreases m - i,
    {
        if v[i] != p[i] {
            assert(!(v@.take(m as int) =~= p@));
            return false;
        }
        i = i + 1;
    }
    assert(v@.take(m as int) =~= p@);
    true
}

/// Equality of two character vectors' contents.
pub fn vec_eq_chars(a: &Vec<char>, b: &Vec<char>) -> (r: bool)
    ensures
        r == (a@ =~= b@),
{
    if a.len() != b.len() {
        return false;
    }
    let n = a.len();
    let mut i: usize = 0;
    while i < n
        invariant
            i <= n,
            n == a@.len() == b@.len(),
            forall|k: int| 0 <= k < i ==> a@[k] == b@[k],
        decreases n - i,
    {
        if a[i] != b[i] {
            return false;
        }
        i = i + 1;
    }
    true
}

/// The position of the first occurrence of `needle` in `hay`.
pub open spec fn spec_find_sub(hay: Seq<char>, needle: Seq<char>) -> Option<int>
    decreases hay.len(),
{
    if hay.len() < needle.len() {
        None
    } else if hay.take(needle.len() as int) =~= needle {
        Some(0int)
    } else {
        match spec_find_sub(hay.drop_first(), needle) {
            Some(k) => Some(k + 1),
            None => None,
        }
    }
}

/// Find the first occurrence of `needle` in `hay`.
pub fn vec_find_sub(hay: &Vec<char>, needle: &Vec<char>) -> (r: Option<usize>)
    ensures
        match r {
            Some(i) => spec_find_sub(hay@, needle@) == Some(i as int),
            None => spec_find_sub(hay@, needle@) is None,
        },
{
    let n = hay.len();
    let m = needle.len();
    if m > n {
        return None;
    }
    let limit = n - m;
    let mut i: usize = 0;
    proof {
        assert(hay@.skip(0) =~= hay@);
    }
    while i <= limit
        invariant
            m <= n,
            limit == n - m,
            n == hay@.len(),
            m == needle@.len(),
            i <= limit + 1,
            spec_find_sub(hay@, needle@) == match spec_find_sub(hay@.skip(i as int), needle@) {
                Some(k) => Some(k + i),
                None => None,
            },
        decreases limit + 1 - i,
    {
        let mut j: usize = 0;
        let mut ok = true;
        while j < m
            invariant
                i + m <= n,
                n == hay@.len(),
                m == needle@.len(),
                j <= m,
                ok <==> hay@.subrange(i as int, i + j as int) =~= needle@.take(j as int),
            decreases m - j,
        {
            let same = hay[i + j] == needle[j];
            proof {
                assert(hay@.subrange(i as int, i + j + 1).drop_last() =~= hay@.subrange(
                    i as int,
                    i + j as int,
                ));
                assert(needle@.take(j + 1).drop_last() =~= needle@.take(j as int));
                assert(hay@.subrange(i as int, i + j + 1).last() == hay@[i + j]);
                assert(needle@.take(j + 1).last() == needle@[j as int]);
                if ok && same {
                    assert(hay@.subrange(i as int, i + j + 1) =~= needle@.take(j + 1));
                }
                if !(ok && same) {
                    assert(!(hay@.subrange(i as int, i + j + 1) =~= needle@.take(j + 1)));
                }
            }
            ok = ok && same;
            j = j + 1;
        }
        proof {
            assert(needle@.take(m as int) =~= needle@);
            assert(hay@.subrange(i as int, i + m as int) =~= hay@.skip(i as int).take(m as int));
        }
        if ok {
            return Some(i);
        }
        proof {
            assert(hay@.skip(i as int).drop_first() =~= hay@.skip(i + 1));
            assert(!(hay@.skip(i as int).take(m as int) =~= needle@));
        }
        i = i + 1;
    }
    proof {
        assert(hay@.skip(i as int).len() < m);
    }
    None
}

/// ASCII lower-casing of one character.
pub open spec fn lower_char(c: char) -> char {
    if 'A' <= c <= 'Z' {
        ((c as u8) + 32) as char
    } else {
        c
    }
}

pub fn lower_char_exec(c: char) -> (r: char)
    ensures
        r == lower_char(c),
{
    if c >= 'A' && c <= 'Z' {
        ((c as u8) + 32) as char
    } else {
        c
    }
}

/// Case-insensitive (ASCII) equality of two character sequences.
pub open spec fn eq_ignore_ascii_case(a: Seq<char>, b: Seq<char>) -> bool {
    a.len() == b.len() && forall|i: int|
        0 <= i < a.len() ==> lower_char(#[trigger] a[i]) == lower_char(b[i])
}

pub fn vec_eq_ignore_ascii_case(a: &Vec<char>, b: &Vec<char>) -> (r: bool)
    ensures
        r == eq_ignore_ascii_case(a@, b@),
{
    if a.len() != b.len() {
        return false;
    }
    let n = a.len();
    let mut i: usize = 0;
    while i < n
        invariant
            i <= n,
            n == a@.len() == b@.len(),
            forall|k: int| 0 <= k < i ==> lower_char(#[trigger] a@[k]) == lower_char(b@[k]),
        decreases n - i,
    {
        if lower_char_exec(a[i]) != lower_char_exec(b[i]) {
            return false;
        }
        i = i + 1;
    }
    true
}

} // verus!
