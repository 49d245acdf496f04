//! Character-level text building blocks shared by the formatting and
//! identifier code: decimal rendering, zero padding and conversions between
//! strings and character vectors.

use vstd::prelude::*;

verus! {

/// The ASCII digit for `d` (meaningful for `d < 10`).
pub open spec fn digit_char(d: nat) -> char {
    (48 + d) as char
}

/// The decimal representation of `n`, without sign or leading zeros
/// (`"0"` for zero).
pub open spec fn decimal_seq(n: nat) -> Seq<char>
    decreases n,
{
    if n < 10 {
        seq![digit_char(n)]
    } else {
        decimal_seq(n / 10).push(digit_char(n % 10))
    }
}

/// `s` left-padded with `'0'` up to `width` characters.
pub open spec fn zero_padded(s: Seq<char>, width: nat) -> Seq<char> {
    if s.len() >= width {
        s
    } else {
        Seq::new((width - s.len()) as nat, |i: int| '0') + s
    }
}

/// The decimal representation of a signed integer, with a leading `'-'`
/// for negative values.
pub open spec fn signed_decimal_seq(n: int) -> Seq<char> {
    if n < 0 {
        seq!['-'] + decimal_seq((-n) as nat)
    } else {
        decimal_seq(n as nat)
    }
}

/// Sign-aware zero padding to `width` characters, as `{:0width$}` formats a
/// signed integer: the sign comes first and the zeros go between it and the
/// digits.
pub open spec fn signed_zero_padded(n: int, width: nat) -> Seq<char> {
    if n < 0 {
        seq!['-'] + zero_padded(decimal_seq((-n) as nat), if width >= 1 { (width - 1) as nat } else { 0 })
    } else {
        zero_padded(decimal_seq(n as nat), width)
    }
}

pub proof fn lemma_decimal_seq_digits(n: nat)
    ensures
        decimal_seq(n).len() >= 1,
        forall|i: int| 0 <= i < decimal_seq(n).len() ==> '0' <= #[trigger] decimal_seq(n)[i] <= '9',
    decreases n,
{
    if n >= 10 {
        lemma_decimal_seq_digits(n / 10);
    }
}

/// Appends `c` to `s` (`String::push`).
#[verifier::external_body]
pub(crate) fn string_push(s: &mut String, c: char)
    ensures
        final(s)@ == old(s)@.push(c),
{
    s.push(c);
}

/// The ASCII digit character for a digit value below ten.
pub fn digit_to_char(d: u64) -> (c: char)
    requires
        d < 10,
    ensures
        c == digit_char(d as nat),
{
    let b: u8 = d as u8;
    (b + 48u8) as char
}

/// Appends the decimal representation of `n` to `out`.
pub fn push_decimal(out: &mut String, n: u64)
    ensures
        final(out)@ == old(out)@ + decimal_seq(n as nat),
    decreases n,
{
    if n >= 10 {
        push_decimal(out, n / 10);
    }
    string_push(out, digit_to_char(n % 10));
    proof {
        if n >= 10 {
            assert(old(out)@ + decimal_seq(n as nat) =~= old(out)@ + decimal_seq((n / 10) as nat) + seq![digit_char((n % 10) as nat)]);
        } else {
            assert(old(out)@ + decimal_seq(n as nat) =~= old(out)@.push(digit_char(n as nat)));
        }
    }
}

/// Appends `width - len` zeros, where `len` is the length of the decimal
/// representation of `n`, followed by that representation.
pub fn push_zero_padded_decimal(out: &mut String, n: u64, width: usize)
    ensures
        final(out)@ == old(out)@ + zero_padded(decimal_seq(n as nat), width as nat),
{
    let mut digits = String::new();
    push_decimal(&mut digits, n);
    proof {
        assert(digits@ =~= decimal_seq(n as nat));
    }
    let len = digits.unicode_len();
    let ghost start = out@;
    let mut i: usize = len;
    while i < width
        invariant
            len == decimal_seq(n as nat).len(),
            len <= i,
            i <= width || len >= width,
            len >= width ==> i == len,
            out@ == start + Seq::new((i - len) as nat, |k: int| '0'),
        decreases width - i,
    {
        string_push(out, '0');
        proof {
            assert(start + Seq::new((i + 1 - len) as nat, |k: int| '0') =~= (start + Seq::new((i - len) as nat, |k: int| '0')).push('0'));
        }
        i = i + 1;
    }
    out.append(digits.as_str());
    proof {
        if len >= width {
            assert(Seq::new((i - len) as nat, |k: int| '0') =~= Seq::<char>::empty());
            assert(out@ =~= start + decimal_seq(n as nat));
        } else {
            assert(i == width);
            assert(out@ =~= start + zero_padded(decimal_seq(n as nat), width as nat));
        }
    }
}

/// The characters of `s`, in order.
pub fn chars_of(s: &str) -> (v: Vec<char>)
    ensures
        v@ == s@,
{
    let n = s.unicode_len();
    let mut v: Vec<char> = Vec::new();
    let mut i: usize = 0;
    while i < n
        invariant
            n == s@.len(),
            i <= n,
            v@ == s@.subrange(0, i as int),
        decreases n - i,
    {
        v.push(s.get_char(i));
        proof {
            assert(s@.subrange(0, i + 1) =~= s@.subrange(0, i as int).push(s@[i as int]));
        }
        i = i + 1;
    }
    proof {
        assert(s@.subrange(0, n as int) =~= s@);
    }
    v
}

/// A string made of the characters `v[start..end]`.
pub fn string_of_chars(v: &[char], start: usize, end: usize) -> (s: String)
    requires
        start <= end <= v@.len(),
    ensures
        s@ == v@.subrange(start as int, end as int),
{
    let mut s = String::new();
    let mut i: usize = start;
    while i < end
        invariant
            start <= i <= end,
            end <= v@.len(),
            s@ == v@.subrange(start as int, i as int),
        decreases end - i,
    {
        string_push(&mut s, v[i]);
        proof {
            assert(v@.subrange(start as int, i + 1) =~= v@.subrange(start as int, i as int).push(v@[i as int]));
        }
        i = i + 1;
    }
    s
}

/// Whether `needle` occurs in `hay` as a contiguous run of characters.
pub open spec fn seq_contains_run(hay: Seq<char>, needle: Seq<char>) -> bool {
    exists|i: int| 0 <= i && i + needle.len() <= hay.len() && #[trigger] hay.subrange(i, i + needle.len()) == needle
}

/// Whether `needle` occurs in `hay` at position `at`.
fn occurs_at(hay: &Vec<char>, needle: &Vec<char>, at: usize) -> (r: bool)
    requires
        at + needle@.len() <= hay@.len(),
    ensures
        r == (hay@.subrange(at as int, at + needle@.len()) == needle@),
{
    let hay_len = hay.len();
    let mut j: usize = 0;
    while j < needle.len()
        invariant
            hay_len == hay@.len(),
            at + needle@.len() <= hay@.len(),
            j <= needle@.len(),
            forall|k: int| 0 <= k < j ==> hay@[at + k] == needle@[k],
        decreases needle@.len() - j,
    {
        if hay[at + j] != needle[j] {
            proof {
                assert(hay@.subrange(at as int, at + needle@.len())[j as int] != needle@[j as int]);
            }
            return false;
        }
        j = j + 1;
    }
    proof {
        assert(hay@.subrange(at as int, at + needle@.len()) =~= needle@);
    }
    true
}

/// Whether `needle` occurs in `hay` (`str::contains` with a string pattern).
pub fn str_contains(hay: &str, needle: &str) -> (r: bool)
    ensures
        r == seq_contains_run(hay@, needle@),
{
    let h = chars_of(hay);
    let n = chars_of(needle);
    if n.len() > h.len() {
        return false;
    }
    let last = h.len() - n.len();
    let mut i: usize = 0;
    loop
        invariant
            h@ == hay@,
            n@ == needle@,
            last == h@.len() - n@.len(),
            i <= last,
            forall|k: int| 0 <= k < i ==> #[trigger] hay@.subrange(k, k + needle@.len()) != needle@,
        ensures
            forall|k: int| 0 <= k <= last ==> #[trigger] hay@.subrange(k, k + needle@.len()) != needle@,
        decreases last - i,
    {
        if occurs_at(&h, &n, i) {
            return true;
        }
        if i == last {
            break;
        }
        i = i + 1;
    }
    proof {
        assert forall|k: int| 0 <= k && k + needle@.len() <= hay@.len()
            implies #[trigger] hay@.subrange(k, k + needle@.len()) != needle@ by {
            assert(k <= last);
        }
    }
    false
}

/// Whether two strings hold the same characters.
pub fn str_eq(a: &str, b: &str) -> (r: bool)
    ensures
        r == (a@ == b@),
{
    let x = chars_of(a);
    let y = chars_of(b);
    if x.len() != y.len() {
        return false;
    }
    let mut i: usize = 0;
    while i < x.len()
        invariant
            x@ == a@,
            y@ == b@,
            x@.len() == y@.len(),
            i <= x@.len(),
            forall|k: int| 0 <= k < i ==> x@[k] == y@[k],
        decreases x@.len() - i,
    {
        if x[i] != y[i] {
            return false;
        }
        i = i + 1;
    }
    proof {
        assert(a@ =~= b@);
    }
    true
}

/// Appends `n` in decimal, sign-aware zero padded to `width` characters
/// (`{n:0width$}`).
pub fn push_signed_zero_padded(out: &mut String, n: i64, width: usize)
    ensures
        final(out)@ == old(out)@ + signed_zero_padded(n as int, width as nat),
{
    if n < 0 {
        string_push(out, '-');
        let magnitude: u64 = ((-(n + 1)) as u64) + 1;
        let inner: usize = if width >= 1 { width - 1 } else { 0 };
        push_zero_padded_decimal(out, magnitude, inner);
        proof {
            assert(magnitude as int == -(n as int));
            assert(final(out)@ =~= old(out)@ + signed_zero_padded(n as int, width as nat));
        }
    } else {
        push_zero_padded_decimal(out, n as u64, width);
    }
}

/// The view of an optional string.
pub open spec fn opt_view(o: Option<String>) -> Option<Seq<char>> {
    match o {
        Some(s) => Some(s@),
        None => None,
    }
}

/// `v` clamped into the range of `i64`.
pub open spec fn clamp_i64(v: int) -> int {
    if v < i64::MIN { i64::MIN as int } else if v > i64::MAX { i64::MAX as int } else { v }
}

/// `a - b`, saturating at the bounds of `i64` (`i64::saturating_sub`).
pub fn saturating_sub_i64(a: i64, b: i64) -> (r: i64)
    ensures
        r as int == clamp_i64(a - b),
{
    let d: i128 = a as i128 - b as i128;
    if d < i64::MIN as i128 {
        i64::MIN
    } else if d > i64::MAX as i128 {
        i64::MAX
    } else {
        d as i64
    }
}

/// `a * b`, saturating at the bounds of `i64` (`i64::saturating_mul`).
pub fn saturating_mul_i64(a: i64, b: i64) -> (r: i64)
    ensures
        r as int == clamp_i64(a * b),
{
    proof {
        let x = a as int;
        let y = b as int;
        let m: int = 9223372036854775808;
        assert(-(m * m) <= x * y <= m * m) by (nonlinear_arith)
            requires -m <= x <= m, -m <= y <= m, m > 0;
        assert(m * m == 85070591730234615865843651857942052864);
    }
    let p: i128 = a as i128 * b as i128;
    if p < i64::MIN as i128 {
        i64::MIN
    } else if p > i64::MAX as i128 {
        i64::MAX
    } else {
        p as i64
    }
}

/// `s` with the prefix `p` removed, if `s` starts with it.
pub open spec fn strip_prefix_seq(s: Seq<char>, p: Seq<char>) -> Option<Seq<char>> {
    if p.len() <= s.len() && s.subrange(0, p.len() as int) == p {
        Some(s.subrange(p.len() as int, s.len() as int))
    } else {
        None
    }
}

/// `s` without its leading `'0'` characters.
pub open spec fn trim_leading_zeros(s: Seq<char>) -> Seq<char>
    decreases s.len(),
{
    if s.len() > 0 && s[0] == '0' {
        trim_leading_zeros(s.drop_first())
    } else {
        s
    }
}

/// The number written by the decimal digits `s`.
pub open spec fn digits_value(s: Seq<char>) -> int
    decreases s.len(),
{
    if s.len() == 0 {
        0
    } else {
        digits_value(s.drop_last()) * 10 + (s.last() as int - 48)
    }
}

/// Whether every character of `s` is an ASCII digit.
pub open spec fn all_digits(s: Seq<char>) -> bool {
    forall|i: int| 0 <= i < s.len() ==> '0' <= #[trigger] s[i] && s[i] <= '9'
}

/// The value `str::parse::<i64>` gives for `s`: an optional sign followed by
/// at least one decimal digit, within the range of `i64`.
pub open spec fn parsed_i64(s: Seq<char>) -> Option<int> {
    let negative = s.len() > 0 && s[0] == '-';
    let signed = s.len() > 0 && (s[0] == '-' || s[0] == '+');
    let digits = if signed { s.drop_first() } else { s };
    if digits.len() == 0 || !all_digits(digits) {
        None
    } else {
        let v = if negative { -digits_value(digits) } else { digits_value(digits) };
        if i64::MIN <= v <= i64::MAX { Some(v) } else { None }
    }
}

/// `s` without the prefix `prefix`, or `None` when it does not start with it
/// (`str::strip_prefix`).
pub fn strip_prefix_chars(s: &Vec<char>, prefix: &str) -> (r: Option<Vec<char>>)
    ensures
        r matches Some(v) ==> strip_prefix_seq(s@, prefix@) == Some(v@),
        r is None ==> strip_prefix_seq(s@, prefix@) is None,
{
    let p = chars_of(prefix);
    if p.len() > s.len() {
        return None;
    }
    let mut i: usize = 0;
    while i < p.len()
        invariant
            p@ == prefix@,
            p@.len() <= s@.len(),
            i <= p@.len(),
            s@.subrange(0, i as int) == p@.subrange(0, i as int),
        decreases p@.len() - i,
    {
        if s[i] != p[i] {
            proof {
                assert(s@.subrange(0, p@.len() as int)[i as int] != p@[i as int]);
            }
            return None;
        }
        proof {
            assert(s@.subrange(0, i + 1) =~= s@.subrange(0, i as int).push(s@[i as int]));
            assert(p@.subrange(0, i + 1) =~= p@.subrange(0, i as int).push(p@[i as int]));
        }
        i = i + 1;
    }
    let mut rest: Vec<char> = Vec::new();
    let mut j: usize = p.len();
    while j < s.len()
        invariant
            p@.len() <= j <= s@.len(),
            rest@ == s@.subrange(p@.len() as int, j as int),
        decreases s@.len() - j,
    {
        rest.push(s[j]);
        proof {
            assert(s@.subrange(p@.len() as int, j + 1) =~= s@.subrange(p@.len() as int, j as int).push(s@[j as int]));
        }
        j = j + 1;
    }
    proof {
        assert(p@.subrange(0, p@.len() as int) =~= p@);
    }
    Some(rest)
}

/// `v` without its leading `'0'` characters (`trim_start_matches('0')`).
pub fn trim_leading_zero_chars(v: &Vec<char>) -> (r: Vec<char>)
    ensures
        r@ == trim_leading_zeros(v@),
{
    let mut k: usize = 0;
    proof {
        assert(v@.subrange(0, v@.len() as int) =~= v@);
    }
    while k < v.len() && v[k] == '0'
        invariant
            k <= v@.len(),
            trim_leading_zeros(v@) == trim_leading_zeros(v@.subrange(k as int, v@.len() as int)),
        decreases v@.len() - k,
    {
        proof {
            assert(v@.subrange(k as int, v@.len() as int).drop_first() =~= v@.subrange(k + 1, v@.len() as int));
        }
        k = k + 1;
    }
    let mut rest: Vec<char> = Vec::new();
    let mut j: usize = k;
    while j < v.len()
        invariant
            k <= j <= v@.len(),
            rest@ == v@.subrange(k as int, j as int),
        decreases v@.len() - j,
    {
        rest.push(v[j]);
        proof {
            assert(v@.subrange(k as int, j + 1) =~= v@.subrange(k as int, j as int).push(v@[j as int]));
        }
        j = j + 1;
    }
    rest
}

/// The number `s` denotes as `str::parse::<i64>` reads it, or zero where
/// it does not parse (`parse().unwrap_or_default()`).
pub fn parse_i64_or_zero(s: &str) -> (r: i64)
    ensures
        r as int == (match parsed_i64(s@) {
            Some(v) => v,
            None => 0,
        }),
{
    let v = chars_of(s);
    let n = v.len();
    if n == 0 {
        return 0;
    }
    let negative = v[0] == '-';
    let signed = v[0] == '-' || v[0] == '+';
    let start: usize = if signed { 1 } else { 0 };
    if start == n {
        proof {
            assert(s@.drop_first().len() == 0);
        }
        return 0;
    }
    let ghost digits = if signed { s@.drop_first() } else { s@ };
    proof {
        assert(v@[0] == s@[0]);
        assert(negative == (s@[0] == '-'));
        assert(signed == (s@[0] == '-' || s@[0] == '+'));
        assert(digits =~= v@.subrange(start as int, n as int));
    }
    let limit: i128 = 9223372036854775808i128;
    let mut acc: i128 = 0;
    let mut i: usize = start;
    while i < n
        invariant
            v@ == s@,
            n == v@.len(),
            start <= i <= n,
            n > 0,
            negative == (s@[0] == '-'),
            signed == (s@[0] == '-' || s@[0] == '+'),
            digits == (if signed { s@.drop_first() } else { s@ }),
            digits == v@.subrange(start as int, n as int),
            all_digits(v@.subrange(start as int, i as int)),
            acc as int == digits_value(v@.subrange(start as int, i as int)),
            0 <= acc <= limit,
            limit == 9223372036854775808i128,
        decreases n - i,
    {
        let c = v[i];
        proof {
            assert(v@.subrange(start as int, i + 1).drop_last() =~= v@.subrange(start as int, i as int));
        }
        if c < '0' || c > '9' {
            proof {
                assert(digits[i - start] == c);
                assert(!all_digits(digits));
                assert(parsed_i64(s@) is None);
            }
            return 0;
        }
        let d: i128 = (c as u32 - 48u32) as i128;
        acc = acc * 10 + d;
        proof {
            assert(all_digits(v@.subrange(start as int, i + 1))) by {
                assert forall|k: int| 0 <= k < i + 1 - start implies '0' <= #[trigger] v@.subrange(start as int, i + 1)[k]
                    && v@.subrange(start as int, i + 1)[k] <= '9' by {
                    if k < i - start {
                        assert(v@.subrange(start as int, i + 1)[k] == v@.subrange(start as int, i as int)[k]);
                    }
                }
            }
        }
        if acc > limit {
            proof {
                if all_digits(digits) {
                    lemma_digits_value_prefix_bound(digits, (i + 1 - start) as int);
                    assert(digits.subrange(0, (i + 1 - start) as int) =~= v@.subrange(start as int, i + 1));
                    assert(digits_value(digits) > 9223372036854775808);
                }
                assert(parsed_i64(s@) is None);
            }
            return 0;
        }
        i = i + 1;
    }
    proof {
        assert(v@.subrange(start as int, n as int) =~= digits);
    }
    if negative {
        (-acc) as i64
    } else if acc > 9223372036854775807i128 {
        0
    } else {
        acc as i64
    }
}

/// The digits of `decimal_seq(n)` denote `n`.
pub proof fn lemma_decimal_value(n: nat)
    ensures
        digits_value(decimal_seq(n)) == n,
        all_digits(decimal_seq(n)),
        decimal_seq(n).len() >= 1,
        n >= 1 ==> decimal_seq(n)[0] != '0',
    decreases n,
{
    lemma_decimal_seq_digits(n);
    if n < 10 {
        assert(decimal_seq(n).drop_last() =~= Seq::<char>::empty());
        assert(digit_char(n) as int == 48 + n);
        assert(digits_value(Seq::<char>::empty()) == 0);
        assert(decimal_seq(n).last() == digit_char(n));
    } else {
        lemma_decimal_value(n / 10);
        let d = decimal_seq(n);
        assert(d.drop_last() =~= decimal_seq(n / 10));
        assert(digit_char(n % 10) as int == 48 + n % 10);
        assert(d[0] == decimal_seq(n / 10)[0]);
        assert(d.last() == digit_char(n % 10));
        assert(digits_value(d) == digits_value(decimal_seq(n / 10)) * 10 + (n % 10));
        assert((n / 10) * 10 + n % 10 == n);
    }
}

/// A run of zeros denotes nothing.
proof fn lemma_zeros_value(k: nat)
    ensures
        digits_value(Seq::new(k, |i: int| '0')) == 0,
        all_digits(Seq::new(k, |i: int| '0')),
    decreases k,
{
    if k > 0 {
        lemma_zeros_value((k - 1) as nat);
        assert(Seq::new(k, |i: int| '0').drop_last() =~= Seq::new((k - 1) as nat, |i: int| '0'));
    }
}

/// Leading zeros do not change the number digits denote.
pub proof fn lemma_leading_zeros_value(k: nat, d: Seq<char>)
    ensures
        digits_value(Seq::new(k, |i: int| '0') + d) == digits_value(d),
    decreases d.len(),
{
    let z = Seq::new(k, |i: int| '0');
    if d.len() == 0 {
        assert(z + d =~= z);
        lemma_zeros_value(k);
    } else {
        lemma_leading_zeros_value(k, d.drop_last());
        assert((z + d).drop_last() =~= z + d.drop_last());
        assert((z + d).last() == d.last());
    }
}

/// Zero padding keeps the number and the digits.
pub proof fn lemma_zero_padded_value(n: nat, width: nat)
    ensures
        digits_value(zero_padded(decimal_seq(n), width)) == n,
        all_digits(zero_padded(decimal_seq(n), width)),
        zero_padded(decimal_seq(n), width).len() >= 1,
{
    lemma_decimal_value(n);
    let d = decimal_seq(n);
    if d.len() < width {
        let k = (width - d.len()) as nat;
        lemma_leading_zeros_value(k, d);
        lemma_zeros_value(k);
        let z = Seq::new(k, |i: int| '0');
        assert forall|i: int| 0 <= i < (z + d).len() implies '0' <= #[trigger] (z + d)[i] && (z + d)[i] <= '9' by {
            if i >= z.len() {
                assert((z + d)[i] == d[i - z.len()]);
            }
        }
    }
}

/// Stripping leading zeros from a zero padded positive number gives its
/// plain decimal representation.
pub proof fn lemma_trim_zero_padded(n: nat, width: nat)
    requires
        n >= 1,
    ensures
        trim_leading_zeros(zero_padded(decimal_seq(n), width)) == decimal_seq(n),
{
    lemma_decimal_value(n);
    let d = decimal_seq(n);
    assert(trim_leading_zeros(d) == d);
    if d.len() < width {
        lemma_trim_zeros_prefix((width - d.len()) as nat, d);
    }
}

proof fn lemma_trim_zeros_prefix(k: nat, d: Seq<char>)
    ensures
        trim_leading_zeros(Seq::new(k, |i: int| '0') + d) == trim_leading_zeros(d),
    decreases k,
{
    if k > 0 {
        let z = Seq::new(k, |i: int| '0');
        assert((z + d)[0] == '0');
        assert((z + d).drop_first() =~= Seq::new((k - 1) as nat, |i: int| '0') + d);
        lemma_trim_zeros_prefix((k - 1) as nat, d);
    } else {
        assert(Seq::new(k, |i: int| '0') + d =~= d);
    }
}

proof fn lemma_digits_value_nonneg(s: Seq<char>)
    requires
        all_digits(s),
    ensures
        digits_value(s) >= 0,
    decreases s.len(),
{
    if s.len() > 0 {
        assert(all_digits(s.drop_last())) by {
            assert forall|i: int| 0 <= i < s.drop_last().len() implies '0' <= #[trigger] s.drop_last()[i] && s.drop_last()[i] <= '9' by {
                assert(s.drop_last()[i] == s[i]);
            }
        }
        lemma_digits_value_nonneg(s.drop_last());
        assert('0' <= s[s.len() - 1]);
    }
}

/// The value of digits never falls below the value of a prefix.
proof fn lemma_digits_value_prefix_bound(s: Seq<char>, k: int)
    requires
        0 <= k <= s.len(),
        all_digits(s),
    ensures
        digits_value(s) >= digits_value(s.subrange(0, k)),
    decreases s.len(),
{
    if k < s.len() {
        assert(all_digits(s.drop_last())) by {
            assert forall|i: int| 0 <= i < s.drop_last().len() implies '0' <= #[trigger] s.drop_last()[i] && s.drop_last()[i] <= '9' by {
                assert(s.drop_last()[i] == s[i]);
            }
        }
        lemma_digits_value_prefix_bound(s.drop_last(), k);
        assert(s.drop_last().subrange(0, k) =~= s.subrange(0, k));
        lemma_digits_value_nonneg(s.drop_last());
        assert('0' <= s[s.len() - 1]);
        assert(digits_value(s) >= digits_value(s.drop_last()));
    } else {
        assert(s.subrange(0, k) =~= s);
    }
}

} // verus!
