//! Discovery of the minimal cryptographic setup size for a compiled
//! circuit: either directly from the constraint and wire counts in the
//! compiler's textual report, or by parsing the diagnostic text that a
//! deliberately under-provisioned trial setup produces.

use vstd::prelude::*;

use vstd::arithmetic::power2::pow2;
use vstd::arithmetic::power2::lemma_pow2_strictly_increases;
use vstd::arithmetic::power2::lemma_pow2_unfold;
use vstd::arithmetic::power2::lemma2_to64;
use vstd::arithmetic::power2::lemma2_to64_rest;

verus! {

/// Failure of probe-based sizing.  There is no fallback heuristic: when
/// the diagnostic cannot be read, sizing must not guess.
#[derive(Debug, Clone, Copy, PartialEq, Eq)]
pub enum SizingError {
    /// The diagnostic text holds no readable constraint count (no
    /// `<digits>*<digits>` pattern, or a count beyond the machine word).
    PowerOfTauUnknown,
}

/// Ceiling of the base-2 logarithm: the least `k` with `pow2(k) >= n`
/// (0 for `n <= 1`).
pub open spec fn clog2(n: int) -> nat
    decreases (if n <= 1 { 1int } else { n }),
{
    if n <= 1 {
        0
    } else {
        (1 + clog2((n + 1) / 2)) as nat
    }
}

/// `clog2` is exactly the least exponent whose power of two reaches `n`.
pub proof fn lemma_clog2_bounds(n: int)
    requires
        n >= 0,
    ensures
        pow2(clog2(n)) >= n,
        n >= 2 ==> pow2((clog2(n) - 1) as nat) < n,
    decreases (if n <= 1 { 1int } else { n }),
{
    if n <= 1 {
        assert(pow2(0) == 1) by {
            lemma2_to64();
        }
    } else {
        let m = (n + 1) / 2;
        lemma_clog2_bounds(m);
        let k = clog2(m);
        lemma_pow2_unfold((k + 1) as nat);
        assert(pow2((k + 1) as nat) == 2 * pow2(k));
        assert(2 * pow2(k) >= 2 * m);
        if m >= 2 {
            lemma_pow2_unfold(k);
            assert(pow2((k - 1) as nat) <= m - 1);
            assert(pow2(k) == 2 * pow2((k - 1) as nat));
        } else {
            assert(m == 1);
            assert(n == 2);
            assert(pow2(0) == 1) by {
                lemma2_to64();
            }
        }
    }
}

/// Any `k` that reaches `n` minimally is `clog2(n)`.
proof fn lemma_clog2_unique(n: int, k: nat)
    requires
        n >= 0,
        pow2(k) >= n,
        k == 0 || pow2((k - 1) as nat) < n,
    ensures
        k == clog2(n),
{
    lemma_clog2_bounds(n);
    let c = clog2(n);
    if k < c {
        // then n >= 2 (else c == 0 <= k), and pow2(k) <= pow2(c - 1) < n
        if n >= 2 {
            if k < c - 1 {
                lemma_pow2_strictly_increases(k, (c - 1) as nat);
            }
            assert(pow2(k) <= pow2((c - 1) as nat));
        }
    }
    if k > c {
        if c < k - 1 {
            lemma_pow2_strictly_increases(c, (k - 1) as nat);
        }
        assert(pow2((k - 1) as nat) >= pow2(c));
    }
}

/// `clog2` never decreases as its argument grows.
pub proof fn lemma_clog2_monotone(a: int, b: int)
    requires
        0 <= a <= b,
    ensures
        clog2(a) <= clog2(b),
{
    lemma_clog2_bounds(a);
    lemma_clog2_bounds(b);
    if clog2(a) > clog2(b) {
        // a >= 2, since otherwise clog2(a) == 0
        assert(a >= 2);
        let ka = clog2(a);
        let kb = clog2(b);
        if kb < ka - 1 {
            lemma_pow2_strictly_increases(kb, (ka - 1) as nat);
        }
        assert(pow2(kb) <= pow2((ka - 1) as nat));
        assert(pow2(kb) < a);
        assert(pow2(kb) >= b);
    }
}

/// Sizing monotonicity: growing the constraint or wire count never
/// shrinks the required setup size.  `clog2(m + 1)` is the direct-sizing
/// exponent for a count of `m`.
pub proof fn lemma_direct_sizing_monotone(m1: int, m2: int)
    requires
        0 <= m1 <= m2,
    ensures
        clog2(m1 + 1) <= clog2(m2 + 1),
{
    lemma_clog2_monotone(m1 + 1, m2 + 1);
}

/// An ASCII decimal digit.
pub open spec fn spec_is_digit(c: char) -> bool {
    48 <= c as u32 <= 57
}

/// Numeric value of a digit character.
pub open spec fn spec_digit_val(c: char) -> int {
    c as u32 - 48
}

/// Whitespace that surrounds a reported number: space, tab, or the
/// carriage return left at a line end.
pub open spec fn spec_is_space(c: char) -> bool {
    c == ' ' || c == '\t' || c == '\r'
}

/// Every character is a decimal digit.
pub open spec fn spec_all_digits(s: Seq<char>) -> bool {
    forall|t: int| 0 <= t < s.len() ==> spec_is_digit(#[trigger] s[t])
}

/// Value of a digit string read in base 10.
pub open spec fn spec_dec_val(s: Seq<char>) -> int
    decreases s.len(),
{
    if s.len() == 0 {
        0
    } else {
        spec_dec_val(s.drop_last()) * 10 + spec_digit_val(s.last())
    }
}

/// What parsing a trimmed field yields: its decimal value when it is a
/// nonempty digit string whose value fits the machine word, else 0.
pub open spec fn spec_parse_or_zero(s: Seq<char>) -> int {
    if s.len() > 0 && spec_all_digits(s) && spec_dec_val(s) <= u64::MAX {
        spec_dec_val(s)
    } else {
        0
    }
}

/// Index of the first occurrence of `c`, or the length if absent.
pub open spec fn spec_find_char(s: Seq<char>, c: char) -> int
    decreases s.len(),
{
    if s.len() == 0 {
        0
    } else if s[0] == c {
        0
    } else {
        1 + spec_find_char(s.skip(1), c)
    }
}

/// `p` is a prefix of `s`.
pub open spec fn spec_starts_with(s: Seq<char>, p: Seq<char>) -> bool {
    p.len() <= s.len() && s.subrange(0, p.len() as int) == p
}

/// The string with its leading whitespace removed.
pub open spec fn spec_trim_start(s: Seq<char>) -> Seq<char>
    decreases s.len(),
{
    if s.len() > 0 && spec_is_space(s[0]) {
        spec_trim_start(s.skip(1))
    } else {
        s
    }
}

/// The string with its trailing whitespace removed.
pub open spec fn spec_trim_end(s: Seq<char>) -> Seq<char>
    decreases s.len(),
{
    if s.len() > 0 && spec_is_space(s.last()) {
        spec_trim_end(s.drop_last())
    } else {
        s
    }
}

/// The string with whitespace removed from both ends.
pub open spec fn spec_trim(s: Seq<char>) -> Seq<char> {
    spec_trim_end(spec_trim_start(s))
}

/// The number a labeled report line carries: the text between the label's
/// colon and the next colon or the line end, trimmed and parsed.
pub open spec fn spec_line_value(line: Seq<char>, prefix: Seq<char>) -> int {
    let rest = line.skip(prefix.len() as int);
    let seg = rest.take(spec_find_char(rest, ':'));
    spec_parse_or_zero(spec_trim(seg))
}

proof fn lemma_find_char_bounds(s: Seq<char>, c: char)
    ensures
        0 <= spec_find_char(s, c) <= s.len(),
    decreases s.len(),
{
    if s.len() > 0 && s[0] != c {
        lemma_find_char_bounds(s.skip(1), c);
    }
}

proof fn lemma_digit_run_bounds(s: Seq<char>)
    ensures
        0 <= spec_digit_run_len(s) <= s.len(),
    decreases s.len(),
{
    if s.len() > 0 && spec_is_digit(s[0]) {
        lemma_digit_run_bounds(s.skip(1));
    }
}

/// Walks the report line by line; the value of the last line that starts
/// with `prefix` wins, and `acc` is the value seen so far (0 initially).
pub open spec fn spec_scan(s: Seq<char>, prefix: Seq<char>, acc: int) -> int
    decreases s.len(),
    via spec_scan_decreases
{
    let n = spec_find_char(s, '\n');
    let line = s.take(n);
    let acc2 = if spec_starts_with(line, prefix) {
        spec_line_value(line, prefix)
    } else {
        acc
    };
    if n >= s.len() {
        acc2
    } else {
        spec_scan(s.skip(n + 1), prefix, acc2)
    }
}

#[via_fn]
proof fn spec_scan_decreases(s: Seq<char>, prefix: Seq<char>, acc: int) {
    lemma_find_char_bounds(s, '\n');
}

/// The larger of the two counts the compiler reports: non-linear
/// constraints and wires.
pub open spec fn spec_direct_max(s: Seq<char>) -> int {
    let c = spec_scan(s, "non-linear constraints:"@, 0);
    let w = spec_scan(s, "wires:"@, 0);
    if c >= w {
        c
    } else {
        w
    }
}

/// The direct-sizing exponent: the least `k` with `pow2(k)` strictly
/// above the larger reported count.
pub open spec fn spec_direct_sizing(s: Seq<char>) -> nat {
    clog2(spec_direct_max(s) + 1)
}

/// Length of the maximal digit prefix.
pub open spec fn spec_digit_run_len(s: Seq<char>) -> int
    decreases s.len(),
{
    if s.len() == 0 || !spec_is_digit(s[0]) {
        0
    } else {
        1 + spec_digit_run_len(s.skip(1))
    }
}

/// The first capture of the `<digits>*<digit>` shape in the diagnostic:
/// the leftmost maximal digit run that is directly followed by a `*` and
/// another digit.
pub open spec fn spec_probe_extract(s: Seq<char>) -> Option<Seq<char>>
    decreases s.len(),
    via spec_probe_extract_decreases
{
    if s.len() == 0 {
        None
    } else {
        let r = spec_digit_run_len(s);
        if r > 0 && r + 1 < s.len() && s[r] == '*' && spec_is_digit(s[r + 1]) {
            Some(s.take(r))
        } else if r >= s.len() {
            None
        } else {
            spec_probe_extract(s.skip(r + 1))
        }
    }
}

#[via_fn]
proof fn spec_probe_extract_decreases(s: Seq<char>) {
    lemma_digit_run_bounds(s);
}

proof fn lemma_find_char_is(u: Seq<char>, c: char, j: int)
    requires
        0 <= j <= u.len(),
        forall|t: int| 0 <= t < j ==> u[t] != c,
        j < u.len() ==> u[j] == c,
    ensures
        spec_find_char(u, c) == j,
    decreases j,
{
    if j == 0 {
    } else {
        assert(u[0] != c);
        lemma_find_char_is(u.skip(1), c, j - 1);
    }
}

proof fn lemma_digit_run_is(u: Seq<char>, j: int)
    requires
        0 <= j <= u.len(),
        forall|t: int| 0 <= t < j ==> spec_is_digit(u[t]),
        j < u.len() ==> !spec_is_digit(u[j]),
    ensures
        spec_digit_run_len(u) == j,
    decreases j,
{
    if j == 0 {
    } else {
        assert(spec_is_digit(u[0]));
        lemma_digit_run_is(u.skip(1), j - 1);
    }
}

proof fn lemma_trim_start_is(u: Seq<char>, i: int)
    requires
        0 <= i <= u.len(),
        forall|t: int| 0 <= t < i ==> spec_is_space(u[t]),
        i < u.len() ==> !spec_is_space(u[i]),
    ensures
        spec_trim_start(u) =~= u.subrange(i, u.len() as int),
    decreases i,
{
    if i == 0 {
        if u.len() > 0 && spec_is_space(u[0]) {
            assert(false);
        }
    } else {
        assert(spec_is_space(u[0]));
        lemma_trim_start_is(u.skip(1), i - 1);
        assert(u.skip(1).subrange(i - 1, u.skip(1).len() as int) =~= u.subrange(
            i,
            u.len() as int,
        ));
    }
}

proof fn lemma_trim_end_is(u: Seq<char>, j: int)
    requires
        0 <= j <= u.len(),
        forall|t: int| j <= t < u.len() ==> spec_is_space(u[t]),
        j > 0 ==> !spec_is_space(u[j - 1]),
    ensures
        spec_trim_end(u) =~= u.subrange(0, j),
    decreases u.len() - j,
{
    if j == u.len() {
        if u.len() > 0 && spec_is_space(u.last()) {
            assert(false);
        }
    } else {
        assert(spec_is_space(u.last()));
        lemma_trim_end_is(u.drop_last(), j);
    }
}

proof fn lemma_dec_val_nonneg(u: Seq<char>)
    requires
        spec_all_digits(u),
    ensures
        spec_dec_val(u) >= 0,
    decreases u.len(),
{
    if u.len() > 0 {
        assert(spec_all_digits(u.drop_last()));
        lemma_dec_val_nonneg(u.drop_last());
    }
}

proof fn lemma_dec_val_prefix_le(u: Seq<char>, l: int)
    requires
        spec_all_digits(u),
        0 <= l <= u.len(),
    ensures
        spec_dec_val(u.subrange(0, l)) <= spec_dec_val(u),
    decreases u.len() - l,
{
    if l == u.len() {
        assert(u.subrange(0, l) =~= u);
    } else {
        lemma_dec_val_prefix_le(u, l + 1);
        let a = u.subrange(0, l);
        let b = u.subrange(0, l + 1);
        assert(b.drop_last() =~= a);
        assert(spec_all_digits(a));
        lemma_dec_val_nonneg(a);
        assert(spec_dec_val(b) == spec_dec_val(a) * 10 + spec_digit_val(u[l]));
    }
}

/// Is `c` space, tab, or carriage return?
fn is_space_char(c: char) -> (b: bool)
    ensures
        b == spec_is_space(c),
{
    c == ' ' || c == '\t' || c == '\r'
}

/// First index in `[from, to)` holding `c`, or `to` when there is none.
fn find_char_in(s: &str, s_len: usize, from: usize, to: usize, c: char) -> (j: usize)
    requires
        from <= to <= s_len,
        s_len == s@.len(),
    ensures
        from <= j <= to,
        forall|t: int| from <= t < j ==> s@[t] != c,
        j < to ==> s@[j as int] == c,
{
    let mut j = from;
    while j < to
        invariant
            from <= j <= to <= s_len,
            s_len == s@.len(),
            forall|t: int| from <= t < j ==> s@[t] != c,
        decreases to - j,
    {
        if s.get_char(j) == c {
            return j;
        }
        j = j + 1;
    }
    j
}

/// First index in `[from, to)` holding a non-digit, or `to`.
fn find_non_digit_in(s: &str, s_len: usize, from: usize, to: usize) -> (j: usize)
    requires
        from <= to <= s_len,
        s_len == s@.len(),
    ensures
        from <= j <= to,
        forall|t: int| from <= t < j ==> spec_is_digit(s@[t]),
        j < to ==> !spec_is_digit(s@[j as int]),
{
    let mut j = from;
    while j < to
        invariant
            from <= j <= to <= s_len,
            s_len == s@.len(),
            forall|t: int| from <= t < j ==> spec_is_digit(s@[t]),
        decreases to - j,
    {
        let u = s.get_char(j) as u32;
        if !(48 <= u && u <= 57) {
            return j;
        }
        j = j + 1;
    }
    j
}

/// Do the characters `[from, to)` of `s` start with `prefix`?
#[verifier::loop_isolation(false)]
fn starts_with_at(s: &str, s_len: usize, from: usize, to: usize, prefix: &str, plen: usize) -> (b:
    bool)
    requires
        from <= to <= s_len,
        s_len == s@.len(),
        plen == prefix@.len(),
    ensures
        b == spec_starts_with(s@.subrange(from as int, to as int), prefix@),
{
    let ghost u = s@.subrange(from as int, to as int);
    if to - from < plen {
        return false;
    }
    let mut t: usize = 0;
    while t < plen
        invariant
            from <= to <= s_len,
            s_len == s@.len(),
            plen == prefix@.len(),
            plen <= to - from,
            t <= plen,
            u == s@.subrange(from as int, to as int),
            forall|x: int| 0 <= x < t ==> u[x] == prefix@[x],
        decreases plen - t,
    {
        if s.get_char(from + t) != prefix.get_char(t) {
            assert(u[t as int] != prefix@[t as int]);
            return false;
        }
        t = t + 1;
    }
    assert(u.subrange(0, plen as int) =~= prefix@);
    true
}

/// Parses the characters `[a, b)` of `s` after trimming whitespace:
/// their decimal value, or 0 when the field is empty, holds a non-digit,
/// or overflows the machine word.
#[verifier::loop_isolation(false)]
fn parse_trimmed(s: &str, s_len: usize, a: usize, b: usize) -> (v: u64)
    requires
        a <= b <= s_len,
        s_len == s@.len(),
    ensures
        v as int == spec_parse_or_zero(spec_trim(s@.subrange(a as int, b as int))),
{
    let ghost whole = s@.subrange(a as int, b as int);
    let mut i = a;
    while i < b && is_space_char(s.get_char(i))
        invariant
            a <= i <= b <= s_len,
            s_len == s@.len(),
            forall|t: int| a <= t < i ==> spec_is_space(s@[t]),
        decreases b - i,
    {
        i = i + 1;
    }
    proof {
        lemma_trim_start_is(whole, i - a);
        assert(whole.subrange(i - a, whole.len() as int) =~= s@.subrange(i as int, b as int));
    }
    let ghost started = s@.subrange(i as int, b as int);
    let mut j = b;
    while j > i && is_space_char(s.get_char(j - 1))
        invariant
            a <= i <= j <= b <= s_len,
            s_len == s@.len(),
            forall|t: int| j <= t < b ==> spec_is_space(s@[t]),
        decreases j,
    {
        j = j - 1;
    }
    proof {
        lemma_trim_end_is(started, j - i);
        assert(started.subrange(0, j - i) =~= s@.subrange(i as int, j as int));
    }
    let ghost trimmed = s@.subrange(i as int, j as int);
    assert(spec_trim(whole) == trimmed);

    if i == j {
        return 0;
    }
    let mut acc: u64 = 0;
    let mut t = i;
    while t < j
        invariant
            a <= i <= t <= j <= b <= s_len,
            s_len == s@.len(),
            trimmed == s@.subrange(i as int, j as int),
            forall|x: int| i <= x < t ==> spec_is_digit(s@[x]),
            acc as int == spec_dec_val(s@.subrange(i as int, t as int)),
        decreases j - t,
    {
        let c = s.get_char(t);
        let u = c as u32;
        if !(48 <= u && u <= 57) {
            assert(!spec_is_digit(trimmed[t - i]));
            assert(!spec_all_digits(trimmed));
            return 0;
        }
        let d = (u - 48) as u64;
        let ghost cur = s@.subrange(i as int, t as int);
        let ghost next = s@.subrange(i as int, t as int + 1);
        proof {
            assert(next.drop_last() =~= cur);
            assert(spec_dec_val(next) == spec_dec_val(cur) * 10 + spec_digit_val(s@[t as int]));
        }
        if acc > (u64::MAX - d) / 10 {
            proof {
                assert(spec_dec_val(next) > u64::MAX);
                if spec_all_digits(trimmed) {
                    assert(forall|x: int|
                        0 <= x < trimmed.len() ==> spec_is_digit(#[trigger] trimmed[x]));
                    assert(next =~= trimmed.subrange(0, t - i + 1));
                    lemma_dec_val_prefix_le(trimmed, t - i + 1);
                    assert(spec_dec_val(trimmed) > u64::MAX);
                }
            }
            return 0;
        }
        acc = acc * 10 + d;
        t = t + 1;
    }
    proof {
        assert(trimmed =~= s@.subrange(i as int, j as int));
        assert(spec_all_digits(trimmed));
        assert(spec_parse_or_zero(spec_trim(whole)) == acc as int);
    }
    acc
}

/// Value of the last line of `s` that starts with `prefix`, read between
/// the label's colon and the next colon or line end; 0 when no line
/// matches or the field does not parse.
#[verifier::loop_isolation(false)]
fn scan_report(s: &str, prefix: &str) -> (v: u64)
    ensures
        v as int == spec_scan(s@, prefix@, 0),
{
    let s_len = s.unicode_len();
    let plen = prefix.unicode_len();
    let mut pos: usize = 0;
    let mut acc: u64 = 0;
    proof {
        assert(s@.subrange(0, s_len as int) =~= s@);
    }
    loop
        invariant
            pos <= s_len,
            s_len == s@.len(),
            plen == prefix@.len(),
            spec_scan(s@, prefix@, 0) == spec_scan(
                s@.subrange(pos as int, s_len as int),
                prefix@,
                acc as int,
            ),
        decreases s_len - pos,
    {
        let ghost rest = s@.subrange(pos as int, s_len as int);
        let j = find_char_in(s, s_len, pos, s_len, '\n');
        proof {
            lemma_find_char_is(rest, '\n', j - pos);
        }
        let ghost line = s@.subrange(pos as int, j as int);
        proof {
            assert(rest.take(j - pos) =~= line);
        }
        let matched = starts_with_at(s, s_len, pos, j, prefix, plen);
        if matched {
            let cidx = find_char_in(s, s_len, pos + plen, j, ':');
            let ghost seg_rest = line.skip(plen as int);
            proof {
                assert(seg_rest =~= s@.subrange(pos as int + plen, j as int));
                lemma_find_char_is(seg_rest, ':', cidx - pos - plen);
                assert(seg_rest.take(cidx - pos - plen) =~= s@.subrange(
                    pos as int + plen,
                    cidx as int,
                ));
            }
            let v = parse_trimmed(s, s_len, pos + plen, cidx);
            acc = v;
            proof {
                assert(spec_line_value(line, prefix@) == v as int);
            }
        }
        if j == s_len {
            return acc;
        }
        proof {
            assert(rest.skip(j - pos + 1) =~= s@.subrange(j as int + 1, s_len as int));
        }
        pos = j + 1;
    }
}

/// Derives the setup size from a compiler report: reads the labeled
/// `non-linear constraints:` and `wires:` counts (the last of each label
/// wins; an unreadable or absent count reads as 0) and returns the least
/// `k` such that `2^k` strictly exceeds the larger count.
pub fn direct_sizing(report: &str) -> (k: usize)
    ensures
        k == spec_direct_sizing(report@),
        pow2(k as nat) > spec_direct_max(report@),
        k == 0 || pow2((k - 1) as nat) <= spec_direct_max(report@),
{
    let c = scan_report(report, "non-linear constraints:");
    let w = scan_report(report, "wires:");
    let m = if c >= w {
        c
    } else {
        w
    };
    let k = if m == u64::MAX {
        proof {
            lemma2_to64();
            lemma2_to64_rest();
            lemma_clog2_unique(m as int + 1, 64);
        }
        64
    } else {
        clog2_u64(m + 1)
    };
    proof {
        lemma_clog2_bounds(m as int + 1);
    }
    k
}

/// Parses the digit characters `[a, b)` of `s`, whose value the caller
/// knows are all digits; `None` when the value overflows the machine word.
#[verifier::loop_isolation(false)]
fn parse_digits_checked(s: &str, s_len: usize, a: usize, b: usize) -> (r: Option<u64>)
    requires
        a <= b <= s_len,
        s_len == s@.len(),
        forall|t: int| a <= t < b ==> spec_is_digit(s@[t]),
    ensures
        match r {
            Some(v) => v as int == spec_dec_val(s@.subrange(a as int, b as int))
                && spec_dec_val(s@.subrange(a as int, b as int)) <= u64::MAX,
            None => spec_dec_val(s@.subrange(a as int, b as int)) > u64::MAX,
        },
{
    let ghost whole = s@.subrange(a as int, b as int);
    let mut acc: u64 = 0;
    let mut t = a;
    while t < b
        invariant
            a <= t <= b <= s_len,
            s_len == s@.len(),
            forall|x: int| a <= x < b ==> spec_is_digit(s@[x]),
            acc as int == spec_dec_val(s@.subrange(a as int, t as int)),
        decreases b - t,
    {
        let c = s.get_char(t);
        let u = c as u32;
        let d = (u - 48) as u64;
        let ghost cur = s@.subrange(a as int, t as int);
        let ghost next = s@.subrange(a as int, t as int + 1);
        proof {
            assert(spec_is_digit(s@[t as int]));
            assert(next.drop_last() =~= cur);
            assert(spec_dec_val(next) == spec_dec_val(cur) * 10 + spec_digit_val(s@[t as int]));
        }
        if acc > (u64::MAX - d) / 10 {
            proof {
                assert(spec_dec_val(next) > u64::MAX);
                assert forall|x: int| 0 <= x < whole.len() implies spec_is_digit(
                    #[trigger] whole[x],
                ) by {
                    assert(whole[x] == s@[a + x]);
                }
                assert(next =~= whole.subrange(0, t - a + 1));
                lemma_dec_val_prefix_le(whole, t - a + 1);
            }
            return None;
        }
        acc = acc * 10 + d;
        t = t + 1;
    }
    proof {
        assert(whole =~= s@.subrange(a as int, b as int));
    }
    Some(acc)
}

/// Derives the setup size from the diagnostic text of a deliberately
/// under-provisioned trial setup: extracts the first number of the
/// `<digits>*<digits>` shape and returns `clog2` of it plus 1.  Fails,
/// with no fallback heuristic, when the pattern is absent or its value
/// does not fit the machine word.
#[verifier::loop_isolation(false)]
pub fn probe_sizing(diagnostic: &str) -> (r: Result<usize, SizingError>)
    ensures
        match spec_probe_extract(diagnostic@) {
            Some(d) => {
                if spec_dec_val(d) <= u64::MAX {
                    r matches Ok(k) && k == clog2(spec_dec_val(d)) + 1
                } else {
                    r == Err::<usize, SizingError>(SizingError::PowerOfTauUnknown)
                }
            },
            None => r == Err::<usize, SizingError>(SizingError::PowerOfTauUnknown),
        },
        r matches Ok(k) ==> 1 <= k <= 65,
{
    let s_len = diagnostic.unicode_len();
    let mut pos: usize = 0;
    proof {
        assert(diagnostic@.subrange(0, s_len as int) =~= diagnostic@);
    }
    loop
        invariant
            pos <= s_len,
            s_len == diagnostic@.len(),
            spec_probe_extract(diagnostic@) == spec_probe_extract(
                diagnostic@.subrange(pos as int, s_len as int),
            ),
        decreases s_len - pos,
    {
        let ghost rest = diagnostic@.subrange(pos as int, s_len as int);
        if pos == s_len {
            assert(rest.len() == 0);
            return Err(SizingError::PowerOfTauUnknown);
        }
        let c = diagnostic.get_char(pos);
        let u = c as u32;
        if !(48 <= u && u <= 57) {
            proof {
                assert(rest[0] == diagnostic@[pos as int]);
                assert(spec_digit_run_len(rest) == 0);
                assert(rest.skip(1) =~= diagnostic@.subrange(pos as int + 1, s_len as int));
            }
            pos = pos + 1;
        } else {
            let e = find_non_digit_in(diagnostic, s_len, pos, s_len);
            proof {
                lemma_digit_run_is(rest, e - pos);
            }
            let hit = e < s_len && s_len - e >= 2 && diagnostic.get_char(e) == '*' && {
                let c2 = diagnostic.get_char(e + 1) as u32;
                48 <= c2 && c2 <= 57
            };
            if hit {
                let ghost run = diagnostic@.subrange(pos as int, e as int);
                proof {
                    assert(rest.take(e - pos) =~= run);
                    assert(spec_probe_extract(diagnostic@) == Some(run));
                }
                match parse_digits_checked(diagnostic, s_len, pos, e) {
                    Some(n) => {
                        let kk = clog2_u64(n);
                        return Ok(kk + 1);
                    },
                    None => {
                        return Err(SizingError::PowerOfTauUnknown);
                    },
                }
            } else {
                if e == s_len {
                    proof {
                        assert(spec_digit_run_len(rest) == rest.len());
                        assert(spec_probe_extract(rest) is None);
                    }
                    return Err(SizingError::PowerOfTauUnknown);
                }
                proof {
                    assert(rest.skip(e - pos + 1) =~= diagnostic@.subrange(
                        e as int + 1,
                        s_len as int,
                    ));
                }
                pos = e + 1;
            }
        }
    }
}

/// Computes `clog2(n)` by doubling a power of two until it reaches `n`.
fn clog2_u64(n: u64) -> (k: usize)
    ensures
        k == clog2(n as int),
        k <= 64,
{
    proof {
        lemma2_to64();
    }
    if n > 0x8000_0000_0000_0000u64 {
        proof {
            lemma2_to64_rest();
            assert(pow2(63) < n);
            lemma_clog2_unique(n as int, 64);
        }
        64
    } else {
        let mut k: usize = 0;
        let mut p: u64 = 1;
        while p < n
            invariant
                n <= 0x8000_0000_0000_0000u64,
                p >= 1,
                p == pow2(k as nat),
                k == 0 || pow2((k - 1) as nat) < n,
                k <= 63,
            decreases (if p < n {
                n - p
            } else {
                0int
            }),
        {
            proof {
                lemma_pow2_unfold((k + 1) as nat);
                if k == 63 {
                    assert(pow2(63) == 0x8000_0000_0000_0000nat) by {
                        lemma2_to64_rest();
                    }
                }
                assert(pow2((k + 1) as nat) == 2 * pow2(k as nat));
            }
            p = p * 2;
            k = k + 1;
        }
        proof {
            lemma_clog2_unique(n as int, k as nat);
        }
        k
    }
}

} // verus!
