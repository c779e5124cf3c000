//! Text building blocks shared by the circuit and contract emitters:
//! decimal rendering of sizes and indices, identifier uppercasing, and the
//! newline normalization applied to rendered source.

use vstd::prelude::*;

verus! {

/// The digit character for a value below ten.
pub open spec fn spec_dec_digit(d: int) -> char {
    if d == 0 {
        '0'
    } else if d == 1 {
        '1'
    } else if d == 2 {
        '2'
    } else if d == 3 {
        '3'
    } else if d == 4 {
        '4'
    } else if d == 5 {
        '5'
    } else if d == 6 {
        '6'
    } else if d == 7 {
        '7'
    } else if d == 8 {
        '8'
    } else {
        '9'
    }
}

/// The decimal rendering of `n`, most significant digit first.
pub open spec fn spec_dec_str(n: int) -> Seq<char>
    decreases n,
{
    if n < 10 {
        seq![spec_dec_digit(n)]
    } else {
        spec_dec_str(n / 10) + seq![spec_dec_digit(n % 10)]
    }
}

fn digit_str(d: usize) -> (s: &'static str)
    requires
        d < 10,
    ensures
        s@ =~= seq![spec_dec_digit(d as int)],
{
    proof {
        reveal_strlit("0");
        reveal_strlit("1");
        reveal_strlit("2");
        reveal_strlit("3");
        reveal_strlit("4");
        reveal_strlit("5");
        reveal_strlit("6");
        reveal_strlit("7");
        reveal_strlit("8");
        reveal_strlit("9");
    }
    match d {
        0 => "0",
        1 => "1",
        2 => "2",
        3 => "3",
        4 => "4",
        5 => "5",
        6 => "6",
        7 => "7",
        8 => "8",
        _ => "9",
    }
}

/// Renders `n` in decimal.
pub fn dec_string(n: usize) -> (s: String)
    ensures
        s@ == spec_dec_str(n as int),
    decreases n,
{
    if n < 10 {
        digit_str(n).to_owned()
    } else {
        let mut s = dec_string(n / 10);
        s.append(digit_str(n % 10));
        s
    }
}

/// Appends the decimal rendering of `n` to `s`.
pub fn append_dec(s: &mut String, n: usize)
    ensures
        final(s)@ == old(s)@ + spec_dec_str(n as int),
{
    let d = dec_string(n);
    s.append(d.as_str());
}

/// What `str::to_uppercase` returns: a function of the characters alone.
pub uninterp spec fn upper_of(s: Seq<char>) -> Seq<char>;

/// Relies on str::to_uppercase: returns the uppercase equivalent of the
/// string, determined by its characters alone; an empty string stays
/// empty.
#[verifier::external_body]
pub(crate) fn uppercase(s: &str) -> (r: String)
    ensures
        r@ == upper_of(s@),
        s@.len() == 0 ==> r@.len() == 0,
{
    s.to_uppercase()
}

/// The string with every run of consecutive newlines collapsed to a
/// single newline: a character is dropped exactly when it is a newline
/// directly preceded by another newline.
pub open spec fn spec_collapse_newlines(s: Seq<char>) -> Seq<char>
    decreases s.len(),
{
    if s.len() == 0 {
        Seq::empty()
    } else {
        let prev = spec_collapse_newlines(s.drop_last());
        if s.last() == '\n' && s.len() >= 2 && s[s.len() - 2] == '\n' {
            prev
        } else {
            prev.push(s.last())
        }
    }
}

/// Collapses runs of consecutive newlines in rendered source to single
/// newlines.  Cosmetic normalization only: every character that is not a
/// repeated newline is kept, in order.
#[verifier::loop_isolation(false)]
pub fn collapse_newlines(s: &str) -> (r: String)
    ensures
        r@ == spec_collapse_newlines(s@),
{
    let s_len = s.unicode_len();
    let mut out = String::new();
    let mut i: usize = 0;
    while i < s_len
        invariant
            i <= s_len,
            out@ == spec_collapse_newlines(s@.take(i as int)),
        decreases s_len - i,
    {
        let c = s.get_char(i);
        let skip = c == '\n' && i > 0 && s.get_char(i - 1) == '\n';
        proof {
            assert(s@.take(i as int + 1).drop_last() =~= s@.take(i as int));
            assert(s@.take(i as int + 1).last() == s@[i as int]);
        }
        if !skip {
            push_char(&mut out, c);
        }
        i = i + 1;
    }
    proof {
        assert(s@.take(s_len as int) =~= s@);
    }
    out
}

/// Relies on String::push: appends the one character to the end of the
/// string.
#[verifier::external_body]
fn push_char(s: &mut String, c: char)
    ensures
        final(s)@ == old(s)@.push(c),
{
    s.push(c);
}

} // verus!
