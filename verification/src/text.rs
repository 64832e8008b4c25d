//! Character-level string helpers: splitting a string into its characters,
//! building strings, searching for substrings.

use vstd::prelude::*;
use vstd::std_specs::iter::IteratorSpec;

verus! {

broadcast use {vstd::string::axiom_spec_iter, vstd::string::next_postcondition};

/// The characters of `s`, in order.
pub fn chars_of(s: &str) -> (r: Vec<char>)
    ensures
        r@ == s@,
{
    let mut r: Vec<char> = Vec::new();
    let mut it = s.chars();
    loop
        invariant
            r@ + it.remaining() == s@,
            it.decrease() is Some,
        ensures
            r@ == s@,
        decreases it.decrease()->0,
    {
        match it.next() {
            Some(c) => {
                r.push(c);
            },
            None => {
                proof {
                    assert(r@ + it.remaining() =~= r@);
                }
                break ;
            },
        }
    }
    r
}

/// `String::push`: appends one character.
#[verifier::external_body]
pub fn push_char(s: &mut String, c: char)
    ensures
        final(s)@ == old(s)@.push(c),
{
    s.push(c);
}

/// `String::push_str`: appends a string slice.
#[verifier::external_body]
pub fn push_str(s: &mut String, t: &str)
    ensures
        final(s)@ == old(s)@ + t@,
{
    s.push_str(t);
}

/// A string holding the given characters.
pub fn string_of(cs: &Vec<char>) -> (r: String)
    ensures
        r@ == cs@,
{
    let mut r = String::new();
    let mut k: usize = 0;
    while k < cs.len()
        invariant
            k <= cs@.len(),
            r@ == cs@.take(k as int),
        decreases cs@.len() - k,
    {
        proof {
            assert(cs@.take(k + 1) =~= cs@.take(k as int).push(cs@[k as int]));
        }
        push_char(&mut r, cs[k]);
        k += 1;
    }
    proof {
        assert(cs@.take(k as int) =~= cs@);
    }
    r
}

/// `t` occurs in `s` starting at position `i`.
pub open spec fn occurs_at(s: Seq<char>, t: Seq<char>, i: int) -> bool {
    0 <= i && i + t.len() <= s.len() && s.subrange(i, i + t.len()) == t
}

/// `t` occurs somewhere in `s`.
pub open spec fn contains_seq(s: Seq<char>, t: Seq<char>) -> bool {
    exists|i: int| #[trigger] occurs_at(s, t, i)
}

/// `s` begins with `t`.
pub open spec fn starts_with_seq(s: Seq<char>, t: Seq<char>) -> bool {
    occurs_at(s, t, 0)
}

/// Whether `t` occurs in `s` at position `i`.
pub fn matches_at(s: &Vec<char>, t: &Vec<char>, i: usize) -> (r: bool)
    ensures
        r == occurs_at(s@, t@, i as int),
{
    if i > s.len() || t.len() > s.len() - i {
        return false;
    }
    let mut k: usize = 0;
    while k < t.len()
        invariant
            i + t@.len() <= s@.len(),
            s@.len() <= usize::MAX,
            k <= t@.len(),
            forall|m: int| 0 <= m < k ==> s@[i + m] == t@[m],
        decreases t@.len() - k,
    {
        if s[i + k] != t[k] {
            proof {
                assert(s@.subrange(i as int, i + t@.len())[k as int] != t@[k as int]);
            }
            return false;
        }
        k += 1;
    }
    proof {
        assert(s@.subrange(i as int, i + t@.len()) =~= t@);
    }
    true
}

/// Whether `t` occurs anywhere in `s`.
pub fn contains_chars(s: &Vec<char>, t: &Vec<char>) -> (r: bool)
    ensures
        r == contains_seq(s@, t@),
{
    if t.len() > s.len() {
        proof {
            assert forall|i: int| !#[trigger] occurs_at(s@, t@, i) by {}
        }
        return false;
    }
    let last: usize = s.len() - t.len();
    let mut i: usize = 0;
    loop
        invariant
            last + t@.len() == s@.len(),
            i <= last,
            forall|j: int| 0 <= j < i ==> !#[trigger] occurs_at(s@, t@, j),
        ensures
            i == last,
            forall|j: int| 0 <= j <= last ==> !#[trigger] occurs_at(s@, t@, j),
        decreases last - i,
    {
        if matches_at(s, t, i) {
            return true;
        }
        if i == last {
            break ;
        }
        i += 1;
    }
    proof {
        assert forall|j: int| !#[trigger] occurs_at(s@, t@, j) by {
            if 0 <= j <= last {
            }
        }
    }
    false
}

/// The decimal digit character for 0..=9.
pub open spec fn digit_char(d: int) -> char {
    (d + 48) as char
}

/// The decimal representation of `n`, without leading zeros.
pub open spec fn decimal(n: nat) -> Seq<char>
    decreases n,
{
    if n < 10 {
        seq![digit_char(n as int)]
    } else {
        decimal(n / 10).push(digit_char((n % 10) as int))
    }
}

/// `n` in decimal, left-padded with zeros to at least `width` digits (as
/// `format!("{:0width$}", n)` writes it).
pub open spec fn zero_padded(n: nat, width: nat) -> Seq<char> {
    let d = decimal(n);
    if d.len() < width {
        Seq::new((width - d.len()) as nat, |i: int| '0') + d
    } else {
        d
    }
}

/// The number a string of decimal digits stands for (leading zeros count
/// for nothing).
pub open spec fn digits_value(s: Seq<char>) -> int
    decreases s.len(),
{
    if s.len() == 0 {
        0
    } else {
        digits_value(s.drop_last()) * 10 + (s.last() as int - 48)
    }
}

/// Writing `n` in decimal and reading it back gives `n`.
pub proof fn decimal_reads_back(n: nat)
    ensures
        digits_value(decimal(n)) == n,
    decreases n,
{
    let d = (n % 10) as int;
    assert(digit_char(d) as int == d + 48);
    if n >= 10 {
        decimal_reads_back(n / 10);
        assert(decimal(n).drop_last() =~= decimal(n / 10));
        assert(decimal(n).last() == digit_char(d));
        assert(n == (n / 10) * 10 + n % 10);
        assert(digits_value(decimal(n)) == digits_value(decimal(n / 10)) * 10 + d);
    } else {
        assert(decimal(n).drop_last() =~= Seq::<char>::empty());
        assert(decimal(n).last() == digit_char(d));
        assert(digits_value(decimal(n)) == digits_value(Seq::<char>::empty()) * 10 + d);
    }
}

proof fn lemma_zeros_read_as_nothing(k: nat, s: Seq<char>)
    ensures
        digits_value(Seq::new(k, |i: int| '0') + s) == digits_value(s),
    decreases s.len(), k,
{
    if s.len() > 0 {
        assert((Seq::new(k, |i: int| '0') + s).drop_last() =~= Seq::new(k, |i: int| '0')
            + s.drop_last());
        lemma_zeros_read_as_nothing(k, s.drop_last());
    } else if k > 0 {
        assert(Seq::new(k, |i: int| '0') + s =~= Seq::new((k - 1) as nat, |i: int| '0') + seq![
            '0',
        ]);
        assert((Seq::new((k - 1) as nat, |i: int| '0') + seq!['0']).drop_last() =~= Seq::new(
            (k - 1) as nat,
            |i: int| '0',
        ) + s);
        lemma_zeros_read_as_nothing((k - 1) as nat, s);
    } else {
        assert(Seq::new(k, |i: int| '0') + s =~= s);
    }
}

/// A zero-padded number reads back as the number, so different numbers
/// are padded differently.
pub proof fn zero_padded_reads_back(n: nat, width: nat)
    ensures
        digits_value(zero_padded(n, width)) == n,
{
    decimal_reads_back(n);
    if decimal(n).len() < width {
        lemma_zeros_read_as_nothing((width - decimal(n).len()) as nat, decimal(n));
    }
}

/// The digit character of a value below 10.
fn digit_of(d: u64) -> (r: char)
    requires
        d < 10,
    ensures
        r == digit_char(d as int),
{
    if d == 0 { '0' }
    else if d == 1 { '1' }
    else if d == 2 { '2' }
    else if d == 3 { '3' }
    else if d == 4 { '4' }
    else if d == 5 { '5' }
    else if d == 6 { '6' }
    else if d == 7 { '7' }
    else if d == 8 { '8' }
    else { '9' }
}

/// The decimal digits of `n`, most significant first.
pub fn decimal_chars(n: u64) -> (r: Vec<char>)
    ensures
        r@ == decimal(n as nat),
    decreases n,
{
    if n < 10 {
        let mut r: Vec<char> = Vec::new();
        r.push(digit_of(n));
        proof {
            assert(r@ =~= decimal(n as nat));
        }
        r
    } else {
        let mut r = decimal_chars(n / 10);
        r.push(digit_of(n % 10));
        r
    }
}

/// `n` in decimal, zero-padded to `width` digits.
pub fn zero_padded_chars(n: u64, width: usize) -> (r: Vec<char>)
    ensures
        r@ == zero_padded(n as nat, width as nat),
{
    let d = decimal_chars(n);
    if d.len() >= width {
        return d;
    }
    let pad: usize = width - d.len();
    let mut r: Vec<char> = Vec::new();
    let mut k: usize = 0;
    while k < pad
        invariant
            k <= pad,
            r@ =~= Seq::new(k as nat, |i: int| '0'),
        decreases pad - k,
    {
        r.push('0');
        k += 1;
    }
    let mut m: usize = 0;
    while m < d.len()
        invariant
            m <= d@.len(),
            r@ =~= Seq::new(pad as nat, |i: int| '0') + d@.take(m as int),
        decreases d@.len() - m,
    {
        proof {
            assert(d@.take(m + 1) =~= d@.take(m as int).push(d@[m as int]));
        }
        r.push(d[m]);
        m += 1;
    }
    proof {
        assert(d@.take(m as int) =~= d@);
    }
    r
}

/// Appends the given characters.
pub fn push_chars(s: &mut String, cs: &Vec<char>)
    ensures
        final(s)@ == old(s)@ + cs@,
{
    let mut k: usize = 0;
    while k < cs.len()
        invariant
            k <= cs@.len(),
            s@ == old(s)@ + cs@.take(k as int),
        decreases cs@.len() - k,
    {
        proof {
            assert(cs@.take(k + 1) =~= cs@.take(k as int).push(cs@[k as int]));
        }
        push_char(s, cs[k]);
        k += 1;
    }
    proof {
        assert(cs@.take(k as int) =~= cs@);
    }
}

/// Appends `n` in decimal.
pub fn push_decimal(s: &mut String, n: u64)
    ensures
        final(s)@ == old(s)@ + decimal(n as nat),
{
    let d = decimal_chars(n);
    push_chars(s, &d);
}

/// Appends `n` in decimal, zero-padded to `width` digits.
pub fn push_padded(s: &mut String, n: u64, width: usize)
    ensures
        final(s)@ == old(s)@ + zero_padded(n as nat, width as nat),
{
    let d = zero_padded_chars(n, width);
    push_chars(s, &d);
}

} // verus!
