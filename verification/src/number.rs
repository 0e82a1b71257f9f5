//! Decimal notation: reading and writing whole numbers.

use vstd::prelude::*;

use crate::text;

verus! {

/// Whether `c` is one of the ten decimal digits.
pub open spec fn is_digit(c: char) -> bool {
    '0' <= c && c <= '9'
}

/// The value of a decimal digit.
pub open spec fn digit_value(c: char) -> nat {
    (c as u32 - '0' as u32) as nat
}

/// The digit that stands for `d`.
pub open spec fn digit(d: nat) -> char {
    if d == 0 {
        '0'
    } else if d == 1 {
        '1'
    } else if d == 2 {
        '2'
    } else if d == 3 {
        '3'
    } else if d == 4 {
        '4'
    } else if d == 5 {
        '5'
    } else if d == 6 {
        '6'
    } else if d == 7 {
        '7'
    } else if d == 8 {
        '8'
    } else {
        '9'
    }
}

/// The decimal notation of `n`.
pub open spec fn decimal(n: nat) -> Seq<char>
    decreases n,
{
    if n < 10 {
        seq![digit(n)]
    } else {
        decimal(n / 10).push(digit(n % 10))
    }
}

/// The decimal notation of `n`, with a minus sign where `n` is negative.
pub open spec fn signed_decimal(n: int) -> Seq<char> {
    if n < 0 {
        seq!['-'] + decimal((-n) as nat)
    } else {
        decimal(n as nat)
    }
}

/// A number below zero is written as its amount behind a sign, any other as it is.
pub proof fn law_negative_numbers_have_a_sign(n: nat)
    ensures
        n > 0 ==> signed_decimal(-(n as int)) == seq!['-'] + decimal(n),
        signed_decimal(n as int) == decimal(n),
{
}

/// Whether `s` is made of digits alone.
pub open spec fn all_digits(s: Seq<char>) -> bool {
    forall|i: int| 0 <= i < s.len() ==> is_digit(#[trigger] s[i])
}

/// The number that a sequence of digits stands for.
pub open spec fn value(s: Seq<char>) -> nat
    decreases s.len(),
{
    if s.len() == 0 {
        0
    } else {
        value(s.drop_last()) * 10 + digit_value(s.last())
    }
}

/// The digits of a number: `s` without one leading plus sign.
pub open spec fn unsigned_part(s: Seq<char>) -> Seq<char> {
    if s.len() > 0 && s[0] == '+' {
        s.drop_first()
    } else {
        s
    }
}

/// The number that `s` stands for: one or more digits, with or without a plus
/// sign before them, and no more than `max`.
pub open spec fn number_of(s: Seq<char>, max: nat) -> Option<nat> {
    let t = unsigned_part(s);
    if t.len() > 0 && all_digits(t) && value(t) <= max {
        Some(value(t))
    } else {
        None
    }
}

/// The number of type `usize` that `s` stands for.
pub open spec fn usize_of(s: Seq<char>) -> Option<usize> {
    match number_of(s, usize::MAX as nat) {
        Some(n) => Some(n as usize),
        None => None,
    }
}

/// The number of type `u64` that `s` stands for.
pub open spec fn u64_of(s: Seq<char>) -> Option<u64> {
    match number_of(s, u64::MAX as nat) {
        Some(n) => Some(n as u64),
        None => None,
    }
}

/// More digits never make a number smaller.
pub proof fn lemma_value_grows(s: Seq<char>, k: int)
    requires
        0 <= k <= s.len(),
    ensures
        value(s.take(k)) <= value(s),
    decreases s.len(),
{
    if k == s.len() {
        assert(s.take(k) =~= s);
    } else {
        lemma_value_grows(s.drop_last(), k);
        assert(s.drop_last().take(k) =~= s.take(k));
    }
}

/// The decimal notation of a number is made of digits and stands for that
/// number.
pub proof fn lemma_decimal_reads_back(n: nat)
    ensures
        decimal(n).len() > 0,
        all_digits(decimal(n)),
        value(decimal(n)) == n,
        forall|max: nat| n <= max ==> number_of(decimal(n), max) == Some(n),
    decreases n,
{
    if n < 10 {
        assert(decimal(n).drop_last() =~= Seq::<char>::empty());
        assert(decimal(n).last() == digit(n));
        assert(value(decimal(n).drop_last()) == 0);
        assert(digit_value(digit(n)) == n);
    } else {
        lemma_decimal_reads_back(n / 10);
        let d = decimal(n);
        assert(d.drop_last() =~= decimal(n / 10));
        assert(d.last() == digit(n % 10));
        assert forall|i: int| 0 <= i < d.len() implies is_digit(#[trigger] d[i]) by {
            if i < d.len() - 1 {
                assert(d[i] == decimal(n / 10)[i]);
            }
        }
    }
    assert(is_digit(decimal(n)[0]));
    assert(unsigned_part(decimal(n)) == decimal(n));
}

/// The last digit of the notation is the remainder by ten, and the digits before
/// it are the notation of the rest; a number below ten has one digit.
pub proof fn law_notation_is_positional(n: nat)
    ensures
        decimal(n).len() > 0,
        decimal(n)[decimal(n).len() - 1] as int == '0' as int + n % 10,
        n < 10 ==> decimal(n).len() == 1,
        n >= 10 ==> decimal(n).take(decimal(n).len() - 1) == decimal(n / 10),
{
    if n >= 10 {
        assert(decimal(n).take(decimal(n).len() - 1) =~= decimal(n / 10));
    }
}

/// A number that is written down is read as that number, with a plus sign or
/// zeros before it too; one that is too large is not read at all.
pub proof fn law_numbers_are_read_back(n: nat)
    ensures
        usize_of(decimal(n)) == if n <= usize::MAX {
            Some(n as usize)
        } else {
            None
        },
        u64_of(decimal(n)) == if n <= u64::MAX {
            Some(n as u64)
        } else {
            None
        },
        usize_of(seq!['+'] + decimal(n)) == usize_of(decimal(n)),
        usize_of(seq!['0'] + decimal(n)) == usize_of(decimal(n)),
{
    lemma_decimal_reads_back(n);
    let d = decimal(n);
    assert(unsigned_part(seq!['+'] + d) =~= d);
    assert(is_digit(d[0]));
    assert(unsigned_part(d) == d);
    let z = seq!['0'] + d;
    assert(unsigned_part(z) == z);
    lemma_leading_zero(d);
    assert forall|i: int| 0 <= i < z.len() implies is_digit(#[trigger] z[i]) by {
        if i > 0 {
            assert(is_digit(d[i - 1]));
        }
    }
}

proof fn lemma_leading_zero(s: Seq<char>)
    ensures
        value(seq!['0'] + s) == value(s),
    decreases s.len(),
{
    let z = seq!['0'] + s;
    if s.len() == 0 {
        assert(z.drop_last() =~= Seq::<char>::empty());
        assert(value(z.drop_last()) == 0);
    } else {
        lemma_leading_zero(s.drop_last());
        assert(z.drop_last() =~= seq!['0'] + s.drop_last());
        assert(z.last() == s.last());
    }
}

/// Nothing but digits, with or without one plus sign before them, is a number.
pub proof fn law_only_digits_are_numbers(s: Seq<char>)
    ensures
        usize_of(s) is Some || u64_of(s) is Some ==> s.len() > 0 && (forall|i: int|
            0 <= i < s.len() ==> ('0' <= #[trigger] s[i] && s[i] <= '9') || (i == 0 && s[i] == '+'
                && s.len() > 1)),
{
    if usize_of(s) is Some || u64_of(s) is Some {
        let t = unsigned_part(s);
        assert forall|i: int| 0 <= i < s.len() implies ('0' <= #[trigger] s[i] && s[i] <= '9') || (i
            == 0 && s[i] == '+' && s.len() > 1) by {
            if s[0] == '+' {
                if i > 0 {
                    assert(is_digit(t[i - 1]));
                }
            } else {
                assert(is_digit(t[i]));
            }
        }
    }
}

/// The notation of a number is a word without hyphens, commas and other signs.
pub proof fn lemma_decimal_is_plain(n: nat)
    ensures
        text::is_word(decimal(n)),
        forall|c: char| !is_digit(c) ==> !decimal(n).contains(c),
{
    lemma_decimal_reads_back(n);
    assert forall|i: int| 0 <= i < decimal(n).len() implies !text::is_space(
        #[trigger] decimal(n)[i],
    ) by {
        assert(is_digit(decimal(n)[i]));
    }
}

/// The digit that stands for `d`.
fn digit_char(d: u64) -> (c: char)
    requires
        d < 10,
    ensures
        c == digit(d as nat),
{
    if d == 0 {
        '0'
    } else if d == 1 {
        '1'
    } else if d == 2 {
        '2'
    } else if d == 3 {
        '3'
    } else if d == 4 {
        '4'
    } else if d == 5 {
        '5'
    } else if d == 6 {
        '6'
    } else if d == 7 {
        '7'
    } else if d == 8 {
        '8'
    } else {
        '9'
    }
}

/// The decimal notation of `n`.
pub fn show(n: u64) -> (s: String)
    ensures
        s@ == decimal(n as nat),
    decreases n,
{
    if n < 10 {
        let mut s = String::new();
        s.push(digit_char(n));
        s
    } else {
        let mut s = show(n / 10);
        s.push(digit_char(n % 10));
        s
    }
}

/// The decimal notation of `n`.
pub fn show_usize(n: usize) -> (s: String)
    ensures
        s@ == decimal(n as nat),
{
    show(n as u64)
}

/// The number that `s` stands for, where it is one and at most `max`.
pub fn read(s: &str, max: u64) -> (r: Option<u64>)
    ensures
        match r {
            Some(n) => number_of(s@, max as nat) == Some(n as nat),
            None => number_of(s@, max as nat) is None,
        },
{
    let v = text::chars_of(s);
    let n: usize = v.len();
    let start: usize = if n > 0 && v[0] == '+' {
        1
    } else {
        0
    };
    let ghost t = unsigned_part(s@);
    assert(t =~= v@.skip(start as int));
    if start == n {
        return None;
    }
    let mut acc: u64 = 0;
    let mut i: usize = start;
    while i < n
        invariant
            start <= i <= n == v.len(),
            start <= 1,
            t == v@.skip(start as int),
            t == unsigned_part(s@),
            all_digits(t.take(i - start)),
            acc == value(t.take(i - start)),
            acc <= max,
        decreases n - i,
    {
        let c: char = v[i];
        let ghost k = i - start;
        assert(t[k] == c);
        if c < '0' || '9' < c {
            assert(!is_digit(t[k]));
            return None;
        }
        let d: u64 = (c as u32 - '0' as u32) as u64;
        let next: u128 = acc as u128 * 10 + d as u128;
        assert(t.take(k + 1).drop_last() =~= t.take(k));
        assert(t.take(k + 1).last() == c);
        assert(next == value(t.take(k + 1)));
        if next > max as u128 {
            proof {
                lemma_value_grows(t, k + 1);
            }
            return None;
        }
        acc = next as u64;
        assert forall|j: int| 0 <= j < k + 1 implies is_digit(#[trigger] t.take(k + 1)[j]) by {
            if j < k {
                assert(t.take(k + 1)[j] == t.take(k)[j]);
            }
        }
        i += 1;
    }
    assert(t.take(n - start) =~= t);
    Some(acc)
}

/// The number of type `usize` that `s` stands for.
pub fn read_usize(s: &str) -> (r: Option<usize>)
    ensures
        r == usize_of(s@),
{
    match read(s, usize::MAX as u64) {
        Some(n) => Some(n as usize),
        None => None,
    }
}

/// The number of type `u64` that `s` stands for.
pub fn read_u64(s: &str) -> (r: Option<u64>)
    ensures
        r == u64_of(s@),
{
    read(s, u64::MAX)
}

} // verus!
