//! Natural numbers in decimal notation.

use vstd::prelude::*;

verus! {

/// The character that stands for the digit `d`.
pub open spec fn digit_char(d: int) -> char {
    if d == 0 {
        '0'
    } else if d == 1 {
        '1'
    } else if d == 2 {
        '2'
    } else if d == 3 {
        '3'
    } else if d == 4 {
        '4'
    } else if d == 5 {
        '5'
    } else if d == 6 {
        '6'
    } else if d == 7 {
        '7'
    } else if d == 8 {
        '8'
    } else {
        '9'
    }
}

/// The digit that `c` stands for, if it is one of `0` to `9`.
pub open spec fn digit_value(c: char) -> Option<int> {
    if c == '0' {
        Some(0)
    } else if c == '1' {
        Some(1)
    } else if c == '2' {
        Some(2)
    } else if c == '3' {
        Some(3)
    } else if c == '4' {
        Some(4)
    } else if c == '5' {
        Some(5)
    } else if c == '6' {
        Some(6)
    } else if c == '7' {
        Some(7)
    } else if c == '8' {
        Some(8)
    } else if c == '9' {
        Some(9)
    } else {
        None
    }
}

/// The decimal notation of `n`: no sign, no leading zeros, `"0"` for zero.
pub open spec fn decimal(n: nat) -> Seq<char>
    decreases n,
{
    if n < 10 {
        seq![digit_char(n as int)]
    } else {
        decimal(n / 10).push(digit_char((n % 10) as int))
    }
}

/// Whether every character of `s` is a digit.
pub open spec fn all_digits(s: Seq<char>) -> bool {
    forall|i: int| 0 <= i < s.len() ==> (#[trigger] digit_value(s[i])) is Some
}

/// Whether `s` is the decimal notation of some number: digits only, at least
/// one, and no leading zero but in `"0"` itself.
pub open spec fn is_numeral(s: Seq<char>) -> bool {
    &&& s.len() >= 1
    &&& all_digits(s)
    &&& (s.len() == 1 || s[0] != '0')
}

/// The number that a sequence of digits denotes, read as decimal.
pub open spec fn numeral_value(s: Seq<char>) -> nat
    decreases s.len(),
{
    if s.len() == 0 {
        0
    } else {
        match digit_value(s.last()) {
            Some(d) => (numeral_value(s.drop_last()) * 10 + d) as nat,
            None => numeral_value(s.drop_last()) * 10,
        }
    }
}

/// The digits of a number are a numeral whose value is that number.
pub proof fn lemma_decimal_value(n: nat)
    ensures
        is_numeral(decimal(n)),
        numeral_value(decimal(n)) == n,
    decreases n,
{
    if n < 10 {
        let s = decimal(n);
        assert(s.drop_last() =~= Seq::<char>::empty());
        assert(numeral_value(s.drop_last()) == 0);
    } else {
        lemma_decimal_value(n / 10);
        let p = decimal(n / 10);
        let s = decimal(n);
        assert(s.drop_last() =~= p);
        assert(s.last() == digit_char((n % 10) as int));
        assert(s[0] == p[0]);
        assert forall|i: int| 0 <= i < s.len() implies (#[trigger] digit_value(s[i])) is Some by {
            if i < p.len() {
                assert(s[i] == p[i]);
            }
        }
        if p[0] == '0' {
            assert(p.len() == 1);
            assert(p.last() == '0');
            assert(p.drop_last() =~= Seq::<char>::empty());
            assert(numeral_value(p.drop_last()) == 0);
            assert(numeral_value(p) == 0);
        }
    }
}

/// A numeral is the decimal notation of its value.
pub proof fn lemma_numeral_decimal(s: Seq<char>)
    requires
        is_numeral(s),
    ensures
        decimal(numeral_value(s)) == s,
    decreases s.len(),
{
    let d = digit_value(s.last())->0;
    if s.len() == 1 {
        assert(s.drop_last() =~= Seq::<char>::empty());
        assert(numeral_value(s.drop_last()) == 0);
        assert(numeral_value(s) == d);
        assert(decimal(d as nat) =~= s);
    } else {
        let p = s.drop_last();
        assert(p[0] == s[0]);
        assert forall|i: int| 0 <= i < p.len() implies (#[trigger] digit_value(p[i])) is Some by {
            assert(p[i] == s[i]);
        }
        if p.len() == 1 {
            assert(p.drop_last() =~= Seq::<char>::empty());
            assert(numeral_value(p.drop_last()) == 0);
            assert(numeral_value(p) >= 1);
        } else {
            lemma_numeral_positive(p);
        }
        lemma_numeral_decimal(p);
        let v = numeral_value(s);
        assert(v == numeral_value(p) * 10 + d);
        assert(v >= 10);
        assert(v / 10 == numeral_value(p));
        assert(v % 10 == d);
        assert(decimal(v) =~= s);
    }
}

/// A numeral of two or more digits denotes a number of at least ten.
pub proof fn lemma_numeral_positive(s: Seq<char>)
    requires
        is_numeral(s),
        s.len() >= 2,
    ensures
        numeral_value(s) >= 10,
    decreases s.len(),
{
    let p = s.drop_last();
    assert(p[0] == s[0]);
    assert(digit_value(p[0]) is Some);
    if p.len() == 1 {
        assert(p.drop_last() =~= Seq::<char>::empty());
        assert(numeral_value(p.drop_last()) == 0);
        assert(numeral_value(p) >= 1);
    } else {
        assert forall|i: int| 0 <= i < p.len() implies (#[trigger] digit_value(p[i])) is Some by {
            assert(p[i] == s[i]);
        }
        lemma_numeral_positive(p);
    }
    assert(digit_value(s.last()) is Some);
}

/// Two numbers with the same decimal notation are the same number.
pub proof fn lemma_decimal_injective(a: nat, b: nat)
    requires
        decimal(a) == decimal(b),
    ensures
        a == b,
{
    lemma_decimal_value(a);
    lemma_decimal_value(b);
}

/// Among digit sequences, a prefix never denotes more than the whole.
pub proof fn lemma_prefix_value(s: Seq<char>, k: int)
    requires
        all_digits(s),
        0 <= k <= s.len(),
    ensures
        numeral_value(s.take(k)) <= numeral_value(s),
    decreases s.len() - k,
{
    if k == s.len() {
        assert(s.take(k) =~= s);
    } else {
        let p = s.drop_last();
        assert forall|i: int| 0 <= i < p.len() implies (#[trigger] digit_value(p[i])) is Some by {
            assert(p[i] == s[i]);
        }
        lemma_prefix_value(p, k);
        assert(p.take(k) =~= s.take(k));
        assert(digit_value(s.last()) is Some);
    }
}

/// The character for a digit.
pub fn digit_to_char(d: u64) -> (c: char)
    requires
        d < 10,
    ensures
        c == digit_char(d as int),
{
    if d == 0 {
        '0'
    } else if d == 1 {
        '1'
    } else if d == 2 {
        '2'
    } else if d == 3 {
        '3'
    } else if d == 4 {
        '4'
    } else if d == 5 {
        '5'
    } else if d == 6 {
        '6'
    } else if d == 7 {
        '7'
    } else if d == 8 {
        '8'
    } else {
        '9'
    }
}

/// The digit for a character, if it is one.
pub fn char_to_digit(c: char) -> (d: Option<u64>)
    ensures
        d is Some <==> digit_value(c) is Some,
        d is Some ==> d->0 == digit_value(c)->0 && d->0 < 10,
{
    if c == '0' {
        Some(0)
    } else if c == '1' {
        Some(1)
    } else if c == '2' {
        Some(2)
    } else if c == '3' {
        Some(3)
    } else if c == '4' {
        Some(4)
    } else if c == '5' {
        Some(5)
    } else if c == '6' {
        Some(6)
    } else if c == '7' {
        Some(7)
    } else if c == '8' {
        Some(8)
    } else if c == '9' {
        Some(9)
    } else {
        None
    }
}

/// Appends the decimal notation of `n` to `s`.
pub fn push_decimal(s: &mut String, n: u64)
    ensures
        final(s)@ == old(s)@ + decimal(n as nat),
    decreases n,
{
    if n >= 10 {
        push_decimal(s, n / 10);
    }
    s.push(digit_to_char(n % 10));
}

/// The decimal notation of `n`.
pub fn render(n: u64) -> (s: String)
    ensures
        s@ == decimal(n as nat),
{
    let mut s = String::new();
    push_decimal(&mut s, n);
    s
}

/// Reads `v[from..to]` as a number in decimal notation. The result is `None`
/// where those characters are not the notation of a number, or the number
/// does not fit in 64 bits.
pub fn parse(v: &Vec<char>, from: usize, to: usize) -> (r: Option<u64>)
    requires
        from <= to <= v.len(),
    ensures
        r is Some <==> is_numeral(v@.subrange(from as int, to as int)) && numeral_value(
            v@.subrange(from as int, to as int),
        ) <= u64::MAX,
        r is Some ==> r->0 == numeral_value(v@.subrange(from as int, to as int)),
{
    let ghost s = v@.subrange(from as int, to as int);
    if from == to {
        return None;
    }
    if to - from > 1 && v[from] == '0' {
        assert(s[0] == '0');
        return None;
    }
    let mut acc: u64 = 0;
    let mut i: usize = from;
    while i < to
        invariant
            from <= i <= to <= v.len(),
            s == v@.subrange(from as int, to as int),
            all_digits(s.take(i - from)),
            acc == numeral_value(s.take(i - from)),
        decreases to - i,
    {
        let ghost before = s.take(i - from);
        let ghost after = s.take(i - from + 1);
        proof {
            assert(after.drop_last() =~= before);
            assert(after.last() == v@[i as int]);
        }
        match char_to_digit(v[i]) {
            None => {
                assert(digit_value(s[i - from]) is None);
                return None;
            },
            Some(d) => {
                if acc > (u64::MAX - d) / 10 {
                    proof {
                        assert(numeral_value(after) == acc * 10 + d);
                        if all_digits(s) {
                            lemma_prefix_value(s, i - from + 1);
                        }
                    }
                    return None;
                }
                acc = acc * 10 + d;
                proof {
                    assert forall|j: int| 0 <= j < after.len() implies (#[trigger] digit_value(
                        after[j],
                    )) is Some by {
                        if j < before.len() {
                            assert(after[j] == before[j]);
                        }
                    }
                }
            },
        }
        i += 1;
    }
    proof {
        assert(s.take(to - from) =~= s);
    }
    Some(acc)
}

} // verus!
