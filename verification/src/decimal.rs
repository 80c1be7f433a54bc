//! Decimal rendering of integers, as SQL text needs it.
use vstd::prelude::*;

verus! {

/// The decimal digit character for `d`.
pub open spec fn digit_char(d: int) -> char {
    if d == 0 { '0' }
    else if d == 1 { '1' }
    else if d == 2 { '2' }
    else if d == 3 { '3' }
    else if d == 4 { '4' }
    else if d == 5 { '5' }
    else if d == 6 { '6' }
    else if d == 7 { '7' }
    else if d == 8 { '8' }
    else { '9' }
}

/// The decimal digits of a natural number, most significant first, without leading zeros
/// (zero itself is `"0"`).
pub open spec fn nat_decimal(n: nat) -> Seq<char>
    decreases n,
{
    if n < 10 {
        seq![digit_char(n as int)]
    } else {
        nat_decimal(n / 10).push(digit_char((n % 10) as int))
    }
}

/// The decimal text of an integer, with a leading `-` when it is negative.
pub open spec fn int_decimal(i: int) -> Seq<char> {
    if i < 0 {
        seq!['-'] + nat_decimal((-i) as nat)
    } else {
        nat_decimal(i as nat)
    }
}

fn digit_str(d: u64) -> (s: &'static str)
    requires
        d < 10,
    ensures
        s@ == seq![digit_char(d as int)],
{
    proof {
        reveal_strlit("0");
        reveal_strlit("1");
        reveal_strlit("2");
        reveal_strlit("3");
        reveal_strlit("4");
        reveal_strlit("5");
        reveal_strlit("6");
        reveal_strlit("7");
        reveal_strlit("8");
        reveal_strlit("9");
    }
    if d == 0 { "0" }
    else if d == 1 { "1" }
    else if d == 2 { "2" }
    else if d == 3 { "3" }
    else if d == 4 { "4" }
    else if d == 5 { "5" }
    else if d == 6 { "6" }
    else if d == 7 { "7" }
    else if d == 8 { "8" }
    else { "9" }
}

/// Appends the decimal text of `n` to `out`.
pub fn push_u64_decimal(out: &mut String, n: u64)
    ensures
        final(out)@ == old(out)@ + nat_decimal(n as nat),
    decreases n,
{
    if n >= 10 {
        push_u64_decimal(out, n / 10);
    }
    out.append(digit_str(n % 10));
}

/// Appends the decimal text of `i` to `out`.
pub fn push_i64_decimal(out: &mut String, i: i64)
    ensures
        final(out)@ == old(out)@ + int_decimal(i as int),
{
    if i < 0 {
        proof { reveal_strlit("-"); }
        out.append("-");
        let magnitude: u64 = if i == i64::MIN {
            9_223_372_036_854_775_808u64
        } else {
            (-i) as u64
        };
        push_u64_decimal(out, magnitude);
    } else {
        push_u64_decimal(out, i as u64);
    }
}

/// The decimal text of `n`.
pub fn u64_to_decimal(n: u64) -> (s: String)
    ensures
        s@ == nat_decimal(n as nat),
{
    let mut s = String::new();
    push_u64_decimal(&mut s, n);
    s
}

/// The value of a decimal digit character.
pub open spec fn digit_value(c: char) -> int {
    (c as int) - ('0' as int)
}

/// `c` is one of `0` to `9`.
pub open spec fn is_digit(c: char) -> bool {
    '0' <= c && c <= '9'
}

/// The number that a string of decimal digits denotes, most significant first.
pub open spec fn decimal_value(s: Seq<char>) -> int
    decreases s.len(),
{
    if s.len() == 0 {
        0
    } else {
        decimal_value(s.drop_last()) * 10 + digit_value(s.last())
    }
}

/// The decimal text of `n` is a non-empty string of digits, without a leading zero unless
/// `n` is zero, that denotes `n`.
pub proof fn lemma_nat_decimal_denotes(n: nat)
    ensures
        nat_decimal(n).len() >= 1,
        forall|i: int| 0 <= i < nat_decimal(n).len() ==> #[trigger] is_digit(nat_decimal(n)[i]),
        decimal_value(nat_decimal(n)) == n,
        n > 0 ==> nat_decimal(n)[0] != '0',
        n == 0 ==> nat_decimal(n) == seq!['0'],
    decreases n,
{
    if n >= 10 {
        lemma_nat_decimal_denotes(n / 10);
        let prev = nat_decimal(n / 10);
        let s = nat_decimal(n);
        assert(s == prev.push(digit_char((n % 10) as int)));
        assert(s.drop_last() =~= prev);
        assert(digit_value(digit_char((n % 10) as int)) == n % 10);
        assert(forall|i: int| 0 <= i < prev.len() ==> s[i] == prev[i]);
        assert((n / 10) * 10 + n % 10 == n) by (nonlinear_arith);
        assert(decimal_value(s) == decimal_value(prev) * 10 + digit_value(s.last()));
        assert forall|i: int| 0 <= i < s.len() implies #[trigger] is_digit(s[i]) by {
            if i < prev.len() {
                assert(is_digit(prev[i]));
            }
        }
    } else {
        let s = nat_decimal(n);
        assert(s.drop_last() =~= Seq::<char>::empty());
        assert(decimal_value(s) == decimal_value(s.drop_last()) * 10 + digit_value(s.last()));
    }
}

/// The decimal text of an integer denotes it: a negative one is `-` and the digits of its
/// magnitude; any other is its digits alone.
pub proof fn lemma_int_decimal_denotes(i: int)
    ensures
        i < 0 ==> int_decimal(i).len() >= 2 && int_decimal(i)[0] == '-' && decimal_value(
            int_decimal(i).drop_first(),
        ) == -i,
        i >= 0 ==> int_decimal(i).len() >= 1 && is_digit(int_decimal(i)[0]) && decimal_value(
            int_decimal(i),
        ) == i,
{
    if i < 0 {
        lemma_nat_decimal_denotes((-i) as nat);
        assert(int_decimal(i).drop_first() =~= nat_decimal((-i) as nat));
    } else {
        lemma_nat_decimal_denotes(i as nat);
    }
}

} // verus!
