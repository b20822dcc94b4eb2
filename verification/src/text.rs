//! Strings as sequences of characters, and numbers as decimal digits.
use vstd::prelude::*;
#[allow(unused_imports)]
use vstd::arithmetic::power::{lemma_pow0, lemma_pow1, lemma_pow_positive, lemma_pow_adds, pow};
#[allow(unused_imports)]
use vstd::std_specs::iter::IteratorSpec;
use vstd::string::*;

verus! {

/// Whether `s` begins with `prefix`.
pub fn starts_with(s: &str, prefix: &str) -> (b: bool)
    ensures
        b == prefix@.is_prefix_of(s@),
{
    let mut rest = s.chars();
    let mut wanted = prefix.chars();
    let ghost mut done: int = 0;
    assert(s@.skip(0) =~= s@);
    assert(prefix@.skip(0) =~= prefix@);
    loop
        invariant
            0 <= done <= s@.len(),
            done <= prefix@.len(),
            rest.remaining() == s@.skip(done),
            wanted.remaining() == prefix@.skip(done),
            s@.take(done) =~= prefix@.take(done),
        decreases prefix@.len() - done,
    {
        let w = wanted.next();
        let c = rest.next();
        match w {
            None => {
                assert(prefix@.take(done) =~= prefix@);
                return true;
            },
            Some(w) => {
                match c {
                    None => {
                        return false;
                    },
                    Some(c) => {
                        assert(w == prefix@[done]);
                        assert(c == s@[done]);
                        if c != w {
                            return false;
                        }
                    },
                }
            },
        }
        proof {
            assert(s@.skip(done).drop_first() =~= s@.skip(done + 1));
            assert(prefix@.skip(done).drop_first() =~= prefix@.skip(done + 1));
            assert(s@.take(done + 1) =~= s@.take(done).push(s@[done]));
            assert(prefix@.take(done + 1) =~= prefix@.take(done).push(prefix@[done]));
            done = done + 1;
        }
    }
}

/// What follows `prefix` in `s`, where `s` begins with it.
pub fn strip_prefix<'a>(s: &'a str, prefix: &str) -> (r: Option<&'a str>)
    ensures
        r is Some <==> prefix@.is_prefix_of(s@),
        r matches Some(rest) ==> s@ == prefix@ + rest@,
{
    if starts_with(s, prefix) {
        let rest = s.substring_char(prefix.unicode_len(), s.unicode_len());
        assert(s@ =~= prefix@ + rest@);
        Some(rest)
    } else {
        None
    }
}

/// Whether two strings hold the same characters.
pub fn same_text(a: &str, b: &str) -> (r: bool)
    ensures
        r == (a@ == b@),
{
    if starts_with(a, b) && starts_with(b, a) {
        assert(a@ =~= b@);
        true
    } else {
        proof {
            if a@ == b@ {
                assert(a@.is_prefix_of(b@));
            }
        }
        false
    }
}

/// The decimal digits of `n` in ASCII, the highest first.
pub open spec fn decimal(n: nat) -> Seq<u8>
    decreases n,
{
    if n < 10 {
        seq![(48 + n) as u8]
    } else {
        decimal(n / 10).push((48 + n % 10) as u8)
    }
}

/// The number that a sequence of ASCII digits writes down.
pub open spec fn decimal_value(digits: Seq<u8>) -> int
    decreases digits.len(),
{
    if digits.len() == 0 {
        0
    } else {
        10 * decimal_value(digits.drop_last()) + (digits.last() - 48)
    }
}

/// Reading the digits of a number back gives the number. They are ASCII digits, at least one,
/// and none but the number zero begins with a zero.
pub proof fn law_decimal_reads_back(n: nat)
    ensures
        decimal_value(decimal(n)) == n,
        decimal(n).len() >= 1,
        forall|i: int| 0 <= i < decimal(n).len() ==> 48 <= #[trigger] decimal(n)[i] <= 57,
        n > 0 ==> decimal(n)[0] != 48,
        n == 0 ==> decimal(n).len() == 1,
    decreases n,
{
    reveal_with_fuel(decimal_value, 2);
    if n < 10 {
        assert(decimal(n).drop_last() =~= Seq::<u8>::empty());
    } else {
        law_decimal_reads_back(n / 10);
        assert(decimal(n).drop_last() =~= decimal(n / 10));
    }
}

/// The digits of a number, place by place: at the place of ten to the `i` stands how often that
/// power goes into the number, without the tens of it; and there are just so many places that the
/// number is less than the power behind the last, and not less than that of the highest.
pub proof fn law_decimal_places(n: nat, i: nat)
    ensures
        ({
            let d = decimal(n);
            &&& i < d.len() ==> d[d.len() - 1 - i] == 48 + (n as int / pow(10, i)) % 10
            &&& n < pow(10, d.len())
            &&& n >= 10 ==> pow(10, (d.len() - 1) as nat) <= n
            &&& n < 10 ==> d.len() == 1
        }),
    decreases n,
{
    let d = decimal(n);
    lemma_pow0(10);
    lemma_pow1(10);
    if n >= 10 {
        let high = decimal(n / 10);
        law_decimal_reads_back(n / 10);
        let k = high.len();
        if i > 0 {
            let j = (i - 1) as nat;
            law_decimal_places(n / 10, j);
            lemma_pow_adds(10, 1, j);
            lemma_pow_positive(10, j);
            vstd::arithmetic::div_mod::lemma_div_denominator(n as int, 10, pow(10, j));
        }
        law_decimal_places(n / 10, 0);
        lemma_pow_adds(10, 1, k);
        lemma_pow_adds(10, 1, (k - 1) as nat);
        assert(pow(10, k + 1) == 10 * pow(10, k));
        assert(pow(10, k) == 10 * pow(10, (k - 1) as nat));
    }
}

/// Two numbers with the same digits are the same number.
pub proof fn law_decimal_injective(a: nat, b: nat)
    requires
        decimal(a) == decimal(b),
    ensures
        a == b,
{
    law_decimal_reads_back(a);
    law_decimal_reads_back(b);
}

/// The decimal digits of `n`.
pub fn decimal_digits(n: u64) -> (digits: Vec<u8>)
    ensures
        digits@ == decimal(n as nat),
    decreases n,
{
    if n < 10 {
        let mut digits: Vec<u8> = Vec::new();
        digits.push(48 + n as u8);
        assert(digits@ =~= decimal(n as nat));
        digits
    } else {
        let mut digits = decimal_digits(n / 10);
        digits.push(48 + (n % 10) as u8);
        digits
    }
}

} // verus!
