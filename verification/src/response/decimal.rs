//! Numbers written in decimal.

use vstd::prelude::*;

verus! {

/// The ASCII digit for `d`, which is less than ten.
pub open spec fn digit(d: nat) -> u8 {
    (0x30 + d) as u8
}

/// `n` in decimal, as ASCII digits without leading zeros.
pub open spec fn decimal(n: nat) -> Seq<u8>
    decreases n,
{
    if n < 10 {
        seq![digit(n)]
    } else {
        decimal(n / 10).push(digit(n % 10))
    }
}

/// The number that a sequence of ASCII digits stands for.
pub open spec fn value(digits: Seq<u8>) -> nat
    decreases digits.len(),
{
    if digits.len() == 0 {
        0
    } else {
        value(digits.drop_last()) * 10 + (digits.last() - 0x30) as nat
    }
}

/// `decimal(n)` is made of digits, is not empty, starts with a zero only when
/// `n` is zero, and stands for `n`.
pub proof fn lemma_decimal(n: nat)
    ensures
        decimal(n).len() >= 1,
        forall|i: int| 0 <= i < decimal(n).len() ==> 0x30 <= #[trigger] decimal(n)[i] <= 0x39,
        decimal(n)[0] == 0x30 <==> n == 0,
        value(decimal(n)) == n,
    decreases n,
{
    if n < 10 {
        assert(decimal(n).drop_last() =~= Seq::<u8>::empty());
        assert(value(decimal(n)) == n) by {
            reveal_with_fuel(value, 2);
        }
    } else {
        let front = decimal(n / 10);
        lemma_decimal(n / 10);
        assert(decimal(n).drop_last() =~= front);
        assert(decimal(n)[0] == front[0]);
    }
}

/// Appends `n` in decimal to `out`.
pub fn push_decimal(out: &mut Vec<u8>, n: usize)
    ensures
        final(out)@ == old(out)@ + decimal(n as nat),
{
    let mut low: Vec<u8> = Vec::new();
    let mut rest: usize = n;
    while rest >= 10
        invariant
            decimal(n as nat) == decimal(rest as nat) + low@.reverse(),
        decreases rest,
    {
        let d: u8 = (rest % 10) as u8 + 0x30;
        proof {
            assert(low@.push(d).reverse() =~= seq![d] + low@.reverse());
            assert(decimal(rest as nat) == decimal((rest / 10) as nat).push(d));
            assert(decimal((rest / 10) as nat).push(d) + low@.reverse() =~= decimal(
                (rest / 10) as nat,
            ) + (seq![d] + low@.reverse()));
        }
        low.push(d);
        rest = rest / 10;
    }
    out.push(rest as u8 + 0x30);
    let mut i: usize = low.len();
    while i > 0
        invariant
            i <= low@.len(),
            rest < 10,
            decimal(n as nat) == decimal(rest as nat) + low@.reverse(),
            out@ == old(out)@ + decimal(rest as nat) + low@.reverse().take(low@.len() - i),
        decreases i,
    {
        i -= 1;
        proof {
            let done = low@.len() - i - 1;
            let high = low@.reverse();
            assert(high.take(done + 1) =~= high.take(done).push(low@[i as int]));
        }
        out.push(low[i]);
    }
    proof {
        assert(low@.reverse().take(low@.len() as int) =~= low@.reverse());
    }
}

} // verus!
