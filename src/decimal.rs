//! Decimal text of unsigned integers, as ASCII bytes.

use vstd::prelude::*;

verus! {

/// The ASCII code of the decimal digit `d`.
pub open spec fn digit_byte(d: nat) -> u8 {
    (48 + d) as u8
}

/// The shortest decimal representation of `n`, most significant digit first.
pub open spec fn decimal(n: nat) -> Seq<u8>
    decreases n,
{
    if n < 10 {
        seq![digit_byte(n)]
    } else {
        decimal(n / 10).push(digit_byte(n % 10))
    }
}

/// The decimal representation of `n`, padded on the left with zeros to at
/// least `width` digits.
pub open spec fn padded_decimal(n: nat, width: nat) -> Seq<u8> {
    let d = decimal(n);
    if d.len() < width {
        Seq::new((width - d.len()) as nat, |i: int| digit_byte(0)) + d
    } else {
        d
    }
}

/// Appends the decimal text of `n` to `out`.
pub fn push_decimal(out: &mut Vec<u8>, n: usize)
    ensures
        final(out)@ == old(out)@ + decimal(n as nat),
    decreases n,
{
    if n >= 10 {
        push_decimal(out, n / 10);
    }
    out.push((48 + n % 10) as u8);
    assert(out@ =~= old(out)@ + decimal(n as nat));
}

/// The number of digits in the decimal text of `n`.
pub fn decimal_len(n: usize) -> (r: usize)
    ensures
        r == decimal(n as nat).len(),
        1 <= r <= 20,
    decreases n,
{
    if n < 10 {
        1
    } else {
        let k = decimal_len(n / 10);
        proof {
            assert(n / 10 < n);
            if k == 20 {
                assert(false) by {
                    lemma_digits_lower_bound((n / 10) as nat, 19);
                    reveal_with_fuel(pow10, 20);
                }
            }
        }
        k + 1
    }
}

proof fn lemma_digits_lower_bound(m: nat, k: nat)
    requires
        decimal(m).len() > k,
    ensures
        k == 0 || m >= pow10(k),
    decreases k,
{
    if k > 0 {
        if m < 10 {
            assert(decimal(m).len() == 1);
        } else {
            lemma_digits_lower_bound(m / 10, (k - 1) as nat);
            let p = pow10((k - 1) as nat);
            assert(p == 1 || m / 10 >= p);
            assert(m >= 10 * p) by (nonlinear_arith)
                requires
                    m / 10 >= p,
            ;
        }
    }
}

pub open spec fn pow10(k: nat) -> nat
    decreases k,
{
    if k == 0 {
        1
    } else {
        10 * pow10((k - 1) as nat)
    }
}

} // verus!
