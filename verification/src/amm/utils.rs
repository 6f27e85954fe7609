use crate::amm::errors::AppError;
use vstd::prelude::*;

verus! {

/// How `mul_div` can fail.
#[derive(Clone, Copy, Debug, PartialEq, Eq, Structural)]
pub enum ArithmeticError {
    /// The divisor is zero.
    DivisionByZero,
    /// The quotient does not fit in 64 bits.
    Overflow,
}

/// `r` is the integer square root of `n`: the largest natural number whose
/// square does not exceed `n`.
pub open spec fn is_floor_sqrt(n: nat, r: nat) -> bool {
    r * r <= n && n < (r + 1) * (r + 1)
}

/// The integer square root of `n`.
pub open spec fn floor_sqrt(n: nat) -> nat {
    choose|r: nat| is_floor_sqrt(n, r)
}

/// Every natural number has an integer square root.
pub proof fn lemma_floor_sqrt_exists(n: nat) -> (r: nat)
    ensures
        is_floor_sqrt(n, r),
    decreases n,
{
    if n == 0 {
        assert(is_floor_sqrt(0, 0)) by (nonlinear_arith);
        0
    } else {
        let p = lemma_floor_sqrt_exists((n - 1) as nat);
        let q = p + 1;
        if q * q <= n {
            assert(is_floor_sqrt(n, q)) by (nonlinear_arith)
                requires
                    q * q <= n,
                    n - 1 < q * q,
            ;
            q
        } else {
            assert(is_floor_sqrt(n, p)) by (nonlinear_arith)
                requires
                    p * p <= n - 1,
                    n < (p + 1) * (p + 1),
            ;
            p
        }
    }
}

/// The integer square root is unique.
pub proof fn lemma_floor_sqrt_unique(n: nat, r1: nat, r2: nat)
    requires
        is_floor_sqrt(n, r1),
        is_floor_sqrt(n, r2),
    ensures
        r1 == r2,
{
    if r1 < r2 {
        assert((r1 + 1) * (r1 + 1) <= r2 * r2) by (nonlinear_arith)
            requires
                r1 + 1 <= r2,
        ;
    } else if r2 < r1 {
        assert((r2 + 1) * (r2 + 1) <= r1 * r1) by (nonlinear_arith)
            requires
                r2 + 1 <= r1,
        ;
    }
}

/// `floor_sqrt(n)` is the one `r` with `r * r <= n < (r + 1) * (r + 1)`.
pub proof fn lemma_floor_sqrt(n: nat, r: nat)
    ensures
        is_floor_sqrt(n, floor_sqrt(n)),
        is_floor_sqrt(n, r) <==> r == floor_sqrt(n),
{
    let w = lemma_floor_sqrt_exists(n);
    assert(is_floor_sqrt(n, floor_sqrt(n)));
    if is_floor_sqrt(n, r) {
        lemma_floor_sqrt_unique(n, r, floor_sqrt(n));
    }
}

/// One step of Newton's iteration from any positive `x` lands at or above
/// the integer square root of `n`.
proof fn lemma_newton_step(n: int, x: int)
    requires
        0 <= n,
        0 < x,
    ensures
        n < ((x + n / x) / 2 + 1) * ((x + n / x) / 2 + 1),
{
    let q = n / x;
    let y = (x + q) / 2;
    assert(n < x * (q + 1) && 0 <= q) by (nonlinear_arith)
        requires
            0 <= n,
            0 < x,
            q == n / x,
    ;
    assert(4 * (x * (q + 1)) <= (x + q + 1) * (x + q + 1)) by (nonlinear_arith);
    assert((x + q + 1) * (x + q + 1) <= (2 * (y + 1)) * (2 * (y + 1))) by (nonlinear_arith)
        requires
            0 <= x + q + 1 <= 2 * (y + 1),
    ;
    assert((2 * (y + 1)) * (2 * (y + 1)) == 4 * ((y + 1) * (y + 1))) by (nonlinear_arith);
}

/// Where `x` is at or above the integer square root of `n`, the quotient
/// `n / x` exceeds `x` by at most two, and `x * (n / x)` stays within `n`.
proof fn lemma_quotient_near_root(n: int, x: int)
    requires
        0 <= n,
        0 < x,
        n < (x + 1) * (x + 1),
    ensures
        0 <= n / x <= x + 2,
        x * (n / x) <= n,
{
    let q = n / x;
    assert(x * q <= n && 0 <= q) by (nonlinear_arith)
        requires
            0 <= n,
            0 < x,
            q == n / x,
    ;
    assert(q <= x + 2) by (nonlinear_arith)
        requires
            0 < x,
            0 <= q,
            x * q <= n,
            n < (x + 1) * (x + 1),
    ;
}

/// The integer square root of `n`, by Newton's iteration from `n` downwards.
pub fn integer_sqrt(n: u128) -> (root: u64)
    ensures
        root * root <= n,
        n < (root + 1) * (root + 1),
        root == floor_sqrt(n as nat),
{
    if n == 0 {
        proof {
            lemma_floor_sqrt(0, 0);
        }
        return 0;
    }
    let mut x: u128 = n;
    let mut y: u128 = x / 2 + x % 2;
    assert(n / n == 1 && n < (n + 1) * (n + 1)) by (nonlinear_arith)
        requires
            n > 0,
    ;
    while y < x
        invariant
            0 < x <= n,
            n < (x + 1) * (x + 1),
            y == (x + n / x) / 2,
            y <= 0x8000_0000_0000_0000_0000_0000_0000_0000,
        decreases x,
    {
        proof {
            lemma_newton_step(n as int, x as int);
            assert(y > 0) by {
                if y == 0 {
                    assert((y + 1) * (y + 1) == 1) by (nonlinear_arith)
                        requires
                            y == 0,
                    ;
                }
            }
            lemma_quotient_near_root(n as int, y as int);
            if y >= 0x1_0000_0000_0000_0000 {
                assert(n / y < 0x1_0000_0000_0000_0000) by (nonlinear_arith)
                    requires
                        y >= 0x1_0000_0000_0000_0000,
                        n < 0x1_0000_0000_0000_0000_0000_0000_0000_0000,
                ;
            }
        }
        x = y;
        y = (x + n / x) / 2;
    }
    proof {
        lemma_quotient_near_root(n as int, x as int);
        assert(x * x <= n) by (nonlinear_arith)
            requires
                0 < x,
                x <= n / x,
                x * (n / x) <= n,
        ;
        assert(x < 0x1_0000_0000_0000_0000) by (nonlinear_arith)
            requires
                x * x <= n,
                n < 0x1_0000_0000_0000_0000_0000_0000_0000_0000,
        ;
        lemma_floor_sqrt(n as nat, x as nat);
    }
    x as u64
}

/// The product of two 64-bit numbers fits in 128 bits.
pub proof fn lemma_product_fits(a: u64, b: u64)
    ensures
        a * b <= u128::MAX,
{
    assert(a * b <= 0xffff_ffff_ffff_ffff * 0xffff_ffff_ffff_ffff) by (nonlinear_arith)
        requires
            0 <= a <= 0xffff_ffff_ffff_ffff,
            0 <= b <= 0xffff_ffff_ffff_ffff,
    ;
}

/// `a * b / c` rounded down, computed through a 128-bit product so that the
/// multiplication cannot overflow.
pub fn mul_div(a: u64, b: u64, c: u64) -> (result: Result<u64, ArithmeticError>)
    ensures
        c == 0 ==> result == Err::<u64, ArithmeticError>(ArithmeticError::DivisionByZero),
        c != 0 && a * b / (c as int) > u64::MAX ==> result == Err::<u64, ArithmeticError>(
            ArithmeticError::Overflow,
        ),
        c != 0 && a * b / (c as int) <= u64::MAX ==> result == Ok::<u64, ArithmeticError>(
            (a * b / (c as int)) as u64,
        ),
{
    if c == 0 {
        return Err(ArithmeticError::DivisionByZero);
    }
    proof {
        lemma_product_fits(a, b);
    }
    let product: u128 = (a as u128) * (b as u128);
    let quotient: u128 = product / (c as u128);
    if quotient > u64::MAX as u128 {
        Err(ArithmeticError::Overflow)
    } else {
        Ok(quotient as u64)
    }
}

/// What `mul_div_u64` returns: the rounded-down quotient where it exists and
/// fits in 64 bits.
pub open spec fn mul_div_u64_spec(a: u64, b: u64, c: u64) -> Result<u64, AppError> {
    if c == 0 || a * b / (c as int) > u64::MAX {
        Err(AppError::CalculationError)
    } else {
        Ok((a * b / (c as int)) as u64)
    }
}

/// `a * b / c` rounded down. A zero divisor and a quotient beyond 64 bits are
/// both reported as `CalculationError`.
pub fn mul_div_u64(a: u64, b: u64, c: u64) -> (result: Result<u64, AppError>)
    ensures
        result == mul_div_u64_spec(a, b, c),
{
    match mul_div(a, b, c) {
        Ok(value) => Ok(value),
        Err(_) => Err(AppError::CalculationError),
    }
}

} // verus!
