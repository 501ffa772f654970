use vstd::prelude::*;

verus! {

/// `k` is the 8-bit code of the linear intensity `num / den` under the
/// square-root tone curve: the largest integer not above `255.999 * sqrt(num / den)`.
/// Written with `255.999 = 255999 / 1000` and both sides squared. A zero
/// denominator stands for an undefined intensity, which is coded as 0.
pub open spec fn is_gamma_code(k: int, num: int, den: int) -> bool {
    if den == 0 {
        k == 0
    } else {
        &&& (1000 * k) * (1000 * k) * den <= 255999 * 255999 * num
        &&& 255999 * 255999 * num < (1000 * (k + 1)) * (1000 * (k + 1)) * den
    }
}

/// At most one code satisfies `is_gamma_code` for a given intensity, so the
/// contract of `gamma_code` fixes its result.
pub proof fn lemma_gamma_code_unique(k1: int, k2: int, num: int, den: int)
    requires
        0 <= k1,
        0 <= k2,
        0 <= den,
        is_gamma_code(k1, num, den),
        is_gamma_code(k2, num, den),
    ensures
        k1 == k2,
{
    if den > 0 {
        if k1 < k2 {
            lemma_square_steps(k1, k2, den);
        } else if k2 < k1 {
            lemma_square_steps(k2, k1, den);
        }
    }
}

proof fn lemma_square_steps(a: int, b: int, den: int)
    requires
        0 <= a < b,
        0 < den,
    ensures
        (1000 * (a + 1)) * (1000 * (a + 1)) * den <= (1000 * b) * (1000 * b) * den,
{
    assert((1000 * (a + 1)) * (1000 * (a + 1)) * den <= (1000 * b) * (1000 * b) * den)
        by (nonlinear_arith)
        requires
            0 <= a < b,
            0 < den,
    ;
}

proof fn lemma_next_code_in_range(k: int, num: int, den: int)
    requires
        0 <= k,
        0 <= num <= den,
        0 < den,
        (k + 1) * (k + 1) * (1000000 * den) <= 65535488001 * num,
    ensures
        k + 1 <= 255,
{
    assert(65535488001 * num <= 65535488001 * den) by (nonlinear_arith)
        requires
            0 <= num <= den,
    ;
    assert((k + 1) * (k + 1) * 1000000 <= 65535488001) by (nonlinear_arith)
        requires
            0 < den,
            (k + 1) * (k + 1) * (1000000 * den) <= 65535488001 * den,
    ;
    assert(k + 1 <= 255) by (nonlinear_arith)
        requires
            0 <= k,
            (k + 1) * (k + 1) * 1000000 <= 65535488001,
    ;
}

proof fn lemma_squares_scaled(k: int, den: int)
    ensures
        (1000 * k) * (1000 * k) * den == k * k * (1000000 * den),
        (1000 * (k + 1)) * (1000 * (k + 1)) * den == (k + 1) * (k + 1) * (1000000 * den),
{
    assert((1000 * k) * (1000 * k) * den == k * k * (1000000 * den)) by (nonlinear_arith);
    assert((1000 * (k + 1)) * (1000 * (k + 1)) * den == (k + 1) * (k + 1) * (1000000 * den))
        by (nonlinear_arith);
}

/// The 8-bit code of the intensity `num / den` (see `is_gamma_code`),
/// computed exactly in integers.
pub fn gamma_code(num: usize, den: usize) -> (k: u8)
    requires
        num <= den,
    ensures
        is_gamma_code(k as int, num as int, den as int),
{
    if den == 0 {
        return 0;
    }
    let target: u128 = 65535488001u128 * (num as u128);
    let d: u128 = 1000000u128 * (den as u128);
    let mut k: u128 = 0;
    // `next` is what the next code would need: `(k + 1)^2 * d`.
    let mut next: u128 = d;
    assert(k * k * d == 0 && (k + 1) * (k + 1) * d == d) by (nonlinear_arith)
        requires
            k == 0,
    ;
    while next <= target
        invariant
            0 < den,
            num <= den,
            d == 1000000 * den,
            target == 65535488001 * num,
            k <= 255,
            k * k * d <= target,
            next == (k + 1) * (k + 1) * d,
        decreases 255 - k,
    {
        proof {
            lemma_next_code_in_range(k as int, num as int, den as int);
            assert((k + 2) * (k + 2) * d <= 65536 * d) by (nonlinear_arith)
                requires
                    k + 1 <= 255,
                    0 <= d,
            ;
            assert((k + 2) * (k + 2) * d == next + (2 * k + 3) * d) by (nonlinear_arith)
                requires
                    next == (k + 1) * (k + 1) * d,
            ;
            assert((2 * k + 3) * d <= 513 * d) by (nonlinear_arith)
                requires
                    k <= 255,
                    0 <= d,
            ;
        }
        let step: u128 = (2 * k + 3) * d;
        k = k + 1;
        next = next + step;
    }
    proof {
        lemma_squares_scaled(k as int, den as int);
    }
    k as u8
}

} // verus!
