//! Fixed-point scales and the integer DCT evaluator: the 16x16 low-frequency
//! block of the DCT of a 64x64 buffer, computed exactly in integers from a
//! quantised kernel, as the circuit computes it.
use vstd::prelude::*;

verus! {

/// The buffer is 64x64 pixels.
pub const BUFFER_EDGE: usize = 64;

/// Only the top-left 16x16 block of the DCT is kept.
pub const DCT_EDGE: usize = 16;

pub const DCT_VALUE_COUNT: usize = 256;

pub const BUFFER_VALUE_COUNT: usize = 4096;

pub const KERNEL_VALUE_COUNT: usize = 1024;

/// `2^12`: pixels are scaled by this before rounding.
pub const LUMA_SCALE: i64 = 4096;

/// `2^14`: kernel entries are scaled by this before rounding.
pub const DCT_SCALE: i64 = 16384;

/// `LUMA_SCALE * DCT_SCALE^2 = 2^40`: the scale of an output coefficient.
pub const FINAL_SCALE: i128 = 1099511627776;

/// Rounding slack is range-checked to this many bits.
pub const CORRECTION_BITS: usize = 46;

/// `2^46`: the largest rounding slack allowed per coefficient.
pub const CORRECTION_TOLERANCE: i128 = 70368744177664;

/// Largest magnitude of a quantised pixel: `LUMA_SCALE * 256 = 2^20`.
pub const PIXEL_BOUND: i64 = 1048576;

/// A quantised kernel: 16 rows of 64 entries, row-major, each of magnitude at
/// most `DCT_SCALE` (the entries of a DCT matrix lie in `[-1, 1]`).
pub open spec fn kernel_ok(k: Seq<i64>) -> bool {
    &&& k.len() == KERNEL_VALUE_COUNT
    &&& forall|i: int| 0 <= i < k.len() ==> -DCT_SCALE <= #[trigger] k[i] <= DCT_SCALE
}

/// A quantised buffer: 4096 pixels, row-major, each of magnitude at most
/// `LUMA_SCALE * 256`.
pub open spec fn pixels_ok(p: Seq<i64>) -> bool {
    &&& p.len() == BUFFER_VALUE_COUNT
    &&& forall|i: int| 0 <= i < p.len() ==> -PIXEL_BOUND <= #[trigger] p[i] <= PIXEL_BOUND
}

/// `sum_{k < n} K[r][k] * p[k * 64 + c]`.
pub open spec fn stage1_sum(kernel: Seq<i64>, pixels: Seq<i64>, r: int, c: int, n: nat) -> int
    decreases n,
{
    if n == 0 {
        0
    } else {
        stage1_sum(kernel, pixels, r, c, (n - 1) as nat) + kernel[r * 64 + n - 1] * pixels[(n
            - 1) * 64 + c]
    }
}

/// First stage `M[r][c]`, for `r < 16`, `c < 64`.
pub open spec fn stage1(kernel: Seq<i64>, pixels: Seq<i64>, r: int, c: int) -> int {
    stage1_sum(kernel, pixels, r, c, 64)
}

/// `sum_{k < n} M[r][k] * K[c][k]`.
pub open spec fn stage2_sum(kernel: Seq<i64>, pixels: Seq<i64>, r: int, c: int, n: nat) -> int
    decreases n,
{
    if n == 0 {
        0
    } else {
        stage2_sum(kernel, pixels, r, c, (n - 1) as nat) + stage1(kernel, pixels, r, n - 1)
            * kernel[c * 64 + n - 1]
    }
}

/// The integer DCT coefficient `D[r][c]`, for `r, c < 16`.
pub open spec fn dct_coeff(kernel: Seq<i64>, pixels: Seq<i64>, r: int, c: int) -> int {
    stage2_sum(kernel, pixels, r, c, 64)
}

/// The 256 coefficients in row-major order.
pub open spec fn dct_spec(kernel: Seq<i64>, pixels: Seq<i64>) -> Seq<int> {
    Seq::new(256, |i: int| dct_coeff(kernel, pixels, i / 16, i % 16))
}

/// A product of two bounded values is bounded by the product of the bounds.
proof fn lemma_mul_bound(a: int, b: int, x: int, y: int)
    requires
        -x <= a <= x,
        -y <= b <= y,
    ensures
        -(x * y) <= a * b <= x * y,
{
    assert(-(x * y) <= a * b <= x * y) by (nonlinear_arith)
        requires
            -x <= a <= x,
            -y <= b <= y,
    ;
}

/// `|M[r][c]|` stays within `n * 2^34` over the first `n` terms.
proof fn lemma_stage1_bound(kernel: Seq<i64>, pixels: Seq<i64>, r: int, c: int, n: nat)
    requires
        kernel_ok(kernel),
        pixels_ok(pixels),
        0 <= r < 16,
        0 <= c < 64,
        n <= 64,
    ensures
        -(n * 17179869184) <= stage1_sum(kernel, pixels, r, c, n) <= n * 17179869184,
    decreases n,
{
    if n > 0 {
        lemma_stage1_bound(kernel, pixels, r, c, (n - 1) as nat);
        let k = n - 1;
        assert(0 <= r * 64 + k < 1024) by (nonlinear_arith)
            requires
                0 <= r < 16,
                0 <= k < 64,
        ;
        assert(0 <= k * 64 + c < 4096) by (nonlinear_arith)
            requires
                0 <= c < 64,
                0 <= k < 64,
        ;
        lemma_mul_bound(
            kernel[r * 64 + k] as int,
            pixels[k * 64 + c] as int,
            DCT_SCALE as int,
            PIXEL_BOUND as int,
        );
    }
}

/// `|D[r][c]|` stays within `n * 2^54` over the first `n` terms.
proof fn lemma_stage2_bound(kernel: Seq<i64>, pixels: Seq<i64>, r: int, c: int, n: nat)
    requires
        kernel_ok(kernel),
        pixels_ok(pixels),
        0 <= r < 16,
        0 <= c < 16,
        n <= 64,
    ensures
        -(n * 18014398509481984) <= stage2_sum(kernel, pixels, r, c, n) <= n
            * 18014398509481984,
    decreases n,
{
    if n > 0 {
        lemma_stage2_bound(kernel, pixels, r, c, (n - 1) as nat);
        let k = n - 1;
        lemma_stage1_bound(kernel, pixels, r, k, 64);
        assert(0 <= c * 64 + k < 1024) by (nonlinear_arith)
            requires
                0 <= c < 16,
                0 <= k < 64,
        ;
        lemma_mul_bound(
            stage1(kernel, pixels, r, k),
            kernel[c * 64 + k] as int,
            1099511627776,
            DCT_SCALE as int,
        );
    }
}

/// `M[r][c]`, accumulated in 128-bit integers.
fn stage1_entry(kernel: &[i64], pixels: &[i64], r: usize, c: usize) -> (m: i128)
    requires
        kernel_ok(kernel@),
        pixels_ok(pixels@),
        r < 16,
        c < 64,
    ensures
        m == stage1(kernel@, pixels@, r as int, c as int),
        -1099511627776 <= m <= 1099511627776,
{
    let mut acc: i128 = 0;
    let mut k: usize = 0;
    while k < BUFFER_EDGE
        invariant
            kernel_ok(kernel@),
            pixels_ok(pixels@),
            r < 16,
            c < 64,
            k <= 64,
            acc == stage1_sum(kernel@, pixels@, r as int, c as int, k as nat),
        decreases 64 - k,
    {
        proof {
            lemma_stage1_bound(kernel@, pixels@, r as int, c as int, (k + 1) as nat);
            assert(0 <= r * 64 + k < 1024) by (nonlinear_arith)
                requires
                    r < 16,
                    k < 64,
            ;
            assert(0 <= k * 64 + c < 4096) by (nonlinear_arith)
                requires
                    c < 64,
                    k < 64,
            ;
            lemma_mul_bound(
                kernel@[r * 64 + k] as int,
                pixels@[k * 64 + c] as int,
                DCT_SCALE as int,
                PIXEL_BOUND as int,
            );
        }
        let coeff = kernel[r * BUFFER_EDGE + k] as i128;
        let pixel = pixels[k * BUFFER_EDGE + c] as i128;
        acc = acc + coeff * pixel;
        k = k + 1;
    }
    proof {
        lemma_stage1_bound(kernel@, pixels@, r as int, c as int, 64);
    }
    acc
}

/// `D[r][c]` from the first-stage values `inter` (row-major, 16 x 64).
fn stage2_entry(
    kernel: &[i64],
    inter: &Vec<i128>,
    r: usize,
    c: usize,
    Ghost(pixels): Ghost<Seq<i64>>,
) -> (d: i128)
    requires
        kernel_ok(kernel@),
        pixels_ok(pixels),
        inter@.len() == 1024,
        forall|i: int| 0 <= i < 1024 ==> #[trigger] inter@[i] == stage1(kernel@, pixels, i / 64, i % 64),
        r < 16,
        c < 16,
    ensures
        d == dct_coeff(kernel@, pixels, r as int, c as int),
{
    let mut acc: i128 = 0;
    let mut k: usize = 0;
    while k < BUFFER_EDGE
        invariant
            kernel_ok(kernel@),
            pixels_ok(pixels),
            inter@.len() == 1024,
            forall|i: int|
                0 <= i < 1024 ==> #[trigger] inter@[i] == stage1(kernel@, pixels, i / 64, i % 64),
            r < 16,
            c < 16,
            k <= 64,
            acc == stage2_sum(kernel@, pixels, r as int, c as int, k as nat),
        decreases 64 - k,
    {
        proof {
            lemma_stage2_bound(kernel@, pixels, r as int, c as int, (k + 1) as nat);
            lemma_stage1_bound(kernel@, pixels, r as int, k as int, 64);
            assert(0 <= c * 64 + k < 1024) by (nonlinear_arith)
                requires
                    c < 16,
                    k < 64,
            ;
            assert(0 <= r * 64 + k < 1024) by (nonlinear_arith)
                requires
                    r < 16,
                    k < 64,
            ;
            assert((r * 64 + k) / 64 == r && (r * 64 + k) % 64 == k) by (nonlinear_arith)
                requires
                    r < 16,
                    k < 64,
            ;
            lemma_mul_bound(
                stage1(kernel@, pixels, r as int, k as int),
                kernel@[c * 64 + k] as int,
                1099511627776,
                DCT_SCALE as int,
            );
        }
        let coeff = kernel[c * BUFFER_EDGE + k] as i128;
        let value = inter[r * BUFFER_EDGE + k];
        acc = acc + value * coeff;
        k = k + 1;
    }
    acc
}

/// The 16x16 integer DCT block, row-major: `D[r][c] = sum_k M[r][k] * K[c][k]`
/// with `M[r][c] = sum_k K[r][k] * p[k * 64 + c]`. Each value fits in 64
/// bits (its magnitude is below `2^60`).
pub fn compute_dct_fixed(kernel: &[i64], pixels: &[i64]) -> (r: Vec<i64>)
    requires
        kernel_ok(kernel@),
        pixels_ok(pixels@),
    ensures
        r@.len() == DCT_VALUE_COUNT,
        forall|i: int| 0 <= i < 256 ==> #[trigger] r@[i] as int == dct_spec(kernel@, pixels@)[i],
{
    let mut inter: Vec<i128> = Vec::new();
    let mut i: usize = 0;
    while i < DCT_EDGE * BUFFER_EDGE
        invariant
            kernel_ok(kernel@),
            pixels_ok(pixels@),
            i <= 1024,
            inter@.len() == i,
            forall|j: int|
                0 <= j < i ==> #[trigger] inter@[j] == stage1(kernel@, pixels@, j / 64, j % 64),
        decreases 1024 - i,
    {
        let m = stage1_entry(kernel, pixels, i / BUFFER_EDGE, i % BUFFER_EDGE);
        inter.push(m);
        i = i + 1;
    }
    let mut output: Vec<i64> = Vec::new();
    let mut i: usize = 0;
    while i < DCT_VALUE_COUNT
        invariant
            kernel_ok(kernel@),
            pixels_ok(pixels@),
            inter@.len() == 1024,
            forall|j: int|
                0 <= j < 1024 ==> #[trigger] inter@[j] == stage1(kernel@, pixels@, j / 64, j % 64),
            i <= 256,
            output@.len() == i,
            forall|j: int|
                0 <= j < i ==> #[trigger] output@[j] as int == dct_spec(kernel@, pixels@)[j],
        decreases 256 - i,
    {
        let row = i / DCT_EDGE;
        let col = i % DCT_EDGE;
        let d = stage2_entry(kernel, &inter, row, col, Ghost(pixels@));
        proof {
            lemma_stage2_bound(kernel@, pixels@, row as int, col as int, 64);
        }
        output.push(d as i64);
        i = i + 1;
    }
    output
}

} // verus!
