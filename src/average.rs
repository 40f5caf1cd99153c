use vstd::arithmetic::div_mod::{lemma_div_is_ordered, lemma_fundamental_div_mod_converse};
use vstd::prelude::*;

use crate::color::Sample;

verus! {

/// Why an average could not be taken.
#[derive(Clone, Copy, Debug, PartialEq, Eq, Structural)]
pub enum AverageError {
    /// The image holds no pixel, so there is nothing to divide by.
    EmptyImage,
}

/// Sum of channel `k` over the RGBA pixels `px`.
pub open spec fn channel_sum(px: Seq<[u8; 4]>, k: int) -> int
    decreases px.len(),
{
    if px.len() == 0 {
        0
    } else {
        channel_sum(px.drop_last(), k) + px.last()@[k]
    }
}

/// `sum / n` rounded to the nearest integer, halves rounded up.
pub open spec fn rounded_mean(sum: int, n: int) -> int {
    (2 * sum + n) / (2 * n)
}

/// The per-channel mean colour of a non-empty run of RGBA pixels, each
/// channel rounded to the nearest integer; alpha plays no part.
pub open spec fn spec_average(px: Seq<[u8; 4]>) -> Sample {
    Sample {
        r: rounded_mean(channel_sum(px, 0), px.len() as int) as u8,
        g: rounded_mean(channel_sum(px, 1), px.len() as int) as u8,
        b: rounded_mean(channel_sum(px, 2), px.len() as int) as u8,
    }
}

proof fn lemma_channel_sum_bounds(px: Seq<[u8; 4]>, k: int)
    requires
        0 <= k < 4,
    ensures
        0 <= channel_sum(px, k) <= 255 * px.len(),
    decreases px.len(),
{
    if px.len() > 0 {
        lemma_channel_sum_bounds(px.drop_last(), k);
    }
}

proof fn lemma_rounded_mean_fits(sum: int, n: int)
    requires
        0 <= sum <= 255 * n,
        n > 0,
    ensures
        0 <= rounded_mean(sum, n) <= 255,
{
    assert(2 * sum + n < 256 * (2 * n)) by (nonlinear_arith)
        requires
            sum <= 255 * n,
            n > 0,
    ;
    lemma_div_is_ordered(0, 2 * sum + n, 2 * n);
    assert(0int / (2 * n) == 0);
    if rounded_mean(sum, n) > 255 {
        assert((2 * sum + n) / (2 * n) * (2 * n) >= 256 * (2 * n)) by (nonlinear_arith)
            requires
                (2 * sum + n) / (2 * n) >= 256,
                n > 0,
        ;
        vstd::arithmetic::div_mod::lemma_fundamental_div_mod(2 * sum + n, 2 * n);
        vstd::arithmetic::div_mod::lemma_mod_bound(2 * sum + n, 2 * n);
    }
}

/// Averages the colour of the pixels `pixels` channel by channel, rounding
/// each mean to the nearest integer and ignoring alpha. An empty run of
/// pixels is refused.
pub fn average_rgb(pixels: &Vec<[u8; 4]>) -> (r: Result<Sample, AverageError>)
    ensures
        pixels@.len() == 0 ==> r == Err::<Sample, AverageError>(AverageError::EmptyImage),
        pixels@.len() > 0 ==> r == Ok::<Sample, AverageError>(spec_average(pixels@)),
{
    let n = pixels.len();
    if n == 0 {
        return Err(AverageError::EmptyImage);
    }
    let mut sum_r: u128 = 0;
    let mut sum_g: u128 = 0;
    let mut sum_b: u128 = 0;
    let mut i: usize = 0;
    while i < n
        invariant
            n == pixels@.len(),
            i <= n,
            sum_r == channel_sum(pixels@.take(i as int), 0),
            sum_g == channel_sum(pixels@.take(i as int), 1),
            sum_b == channel_sum(pixels@.take(i as int), 2),
        decreases n - i,
    {
        let px = pixels[i];
        proof {
            let pre = pixels@.take(i as int);
            let post = pixels@.take(i + 1);
            assert(post.drop_last() =~= pre);
            assert(post.last() == px);
            lemma_channel_sum_bounds(pre, 0);
            lemma_channel_sum_bounds(pre, 1);
            lemma_channel_sum_bounds(pre, 2);
        }
        sum_r = sum_r + px[0] as u128;
        sum_g = sum_g + px[1] as u128;
        sum_b = sum_b + px[2] as u128;
        i = i + 1;
    }
    assert(pixels@.take(n as int) =~= pixels@);
    let wide = n as u128;
    proof {
        lemma_channel_sum_bounds(pixels@, 0);
        lemma_channel_sum_bounds(pixels@, 1);
        lemma_channel_sum_bounds(pixels@, 2);
        lemma_rounded_mean_fits(sum_r as int, n as int);
        lemma_rounded_mean_fits(sum_g as int, n as int);
        lemma_rounded_mean_fits(sum_b as int, n as int);
    }
    let r = ((2 * sum_r + wide) / (2 * wide)) as u8;
    let g = ((2 * sum_g + wide) / (2 * wide)) as u8;
    let b = ((2 * sum_b + wide) / (2 * wide)) as u8;
    Ok(Sample { r, g, b })
}

proof fn lemma_uniform_sum(px: Seq<[u8; 4]>, k: int, v: int)
    requires
        forall|i: int| 0 <= i < px.len() ==> px[i]@[k] == v,
    ensures
        channel_sum(px, k) == px.len() * v,
    decreases px.len(),
{
    if px.len() > 0 {
        let init = px.drop_last();
        assert forall|i: int| 0 <= i < init.len() implies init[i]@[k] == v by {
            assert(init[i] == px[i]);
        }
        lemma_uniform_sum(init, k, v);
        assert(px.len() * v == (px.len() - 1) * v + v) by (nonlinear_arith);
    }
}

proof fn lemma_rounded_mean_of_multiple(n: int, v: int)
    requires
        n > 0,
        0 <= v,
    ensures
        rounded_mean(n * v, n) == v,
{
    assert(2 * (n * v) + n == v * (2 * n) + n) by (nonlinear_arith);
    lemma_fundamental_div_mod_converse(2 * (n * v) + n, 2 * n, v, n);
}

/// Averaging pixels that all share one colour gives that colour back exactly,
/// whatever their alpha.
pub proof fn lemma_average_of_uniform(px: Seq<[u8; 4]>, c: Sample)
    requires
        px.len() > 0,
        forall|i: int|
            0 <= i < px.len() ==> px[i]@[0] == c.r && px[i]@[1] == c.g && px[i]@[2] == c.b,
    ensures
        spec_average(px) == c,
{
    lemma_uniform_sum(px, 0, c.r as int);
    lemma_uniform_sum(px, 1, c.g as int);
    lemma_uniform_sum(px, 2, c.b as int);
    lemma_rounded_mean_of_multiple(px.len() as int, c.r as int);
    lemma_rounded_mean_of_multiple(px.len() as int, c.g as int);
    lemma_rounded_mean_of_multiple(px.len() as int, c.b as int);
}

} // verus!
