use vstd::prelude::*;

verus! {

/// 2^64, the number of distinct values a random draw can take.
pub open spec fn draw_range() -> int {
    0x1_0000_0000_0000_0000
}

/// The index that a 64-bit random draw selects among `n` points: the draw is read
/// as a fraction of 2^64 and scaled by `n` (a 128-bit product, of which the high
/// 64 bits are kept); it needs no division by `n` and no retry.
pub open spec fn index_of(draw: u64, n: nat) -> int {
    (draw as int * n as int) / draw_range()
}

proof fn lemma_index_in_range(draw: u64, n: nat)
    requires
        n > 0,
    ensures
        0 <= index_of(draw, n) < n,
{
    let d = draw as int;
    let m = n as int;
    assert(0 <= d * m) by (nonlinear_arith)
        requires
            0 <= d,
            0 <= m,
    ;
    assert(d * m < draw_range() * m) by (nonlinear_arith)
        requires
            0 <= d < draw_range(),
            0 < m,
    ;
    assert((d * m) / draw_range() < m) by (nonlinear_arith)
        requires
            0 <= d * m < draw_range() * m,
            draw_range() > 0,
    ;
}

/// Maps one 64-bit random draw to an index in `[0, n)`.
pub fn sample_index(draw: u64, n: usize) -> (r: usize)
    requires
        n > 0,
    ensures
        r as int == index_of(draw, n as nat),
        r < n,
{
    proof {
        lemma_index_in_range(draw, n as nat);
        assert((draw as int) * (n as int) <= (u64::MAX as int) * (u64::MAX as int)) by (nonlinear_arith)
            requires
                0 <= draw as int <= u64::MAX as int,
                0 <= n as int <= u64::MAX as int,
        ;
    }
    let wide: u128 = (draw as u128) * (n as u128);
    (wide / 0x1_0000_0000_0000_0000u128) as usize
}

/// Maps each draw to an index in `[0, n)`; indices may repeat.
pub fn sample_indices(draws: &Vec<u64>, n: usize) -> (r: Vec<usize>)
    requires
        n > 0,
    ensures
        r@.len() == draws@.len(),
        forall|k: int| 0 <= k < r@.len() ==> #[trigger] r@[k] as int == index_of(draws@[k], n as nat),
        forall|k: int| 0 <= k < r@.len() ==> #[trigger] r@[k] < n,
{
    let mut r: Vec<usize> = Vec::new();
    let mut i: usize = 0;
    while i < draws.len()
        invariant
            n > 0,
            i <= draws@.len(),
            r@.len() == i,
            forall|k: int| 0 <= k < i ==> #[trigger] r@[k] as int == index_of(draws@[k], n as nat),
            forall|k: int| 0 <= k < i ==> #[trigger] r@[k] < n,
        decreases draws@.len() - i,
    {
        let idx = sample_index(draws[i], n);
        r.push(idx);
        i = i + 1;
    }
    r
}

} // verus!
