//! Facts about wrap-around (modular) offsets on the screen.
use vstd::prelude::*;
use vstd::arithmetic::div_mod;

verus! {

/// Moving `k` forward by `b` with wrap-around, then back by `b`, returns `k`.
pub proof fn lemma_wrap_offset_roundtrip(k: int, b: int, m: int)
    requires
        0 < m,
        0 <= k < m,
    ensures
        ((k + b) % m - b) % m == k,
{
    div_mod::lemma_sub_mod_noop_right((k + b) % m, b, m);
    div_mod::lemma_sub_mod_noop(k + b, b, m);
    div_mod::lemma_small_mod(k as nat, m as nat);
}

/// Moving `a` back by `b` with wrap-around, then forward by `b`, returns `a`.
pub proof fn lemma_wrap_offset_inverse(a: int, b: int, m: int)
    requires
        0 < m,
        0 <= a < m,
    ensures
        ((a - b) % m + b) % m == a,
{
    div_mod::lemma_add_mod_noop_right((a - b) % m, b, m);
    div_mod::lemma_add_mod_noop(a - b, b, m);
    div_mod::lemma_small_mod(a as nat, m as nat);
}

/// A row-major index splits into its line and column, and back.
pub proof fn lemma_row_major(p: int, line: int, col: int, width: int)
    requires
        0 < width,
        0 <= col < width,
        p == width * line + col,
    ensures
        p / width == line,
        p % width == col,
{
    assert(p == line * width + col) by (nonlinear_arith)
        requires
            p == width * line + col,
    ;
    div_mod::lemma_fundamental_div_mod_converse(p, width, line, col);
}

/// Every index splits into its line and column.
pub proof fn lemma_row_major_split(p: int, width: int)
    requires
        0 < width,
    ensures
        p == width * (p / width) + p % width,
        0 <= p % width < width,
{
    div_mod::lemma_fundamental_div_mod(p, width);
    div_mod::lemma_mod_bound(p, width);
}

} // verus!
