//! Wraparound index arithmetic shared by the framebuffer and the memory
//! model: adding an offset modulo a bound, and recovering the offset.

use vstd::prelude::*;
use vstd::arithmetic::div_mod::lemma_small_mod;
use vstd::arithmetic::div_mod::lemma_mod_add_multiples_vanish;

verus! {

/// Offset `d` from `base`, wrapped into `[0, m)`.
pub open spec fn wrap_add(base: int, d: int, m: int) -> int {
    (base + d) % m
}

/// The wrapped distance from `base` up to `a`: the inverse of `wrap_add`
/// for offsets below `m`.
pub open spec fn wrap_dist(a: int, base: int, m: int) -> int {
    (a + m - base) % m
}

/// Wrapping an offset below `m` and taking the wrapped distance back
/// returns the original offset.
pub proof fn lemma_wrap_round(base: int, d: int, m: int)
    requires
        0 <= base < m,
        0 <= d < m,
    ensures
        0 <= wrap_add(base, d, m) < m,
        wrap_dist(wrap_add(base, d, m), base, m) == d,
{
    if base + d < m {
        lemma_small_mod((base + d) as nat, m as nat);
        lemma_mod_add_multiples_vanish(d, m);
        lemma_small_mod(d as nat, m as nat);
    } else {
        lemma_mod_add_multiples_vanish(base + d - m, m);
        lemma_small_mod((base + d - m) as nat, m as nat);
        lemma_mod_add_multiples_vanish(d, m);
        lemma_small_mod(d as nat, m as nat);
    }
}

/// Adding the wrapped distance from `base` to `a` back onto `base`
/// returns `a`: `wrap_dist` is a left inverse of `wrap_add` as well.
pub proof fn lemma_wrap_unround(a: int, base: int, m: int)
    requires
        0 <= a < m,
        0 <= base < m,
    ensures
        0 <= wrap_dist(a, base, m) < m,
        wrap_add(base, wrap_dist(a, base, m), m) == a,
{
    if a >= base {
        lemma_mod_add_multiples_vanish(a - base, m);
        lemma_small_mod((a - base) as nat, m as nat);
        lemma_small_mod(a as nat, m as nat);
    } else {
        lemma_small_mod((a + m - base) as nat, m as nat);
        lemma_mod_add_multiples_vanish(a, m);
        lemma_small_mod(a as nat, m as nat);
    }
}

} // verus!
