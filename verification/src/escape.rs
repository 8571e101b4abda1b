//! The escape-time iteration budget and the grayscale intensity mapping.
//!
//! An orbit is advanced by the caller (the arithmetic on the complex value
//! is the caller's); this module owns the decision of the escape loop —
//! when to take another step and what count to report — and the mapping
//! from a final count to an 8-bit grayscale intensity.

use vstd::prelude::*;

verus! {

/// Iteration cap of the escape-time search: an orbit that has not crossed
/// the threshold after this many steps is treated as non-escaping.
pub const MAX_ITER: usize = 100;

/// Grayscale intensity for an escape count: `255 - n * 255 / MAX_ITER`,
/// with truncating integer division. Counts at the cap map to 0 (black),
/// immediate escapes map to 255 (white).
pub open spec fn intensity_spec(n: nat) -> int {
    255 - n * 255 / (MAX_ITER as nat)
}

/// Converts an escape count to its grayscale intensity byte.
///
/// The byte is zero exactly when the count reached the iteration cap:
/// only presumed members of the set are painted black.
pub fn intensity(n: usize) -> (r: u8)
    requires
        n <= MAX_ITER,
    ensures
        r as int == intensity_spec(n as nat),
        r == 0 <==> n == MAX_ITER,
{
    proof {
        lemma_intensity_range(n as nat);
    }
    (255 - n * 255 / MAX_ITER) as u8
}

/// Law: for every count within the cap, the intensity lies in [0, 255]
/// (so it fits an unsigned byte exactly), and it is 0 precisely when the
/// count reached the cap — only presumed set members are painted black.
pub proof fn lemma_intensity_range(n: nat)
    requires
        n <= MAX_ITER,
    ensures
        0 <= intensity_spec(n) <= 255,
        intensity_spec(n) == 0 <==> n == MAX_ITER,
{
    assert(n * 255 <= 100 * 255) by (nonlinear_arith)
        requires
            n <= 100,
    ;
    assert(n < 100 ==> n * 255 <= 99 * 255) by (nonlinear_arith);
}

/// One decision of the escape loop, taken before every step: `n` orbit
/// steps have completed so far and `within_threshold` reports whether the
/// orbit's magnitude is still at most the escape threshold. Returns
/// `Some(n + 1)`, the count after one more step, while the orbit remains
/// within the threshold and the cap is not yet reached; returns `None`
/// when the loop must stop, the final count being `n`.
pub fn escape_advance(n: usize, within_threshold: bool) -> (r: Option<usize>)
    requires
        n <= MAX_ITER,
    ensures
        r == (if within_threshold && n < MAX_ITER {
            Some((n + 1) as usize)
        } else {
            None::<usize>
        }),
{
    if within_threshold && n < MAX_ITER {
        Some(n + 1)
    } else {
        None
    }
}

} // verus!
