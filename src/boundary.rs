//! Small hooks that a foreign caller uses to exercise the engine.

use vstd::prelude::*;

use crate::pattern::PatternStep;

verus! {

/// Gives the first step of `ps` a delay of 1 and the second a delay of 2,
/// where those steps exist; every other field and step is kept.
pub fn pattern_test(ps: &mut [PatternStep])
    ensures
        final(ps)@.len() == old(ps)@.len(),
        forall|i: int|
            0 <= i < old(ps)@.len() ==> #[trigger] final(ps)@[i] == (if i == 0 {
                PatternStep { delay: 1, ..old(ps)@[i] }
            } else if i == 1 {
                PatternStep { delay: 2, ..old(ps)@[i] }
            } else {
                old(ps)@[i]
            }),
{
    if ps.len() >= 1 {
        let s = ps[0];
        ps[0] = PatternStep { delay: 1, ..s };
    }
    if ps.len() >= 2 {
        let s = ps[1];
        ps[1] = PatternStep { delay: 2, ..s };
    }
}

/// Adds one to `x`.
pub fn test_synth_tools_rs_add1(x: u32) -> (r: u32)
    requires
        x < u32::MAX,
    ensures
        r == x + 1,
{
    x + 1
}

} // verus!
