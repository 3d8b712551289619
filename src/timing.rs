//! Relative to absolute conversion and circular time shifts.

use vstd::prelude::*;
use vstd::arithmetic::div_mod::{
    lemma_fundamental_div_mod, lemma_mod_bound, lemma_mod_multiples_vanish, lemma_small_mod,
};

use crate::bounded::{abs_items, abs_vec_as_slice, abs_vec_new, abs_vec_push, VecPatternAbs};
use crate::pattern::{
    abs_of_steps, adjusted, delay_sum, shifted, lemma_start_time_bounded, lemma_start_time_next, start_time,
    steps_made_abs, wrapped_time, PatternAbs, PatternError, PatternStep, MAX_PATTERN_SIZE,
};

verus! {

/// Adding `len` to a truncated remainder and reducing again gives the
/// Euclidean remainder.
proof fn lemma_truncated_rem_shift(sum: int, len: int, rem: int)
    requires
        len > 0,
        sum >= 0 ==> rem == sum % len,
        sum < 0 ==> rem == -((-sum) % len),
    ensures
        (rem + len) % len == sum % len,
{
    if sum >= 0 {
        lemma_mod_multiples_vanish(1, rem, len);
        lemma_small_mod(rem as nat, len as nat);
    } else {
        let a = -sum;
        lemma_fundamental_div_mod(a, len);
        let q = a / len;
        assert(sum + len * (q + 1) == rem + len) by (nonlinear_arith)
            requires
                a == len * q + a % len,
                sum == -a,
                rem == -(a % len),
        ;
        lemma_mod_multiples_vanish(q + 1, sum, len);
    }
}

/// Moves the tick `abs` by `offset` on a circular axis of `len` ticks.
///
/// The result always lies in `[0, len)`, whatever the sign or size of
/// `offset`.
pub fn time_offset(abs: u16, offset: i16, len: u16) -> (r: u16)
    requires
        len > 0,
    ensures
        r == wrapped_time(abs as int, offset as int, len as int),
        r < len,
{
    let iabs = abs as i32;
    let ilen = len as i32;
    // `%` on signed integers keeps the sign of the dividend: shift by one
    // more period and reduce again.
    let sum = iabs + offset as i32;
    let rem = sum % ilen;
    proof {
        lemma_truncated_rem_shift(sum as int, ilen as int, rem as int);
    }
    let iadj = (rem + ilen) % ilen;
    iadj as u16
}

/// A shift by zero ticks leaves a position of the axis where it is.
pub proof fn lemma_time_offset_zero(position: int, len: int)
    requires
        0 <= position < len,
    ensures
        wrapped_time(position, 0, len) == position,
{
    lemma_small_mod(position as nat, len as nat);
}

/// A shift by any whole number of cycles leaves a position of the axis
/// where it is.
pub proof fn lemma_time_offset_full_cycles(position: int, k: int, len: int)
    requires
        0 <= position < len,
    ensures
        wrapped_time(position, k * len, len) == position,
{
    lemma_mod_multiples_vanish(k, position, len);
    assert(position + k * len == len * k + position) by (nonlinear_arith);
    lemma_small_mod(position as nat, len as nat);
}

/// Whatever the offset, positive or negative and of any size, the shifted
/// position lies on the axis.
pub proof fn lemma_time_offset_in_range(position: int, offset: int, len: int)
    requires
        len > 0,
    ensures
        0 <= wrapped_time(position, offset, len) < len,
{
    lemma_mod_bound(position + offset, len);
}

/// A pattern of one step and one tick comes back unchanged from any shift:
/// its axis has a single position.
pub proof fn lemma_single_tick_round_trip(s: Seq<PatternStep>, offset: int)
    requires
        s.len() == 1,
        s[0].delay == 1,
    ensures
        adjusted(s, offset) == abs_of_steps(s),
{
    assert(s.take(0) =~= Seq::<PatternStep>::empty());
    assert(s.drop_last() =~= Seq::<PatternStep>::empty());
    assert(delay_sum(s.drop_last()) == 0);
    assert(delay_sum(s) == 1);
    assert((0 + offset) % 1 == 0);
    assert(adjusted(s, offset) =~= abs_of_steps(s));
}

/// The in-place conversion writes into each `delay` exactly the tick that
/// the copying conversion gives the same step.
pub proof fn lemma_in_place_agrees(s: Seq<PatternStep>)
    ensures
        steps_made_abs(s).len() == abs_of_steps(s).len(),
        forall|i: int|
            0 <= i < s.len() ==> #[trigger] steps_made_abs(s)[i].delay == abs_of_steps(s)[i].time,
{
}

/// Turns the delays of `psi` into absolute tick positions, in place.
///
/// After the call the `delay` field of each step holds the tick at which
/// the step starts; payloads and links are kept.
pub fn pattern_make_abs(psi: &mut [PatternStep])
    requires
        delay_sum(old(psi)@) <= u16::MAX,
    ensures
        final(psi)@ == steps_made_abs(old(psi)@),
{
    let ghost orig = psi@;
    let mut time: u16 = 0;
    let mut i: usize = 0;
    while i < psi.len()
        invariant
            psi@.len() == orig.len(),
            0 <= i <= orig.len(),
            delay_sum(orig) <= u16::MAX,
            time == start_time(orig, i as int),
            forall|j: int| 0 <= j < i ==> psi@[j] == #[trigger] steps_made_abs(orig)[j],
            forall|j: int| i <= j < orig.len() ==> psi@[j] == orig[j],
        decreases orig.len() - i,
    {
        proof {
            lemma_start_time_next(orig, i as int);
            lemma_start_time_bounded(orig, i as int + 1);
        }
        let step = psi[i];
        psi[i] = PatternStep { event: step.event, delay: time, next: step.next };
        time = time + step.delay;
        i = i + 1;
    }
    assert(psi@ =~= steps_made_abs(orig));
}

/// Total length in ticks of the pattern `ps`: the sum of its delays.
pub fn pattern_length(ps: &[PatternStep]) -> (r: u16)
    requires
        delay_sum(ps@) <= u16::MAX,
    ensures
        r == delay_sum(ps@),
{
    let mut total: u16 = 0;
    let mut i: usize = 0;
    while i < ps.len()
        invariant
            0 <= i <= ps@.len(),
            delay_sum(ps@) <= u16::MAX,
            total == start_time(ps@, i as int),
        decreases ps@.len() - i,
    {
        proof {
            lemma_start_time_next(ps@, i as int);
            lemma_start_time_bounded(ps@, i as int + 1);
        }
        total = total + ps[i].delay;
        i = i + 1;
    }
    assert(ps@.take(i as int) =~= ps@);
    total
}

/// Converts the relative steps `ps` into absolute events, one per step and
/// in the same order; the first event sits at tick 0.
///
/// Fails, before building anything, when `ps` holds more steps than a
/// buffer has room for.
pub fn pattern_abs_from_step(ps: &[PatternStep]) -> (r: Result<VecPatternAbs, PatternError>)
    requires
        ps@.len() <= MAX_PATTERN_SIZE ==> delay_sum(ps@) <= u16::MAX,
    ensures
        ps@.len() > MAX_PATTERN_SIZE <==> r is Err,
        r matches Err(e) ==> e == PatternError::CapacityExceeded,
        r is Ok ==> abs_items(r->Ok_0) == abs_of_steps(ps@),
        r is Ok ==> abs_items(r->Ok_0).len() == ps@.len(),
        r is Ok && ps@.len() > 0 ==> abs_items(r->Ok_0)[0].time == 0,
{
    if ps.len() > MAX_PATTERN_SIZE {
        return Err(PatternError::CapacityExceeded);
    }
    let mut out = abs_vec_new();
    let mut time: u16 = 0;
    let mut i: usize = 0;
    while i < ps.len()
        invariant
            ps@.len() <= MAX_PATTERN_SIZE,
            0 <= i <= ps@.len(),
            delay_sum(ps@) <= u16::MAX,
            time == start_time(ps@, i as int),
            abs_items(out) =~= abs_of_steps(ps@).take(i as int),
        decreases ps@.len() - i,
    {
        proof {
            lemma_start_time_next(ps@, i as int);
            lemma_start_time_bounded(ps@, i as int + 1);
        }
        let step = ps[i];
        let _ = abs_vec_push(&mut out, PatternAbs { event: step.event, time });
        time = time + step.delay;
        i = i + 1;
    }
    assert(abs_of_steps(ps@).take(i as int) =~= abs_of_steps(ps@));
    proof {
        if ps@.len() > 0 {
            assert(ps@.take(0) =~= Seq::<PatternStep>::empty());
        }
    }
    Ok(out)
}

/// Converts `ps` to absolute events and rotates them by `offset` ticks on
/// the circular axis whose length is the sum of the delays of `ps`.
///
/// The events keep their order and payloads; only their ticks move.
pub fn pattern_abs_adjust(ps: &[PatternStep], offset: i16) -> (r: Result<VecPatternAbs, PatternError>)
    requires
        ps@.len() <= MAX_PATTERN_SIZE ==> delay_sum(ps@) <= u16::MAX,
    ensures
        (r matches Err(e) && e == PatternError::CapacityExceeded) <==> ps@.len() > MAX_PATTERN_SIZE,
        (r matches Err(e) && e == PatternError::ZeroLength) <==> (ps@.len() <= MAX_PATTERN_SIZE
            && delay_sum(ps@) == 0),
        r is Ok ==> abs_items(r->Ok_0) == adjusted(ps@, offset as int),
{
    let pa = match pattern_abs_from_step(ps) {
        Ok(pa) => pa,
        Err(e) => {
            return Err(e);
        },
    };
    let len = pattern_length(ps);
    if len == 0 {
        return Err(PatternError::ZeroLength);
    }
    let src = abs_vec_as_slice(&pa);
    let ghost target = adjusted(ps@, offset as int);
    let mut out = abs_vec_new();
    let mut i: usize = 0;
    while i < src.len()
        invariant
            src@ == abs_of_steps(ps@),
            src@.len() <= MAX_PATTERN_SIZE,
            len == delay_sum(ps@),
            len > 0,
            0 <= i <= src@.len(),
            target == shifted(src@, offset as int, len as int),
            abs_items(out) =~= target.take(i as int),
        decreases src@.len() - i,
    {
        let a = src[i];
        let t = time_offset(a.time, offset, len);
        let _ = abs_vec_push(&mut out, PatternAbs { event: a.event, time: t });
        i = i + 1;
    }
    assert(target.take(i as int) =~= target);
    Ok(out)
}

} // verus!
