//! The records the engine works on, and their mathematical reading.

use vstd::prelude::*;

verus! {

/// Largest number of steps that any buffer of the engine holds.
pub const MAX_PATTERN_SIZE: usize = 64;

/// One step in relative form: a payload and the delay to the next step.
///
/// `next` links the steps when the same records are read as a circular
/// list; a linear sequence does not use it.
#[derive(Clone, Copy, Debug, PartialEq, Eq, Structural)]
pub struct PatternStep {
    pub event: u32,
    pub delay: u16,
    pub next: u16,
}

/// One event at an absolute tick position of the pattern.
#[derive(Clone, Copy, Debug, PartialEq, Eq, Structural)]
pub struct PatternAbs {
    pub event: u32,
    pub time: u16,
}

/// Why an operation refused its input before touching any output.
#[derive(Clone, Copy, Debug, PartialEq, Eq, Structural)]
pub enum PatternError {
    /// More elements than `MAX_PATTERN_SIZE`.
    CapacityExceeded,
    /// The pattern's total length is zero, so no tick axis exists.
    ZeroLength,
}

/// Sum of the delays of `s`: the length of the pattern that `s` spans.
pub open spec fn delay_sum(s: Seq<PatternStep>) -> nat
    decreases s.len(),
{
    if s.len() == 0 {
        0
    } else {
        delay_sum(s.drop_last()) + s.last().delay as nat
    }
}

/// Tick at which step `i` of `s` starts: the delays of the steps before it.
pub open spec fn start_time(s: Seq<PatternStep>, i: int) -> nat {
    delay_sum(s.take(i))
}

/// The absolute form of `s`: each payload at the tick where its step starts.
pub open spec fn abs_of_steps(s: Seq<PatternStep>) -> Seq<PatternAbs> {
    Seq::new(s.len(), |i: int| PatternAbs { event: s[i].event, time: start_time(s, i) as u16 })
}

/// `s` with each delay replaced by the tick where its step starts.
pub open spec fn steps_made_abs(s: Seq<PatternStep>) -> Seq<PatternStep> {
    Seq::new(
        s.len(),
        |i: int| PatternStep { event: s[i].event, delay: start_time(s, i) as u16, next: s[i].next },
    )
}

/// Adding the delay of step `i` moves from its start to the next one.
pub proof fn lemma_start_time_next(s: Seq<PatternStep>, i: int)
    requires
        0 <= i < s.len(),
    ensures
        start_time(s, i + 1) == start_time(s, i) + s[i].delay,
{
    assert(s.take(i + 1).drop_last() =~= s.take(i));
}

/// No step starts after the end of the pattern.
pub proof fn lemma_start_time_bounded(s: Seq<PatternStep>, i: int)
    requires
        0 <= i <= s.len(),
    ensures
        start_time(s, i) <= delay_sum(s),
    decreases s.len() - i,
{
    if i < s.len() {
        lemma_start_time_next(s, i);
        lemma_start_time_bounded(s, i + 1);
    } else {
        assert(s.take(i) =~= s);
    }
}

/// `position + offset` wrapped onto the circular axis `[0, len)`.
pub open spec fn wrapped_time(position: int, offset: int, len: int) -> int {
    (position + offset) % len
}

/// `s` with every tick moved by `offset` on a circular axis of `len` ticks.
pub open spec fn shifted(s: Seq<PatternAbs>, offset: int, len: int) -> Seq<PatternAbs> {
    s.map_values(
        |a: PatternAbs| PatternAbs { event: a.event, time: wrapped_time(a.time as int, offset, len) as u16 },
    )
}

/// The absolute form of `s`, rotated by `offset` on the pattern's own axis.
pub open spec fn adjusted(s: Seq<PatternStep>, offset: int) -> Seq<PatternAbs> {
    shifted(abs_of_steps(s), offset, delay_sum(s) as int)
}

} // verus!
