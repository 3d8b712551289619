//! Bounded-capacity timing engine for short MIDI step patterns.
//!
//! Patterns are held in fixed-size containers: a sequence of relative
//! steps is turned into absolute tick positions, rotated on the circular
//! tick axis of the pattern, and put back into time order.

pub mod boundary;
pub mod bounded;
pub mod pattern;
pub mod reorder;
pub mod timing;

pub use boundary::{pattern_test, test_synth_tools_rs_add1};
pub use bounded::VecPatternAbs;
pub use pattern::{PatternAbs, PatternError, PatternStep, MAX_PATTERN_SIZE};
pub use reorder::pattern_abs_sort;
pub use timing::{
    pattern_abs_adjust, pattern_abs_from_step, pattern_length, pattern_make_abs, time_offset,
};
