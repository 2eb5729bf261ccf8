//! The log line's look: one terminal color per level.  Writing to the
//! global logger itself stays outside the library.
use vstd::prelude::*;

verus! {

/// The terminal color codes by level, most severe first.
pub open spec fn spec_log_colors() -> Seq<u32> {
    seq![91u32, 31u32, 33u32, 36u32, 90u32]
}

/// The color table the log formatter indexes by level.
pub fn log_colors() -> (v: Vec<u32>)
    ensures
        v@ == spec_log_colors(),
{
    let mut v: Vec<u32> = Vec::new();
    v.push(91);
    v.push(31);
    v.push(33);
    v.push(36);
    v.push(90);
    proof {
        assert(v@ =~= spec_log_colors());
    }
    v
}

/// The color for a log level between one (errors) and five (trace).
pub fn level_color(level: usize) -> (c: u32)
    requires
        1 <= level <= 5,
    ensures
        c == spec_log_colors()[level - 1],
{
    let colors = log_colors();
    colors[level - 1]
}

} // verus!
