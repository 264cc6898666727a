//! What the progress display shows. The library keeps the numbers; drawing
//! them is the caller's part.

use vstd::prelude::*;

verus! {

/// The state of the progress display.
#[derive(Debug, Clone, PartialEq, Eq)]
pub struct Progress {
    /// What the display counts up to.
    pub length: u64,
    /// How far it has counted.
    pub position: u64,
    /// The text beside the bar.
    pub message: String,
    pub finished: bool,
}

impl Progress {
    /// A display that has counted nothing and counts up to nothing.
    pub fn new() -> (r: Self)
        ensures
            r.length == 0,
            r.position == 0,
            r.message@.len() == 0,
            !r.finished,
    {
        Progress { length: 0, position: 0, message: String::new(), finished: false }
    }
}

/// The position after one more step; the count starts over where it
/// cannot go on.
pub open spec fn stepped(position: u64) -> u64 {
    if position == u64::MAX {
        0
    } else {
        (position + 1) as u64
    }
}

/// Sets what the display counts up to.
pub fn set_total(progress: &mut Progress, total: u64)
    ensures
        final(progress).length == total,
        final(progress).position == old(progress).position,
        final(progress).message == old(progress).message,
        final(progress).finished == old(progress).finished,
{
    progress.length = total;
}

/// Counts one step.
pub fn inc_progress(progress: &mut Progress)
    ensures
        final(progress).position == stepped(old(progress).position),
        final(progress).length == old(progress).length,
        final(progress).message == old(progress).message,
        final(progress).finished == old(progress).finished,
{
    progress.position = if progress.position == u64::MAX {
        0
    } else {
        progress.position + 1
    };
}

/// Notes a detail that only a verbose display shows: the display itself
/// stays as it is.
pub fn log_verbose(progress: &mut Progress, text: &str)
    ensures
        *final(progress) == *old(progress),
{
}

/// Reports a step that was done: its text goes beside the bar and the
/// count goes up by one.
pub fn log_progress(progress: &mut Progress, text: &str)
    ensures
        final(progress).message@ == text@,
        final(progress).position == stepped(old(progress).position),
        final(progress).length == old(progress).length,
        final(progress).finished == old(progress).finished,
{
    progress.message = String::from_str(text);
    inc_progress(progress);
    log_verbose(progress, text);
}

/// Ends the display with its closing text.
pub fn finish_progress(progress: &mut Progress)
    ensures
        final(progress).finished,
        final(progress).message@ == "\u{2728} Done!"@,
        final(progress).position == old(progress).position,
        final(progress).length == old(progress).length,
{
    progress.message = String::from_str("\u{2728} Done!");
    progress.finished = true;
}

} // verus!
