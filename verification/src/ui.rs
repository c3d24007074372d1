//! The display adapter's vocabulary and its one decision. The window
//! itself is drawn outside this crate; what belongs here is the mapping
//! from a polled key code to the signal the processing loop acts on.

use vstd::prelude::*;

verus! {

/// What the processing loop should do after an event poll.
#[derive(Copy, Clone, Debug, PartialEq, Eq, Structural)]
pub enum WindowSignals {
    CLoseApplication,
    KeepProcessing,
}

/// The signal a polled key code stands for: key code 113 (the letter `q`)
/// closes the application, everything else keeps the loop running.
pub fn signal_for_key(key: i32) -> (r: WindowSignals)
    ensures
        key == 113 ==> r == WindowSignals::CLoseApplication,
        key != 113 ==> r == WindowSignals::KeepProcessing,
{
    match key {
        113 => WindowSignals::CLoseApplication,
        _ => WindowSignals::KeepProcessing,
    }
}

} // verus!
