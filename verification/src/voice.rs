//! Whether Discord is in a voice channel, and where its sound can be recorded from, on any
//! platform.

use vstd::prelude::*;

use crate::pw;

verus! {

/// The voice state of Discord.
#[derive(Debug, Clone, Copy, PartialEq, Eq, Structural)]
pub struct Snapshot {
    pub in_voice: bool,
    /// What to record the other participants from: the serial of a `PipeWire` node (Linux), or
    /// the number of a process (Windows).
    pub audio_target: Option<u64>,
}

impl Default for Snapshot {
    fn default() -> (r: Self)
        ensures
            r == (Snapshot { in_voice: false, audio_target: None }),
    {
        Snapshot { in_voice: false, audio_target: None }
    }
}

impl Snapshot {
    /// The voice state that the `PipeWire` graph shows.
    pub fn of_graph(graph: pw::Snapshot) -> (r: Self)
        ensures
            r == (Snapshot {
                in_voice: graph.in_voice,
                audio_target: graph.discord_out_serial,
            }),
    {
        Snapshot { in_voice: graph.in_voice, audio_target: graph.discord_out_serial }
    }
}

} // verus!
