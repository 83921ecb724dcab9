use vstd::prelude::*;

verus! {

/// The state of one monitored source.
#[derive(Clone, Copy, Debug, PartialEq, Eq, Structural)]
pub enum StreamStatus {
    /// Not live, not being recorded.
    Idle,
    /// Live, and a recording task is active.
    Downloading,
    /// Recording finished, awaiting the hand-off decision.
    Pending,
    /// The output has been handed to the upload pipeline.
    Uploading,
}

} // verus!

verus! {

/// The status a source moves to after one polling tick, given whether the
/// probe found it live: only an idle source that is live moves, to `Downloading`.
pub open spec fn next_status(status: StreamStatus, live: bool) -> StreamStatus {
    if live && status == StreamStatus::Idle {
        StreamStatus::Downloading
    } else {
        status
    }
}

/// Whether a tick starts a recording: exactly when an idle source is found live.
pub open spec fn starts_recording(status: StreamStatus, live: bool) -> bool {
    live && status == StreamStatus::Idle
}

/// One tick of the monitor for one source: the next status, and whether a
/// recording task is to be spawned.
pub fn monitor_step(status: StreamStatus, live: bool) -> (r: (StreamStatus, bool))
    ensures
        r.0 == next_status(status, live),
        r.1 == starts_recording(status, live),
{
    match status {
        StreamStatus::Idle => {
            if live {
                (StreamStatus::Downloading, true)
            } else {
                (StreamStatus::Idle, false)
            }
        },
        StreamStatus::Downloading => (StreamStatus::Downloading, false),
        StreamStatus::Pending => (StreamStatus::Pending, false),
        StreamStatus::Uploading => (StreamStatus::Uploading, false),
    }
}

/// A tick changes a status only from `Idle` to `Downloading`; in particular
/// no tick ever brings a source back to `Idle`.
pub proof fn lemma_status_only_advances(status: StreamStatus, live: bool)
    ensures
        next_status(status, live) == status || (status == StreamStatus::Idle && next_status(
            status,
            live,
        ) == StreamStatus::Downloading),
        next_status(status, live) == StreamStatus::Idle ==> status == StreamStatus::Idle,
        starts_recording(status, live) <==> next_status(status, live) != status,
{
}

} // verus!
