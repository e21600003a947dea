//! What a file watcher reports, and what a watch loop does next.

use vstd::prelude::*;

verus! {

/// What happened to the files that a change names.
#[derive(Debug, Clone, Copy, PartialEq, Eq, Structural)]
pub enum ChangeKind {
    /// The contents of a file were modified.
    DataModified,
    /// A file was modified in another way: its name, its metadata.
    OtherModified,
    /// Anything else: a file was created, removed or read.
    Other,
}

/// One message from a file watcher.
#[derive(Debug, Clone, PartialEq, Eq)]
pub enum WatchEvent {
    /// Files changed.
    Changed {
        /// What happened.
        kind: ChangeKind,
        /// The files it happened to.
        paths: Vec<String>,
    },
    /// The watcher reports an error of its own.
    Failed {
        /// The watcher's words.
        cause: String,
    },
    /// The watcher is gone: no further message will come.
    Closed,
}

/// Whether a watch loop goes on after a message.
#[derive(Debug, Clone, Copy, PartialEq, Eq, Structural)]
pub enum WatchStep {
    /// Wait for the next message.
    Continue,
    /// Leave the loop.
    Stop,
}

/// Whether `kind` is a modification of any sort.
pub open spec fn is_modification(kind: ChangeKind) -> bool {
    kind == ChangeKind::DataModified || kind == ChangeKind::OtherModified
}

/// The step after `event`: a watch loop ends when the watcher is gone, and
/// for no other reason.
pub open spec fn step_after(event: WatchEvent) -> WatchStep {
    if event is Closed {
        WatchStep::Stop
    } else {
        WatchStep::Continue
    }
}

} // verus!
