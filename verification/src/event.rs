//! The vocabulary of the pipeline: raw kinds, semantic kinds and events.

use vstd::prelude::*;

verus! {

/// What the operating system said happened to a path.
#[derive(Clone, Copy, Debug, PartialEq, Eq, Structural)]
pub enum RawKind {
    Create,
    Modify,
    Remove,
    /// Anything else (access, metadata-only, unknown): never acted upon.
    Other,
}

/// What a look at the disk said about a file at decision time.
#[derive(Clone, Copy, Debug, PartialEq, Eq, Structural)]
pub enum Existence {
    /// The file is there.
    Present,
    /// The file is not there.
    Absent,
    /// The look itself failed, so nothing is known.
    Unknown,
}

/// What is reported to observers about a file.
#[derive(Clone, Copy, Debug, PartialEq, Eq, Structural)]
pub enum ChangeKind {
    Added,
    Modified,
    Removed,
}

/// A semantic event about one file, identified by its name alone.
#[derive(Clone, Debug, PartialEq, Eq)]
pub enum FileChangeEvent {
    Added { filename: String },
    Modified { filename: String },
    Removed { filename: String },
}

/// The mathematical content of a [`FileChangeEvent`].
pub struct EventView {
    pub kind: ChangeKind,
    pub filename: Seq<char>,
}

impl View for FileChangeEvent {
    type V = EventView;

    open spec fn view(&self) -> EventView {
        match self {
            FileChangeEvent::Added { filename } => EventView {
                kind: ChangeKind::Added,
                filename: filename@,
            },
            FileChangeEvent::Modified { filename } => EventView {
                kind: ChangeKind::Modified,
                filename: filename@,
            },
            FileChangeEvent::Removed { filename } => EventView {
                kind: ChangeKind::Removed,
                filename: filename@,
            },
        }
    }
}

impl FileChangeEvent {
    /// Builds the event of the given kind about `filename`.
    pub fn new(kind: ChangeKind, filename: String) -> (event: FileChangeEvent)
        ensures
            event@ == (EventView { kind, filename: filename@ }),
    {
        match kind {
            ChangeKind::Added => FileChangeEvent::Added { filename },
            ChangeKind::Modified => FileChangeEvent::Modified { filename },
            ChangeKind::Removed => FileChangeEvent::Removed { filename },
        }
    }

    /// Which of the three kinds this event is.
    pub fn kind(&self) -> (kind: ChangeKind)
        ensures
            kind == self@.kind,
    {
        match self {
            FileChangeEvent::Added { .. } => ChangeKind::Added,
            FileChangeEvent::Modified { .. } => ChangeKind::Modified,
            FileChangeEvent::Removed { .. } => ChangeKind::Removed,
        }
    }

    /// The name of the file the event is about.
    pub fn filename(&self) -> (name: &str)
        ensures
            name@ == self@.filename,
    {
        match self {
            FileChangeEvent::Added { filename } => filename.as_str(),
            FileChangeEvent::Modified { filename } => filename.as_str(),
            FileChangeEvent::Removed { filename } => filename.as_str(),
        }
    }
}

} // verus!
