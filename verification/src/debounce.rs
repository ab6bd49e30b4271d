//! The debounce and reclassification engine.
//!
//! Each raw notification is filtered by filename suffix and raw kind,
//! reconciled with whether the file exists at decision time, and then either
//! emitted as a [`FileChangeEvent`] or suppressed as a repetition of what was
//! last emitted for the same file within the debounce window.
//!
//! The engine does no I/O and reads no clock: the caller observes whether the
//! file exists and what time it is, and hands both over with the
//! notification.

use crate::event::{ChangeKind, EventView, Existence, FileChangeEvent, RawKind};
use vstd::hash_map::StringHashMap;
use vstd::prelude::*;
use vstd::string::StrSliceExecFns;

verus! {

/// Length of the debounce window, in nanoseconds (100 ms).
pub const DEBOUNCE_WINDOW_NANOS: u64 = 100_000_000;

/// The suffix tracked where none is configured: Wavefront mesh files.
pub const DEFAULT_SUFFIX: &'static str = ".obj";

/// What was last emitted for one filename, and when.
#[derive(Clone, Copy, Debug, PartialEq, Eq, Structural)]
pub struct DebounceRecord {
    pub kind: ChangeKind,
    /// Time of the emission, in nanoseconds on the caller's monotonic clock.
    pub at: u64,
}

/// A raw notification: the final component of the affected path, if it could
/// be determined, and the raw kind.
#[derive(Clone, Debug, PartialEq, Eq)]
pub struct RawNotification {
    pub filename: Option<String>,
    pub kind: RawKind,
}

/// A raw notification together with what the caller observed when it
/// arrived.
#[derive(Clone, Debug, PartialEq, Eq)]
pub struct Observation {
    pub notification: RawNotification,
    /// Whether the file exists on disk at decision time.
    pub existence: Existence,
    /// The time of the decision, in nanoseconds on a monotonic clock.
    pub at: u64,
}

/// The mathematical content of an [`Observation`].
pub struct ObservationView {
    pub filename: Option<Seq<char>>,
    pub kind: RawKind,
    pub existence: Existence,
    pub at: u64,
}

impl View for Observation {
    type V = ObservationView;

    open spec fn view(&self) -> ObservationView {
        ObservationView {
            filename: match self.notification.filename {
                Some(name) => Some(name@),
                None => None,
            },
            kind: self.notification.kind,
            existence: self.existence,
            at: self.at,
        }
    }
}

/// The mathematical content of a [`DebounceEngine`].
pub struct EngineView {
    /// The tracked suffix.
    pub suffix: Seq<char>,
    /// One record per filename that has ever produced an event.
    pub records: Map<Seq<char>, DebounceRecord>,
}

/// `suffix` is what `name` ends with, character for character.
pub open spec fn is_suffix(name: Seq<char>, suffix: Seq<char>) -> bool {
    suffix.len() <= name.len() && name.subrange(name.len() - suffix.len(), name.len() as int)
        == suffix
}

/// The kind a notification stands for once the disk has been consulted.
///
/// `Other` stands for nothing, and so does any notification while it is
/// unknown whether the file exists. A file that does not exist is removed,
/// whatever was reported. A file that exists is what the notification says,
/// a reported removal included.
pub open spec fn effective_kind(kind: RawKind, existence: Existence) -> Option<ChangeKind> {
    match (kind, existence) {
        (RawKind::Other, _) => None,
        (_, Existence::Unknown) => None,
        (_, Existence::Absent) => Some(ChangeKind::Removed),
        (RawKind::Create, Existence::Present) => Some(ChangeKind::Added),
        (RawKind::Modify, Existence::Present) => Some(ChangeKind::Modified),
        (RawKind::Remove, Existence::Present) => Some(ChangeKind::Removed),
    }
}

/// Whether an effective kind observed at `now` is news, given what was last
/// emitted for the same filename: there is no record, or the kind differs,
/// or more than the window has passed since the record's time.
pub open spec fn is_news(previous: Option<DebounceRecord>, kind: ChangeKind, now: u64) -> bool {
    match previous {
        None => true,
        Some(record) => record.kind != kind || now - record.at > DEBOUNCE_WINDOW_NANOS,
    }
}

/// The record kept for `name`, if any.
pub open spec fn record_of(records: Map<Seq<char>, DebounceRecord>, name: Seq<char>) -> Option<
    DebounceRecord,
> {
    if records.contains_key(name) {
        Some(records[name])
    } else {
        None
    }
}

/// The event that an observation gives rise to in a given state, if any.
pub open spec fn decision(state: EngineView, o: ObservationView) -> Option<EventView> {
    match o.filename {
        None => None,
        Some(name) => if !is_suffix(name, state.suffix) {
            None
        } else {
            match effective_kind(o.kind, o.existence) {
                None => None,
                Some(kind) => if is_news(record_of(state.records, name), kind, o.at) {
                    Some(EventView { kind, filename: name })
                } else {
                    None
                },
            }
        },
    }
}

/// The state after an observation: on emission the file's record is set to
/// the emitted kind and the time of the observation; otherwise nothing
/// changes.
pub open spec fn next_state(state: EngineView, o: ObservationView) -> EngineView {
    match decision(state, o) {
        None => state,
        Some(event) => EngineView {
            suffix: state.suffix,
            records: state.records.insert(
                event.filename,
                DebounceRecord { kind: event.kind, at: o.at },
            ),
        },
    }
}

/// The views of a sequence of observations.
pub open spec fn observation_views(batch: Seq<Observation>) -> Seq<ObservationView> {
    batch.map_values(|o: Observation| o@)
}

/// The views of a sequence of events.
pub open spec fn event_views(events: Seq<FileChangeEvent>) -> Seq<EventView> {
    events.map_values(|e: FileChangeEvent| e@)
}

/// The state after a sequence of observations, taken in order.
pub open spec fn state_after(state: EngineView, batch: Seq<ObservationView>) -> EngineView
    decreases batch.len(),
{
    if batch.len() == 0 {
        state
    } else {
        next_state(state_after(state, batch.drop_last()), batch.last())
    }
}

/// The events emitted over a sequence of observations, in order.
pub open spec fn emitted_over(state: EngineView, batch: Seq<ObservationView>) -> Seq<EventView>
    decreases batch.len(),
{
    if batch.len() == 0 {
        Seq::empty()
    } else {
        let before = emitted_over(state, batch.drop_last());
        match decision(state_after(state, batch.drop_last()), batch.last()) {
            None => before,
            Some(event) => before.push(event),
        }
    }
}

/// Whether `name` ends with `suffix`, compared character by character and
/// case-sensitively.
pub fn has_suffix(name: &str, suffix: &str) -> (matches: bool)
    ensures
        matches == is_suffix(name@, suffix@),
{
    let n: usize = name.unicode_len();
    let m: usize = suffix.unicode_len();
    if m > n {
        return false;
    }
    let offset: usize = n - m;
    let mut i: usize = 0;
    while i < m
        invariant
            i <= m,
            m <= n,
            offset == n - m,
            n == name@.len(),
            m == suffix@.len(),
            forall|j: int| 0 <= j < i ==> name@[offset + j] == suffix@[j],
        decreases m - i,
    {
        if name.get_char(offset + i) != suffix.get_char(i) {
            assert(name@.subrange(n - m, n as int)[i as int] == name@[offset + i]);
            return false;
        }
        i += 1;
    }
    assert(name@.subrange(n - m, n as int) =~= suffix@);
    true
}

/// Reconciles a raw kind with whether the file exists at decision time.
pub fn reconcile(kind: RawKind, existence: Existence) -> (effective: Option<ChangeKind>)
    ensures
        effective == effective_kind(kind, existence),
{
    match (kind, existence) {
        (RawKind::Other, _) => None,
        (_, Existence::Unknown) => None,
        (_, Existence::Absent) => Some(ChangeKind::Removed),
        (RawKind::Create, Existence::Present) => Some(ChangeKind::Added),
        (RawKind::Modify, Existence::Present) => Some(ChangeKind::Modified),
        (RawKind::Remove, Existence::Present) => Some(ChangeKind::Removed),
    }
}

/// The debounce decision for one effective kind.
pub fn should_emit(previous: Option<DebounceRecord>, kind: ChangeKind, now: u64) -> (emit: bool)
    ensures
        emit == is_news(previous, kind, now),
{
    match previous {
        None => true,
        Some(record) => {
            let same_kind = match (record.kind, kind) {
                (ChangeKind::Added, ChangeKind::Added) => true,
                (ChangeKind::Modified, ChangeKind::Modified) => true,
                (ChangeKind::Removed, ChangeKind::Removed) => true,
                _ => false,
            };
            !same_kind || (now > record.at && now - record.at > DEBOUNCE_WINDOW_NANOS)
        },
    }
}

/// The single owner of all debounce records of one watched directory.
pub struct DebounceEngine {
    suffix: String,
    records: StringHashMap<DebounceRecord>,
}

impl View for DebounceEngine {
    type V = EngineView;

    closed spec fn view(&self) -> EngineView {
        EngineView { suffix: self.suffix@, records: self.records@ }
    }
}

impl DebounceEngine {
    /// An engine that tracks filenames ending in `suffix` and has seen
    /// nothing yet.
    pub fn new(suffix: String) -> (engine: DebounceEngine)
        ensures
            engine@.suffix == suffix@,
            engine@.records == Map::<Seq<char>, DebounceRecord>::empty(),
    {
        DebounceEngine { suffix, records: StringHashMap::new() }
    }

    /// The tracked suffix.
    pub fn suffix(&self) -> (suffix: &str)
        ensures
            suffix@ == self@.suffix,
    {
        self.suffix.as_str()
    }

    /// The record kept for `name`, if the file ever produced an event.
    pub fn record(&self, name: &str) -> (record: Option<DebounceRecord>)
        ensures
            record == record_of(self@.records, name@),
    {
        match self.records.get(name) {
            Some(record) => Some(*record),
            None => None,
        }
    }

    /// Handles one observation: decides whether it gives rise to an event,
    /// and if so records the emission.
    ///
    /// A notification is discarded, with no change of state, when its
    /// filename is unknown or does not end in the tracked suffix, when its
    /// raw kind is `Other`, when the look at the disk failed, or when it
    /// repeats within the debounce window what was last emitted for the
    /// file.
    pub fn process(&mut self, observation: &Observation) -> (emitted: Option<FileChangeEvent>)
        ensures
            match emitted {
                Some(event) => decision(old(self)@, observation@) == Some(event@),
                None => decision(old(self)@, observation@) is None,
            },
            final(self)@ == next_state(old(self)@, observation@),
            final(self)@.suffix == old(self)@.suffix,
            // A file that is gone is never reported as added or modified.
            observation.existence == Existence::Absent ==> (emitted matches Some(event)
                ==> event@.kind == ChangeKind::Removed),
            // A filename outside the tracked suffix leaves no trace.
            (observation@.filename matches Some(name) && !is_suffix(name, old(self)@.suffix))
                ==> emitted is None && final(self)@ == old(self)@,
    {
        let name: &str = match &observation.notification.filename {
            None => {
                return None;
            },
            Some(name) => name.as_str(),
        };
        if !has_suffix(name, self.suffix.as_str()) {
            return None;
        }
        let kind: ChangeKind = match reconcile(observation.notification.kind, observation.existence) {
            None => {
                return None;
            },
            Some(kind) => kind,
        };
        let previous = self.record(name);
        if !should_emit(previous, kind, observation.at) {
            return None;
        }
        self.records.insert(name.to_owned(), DebounceRecord { kind, at: observation.at });
        Some(FileChangeEvent::new(kind, name.to_owned()))
    }

    /// Handles a sequence of observations in order and returns the events
    /// they give rise to, in order of emission.
    pub fn process_all(&mut self, batch: &Vec<Observation>) -> (emitted: Vec<FileChangeEvent>)
        ensures
            event_views(emitted@) == emitted_over(old(self)@, observation_views(batch@)),
            final(self)@ == state_after(old(self)@, observation_views(batch@)),
    {
        let mut emitted: Vec<FileChangeEvent> = Vec::new();
        let ghost start = self@;
        let ghost all = observation_views(batch@);
        let mut i: usize = 0;
        assert(all.take(0) =~= Seq::<ObservationView>::empty());
        assert(event_views(emitted@) =~= Seq::<EventView>::empty());
        while i < batch.len()
            invariant
                i <= batch.len(),
                all == observation_views(batch@),
                all.len() == batch.len(),
                self@ == state_after(start, all.take(i as int)),
                event_views(emitted@) == emitted_over(start, all.take(i as int)),
            decreases batch.len() - i,
        {
            let ghost before = all.take(i as int);
            let ghost upto = all.take(i + 1);
            let ghost sofar = emitted@;
            assert(upto.drop_last() =~= before);
            assert(upto.last() == batch@[i as int]@);
            match self.process(&batch[i]) {
                Some(event) => {
                    emitted.push(event);
                    assert(event_views(emitted@) =~= event_views(sofar).push(event@));
                },
                None => {},
            }
            i += 1;
        }
        assert(all.take(i as int) =~= all);
        emitted
    }
}

/// The suffix an engine tracks never changes.
proof fn lemma_suffix_is_kept(state: EngineView, batch: Seq<ObservationView>)
    ensures
        state_after(state, batch).suffix == state.suffix,
    decreases batch.len(),
{
    if batch.len() > 0 {
        lemma_suffix_is_kept(state, batch.drop_last());
    }
}

/// Induction behind [`lemma_dedup`]: at most one event, and once it has been
/// emitted the file's record holds the common kind and the time of one of
/// the observations.
proof fn lemma_dedup_step(
    state: EngineView,
    batch: Seq<ObservationView>,
    name: Seq<char>,
    kind: ChangeKind,
)
    requires
        forall|i: int| 0 <= i < batch.len() ==> (#[trigger] batch[i]).filename == Some(name),
        forall|i: int|
            0 <= i < batch.len() ==> effective_kind(
                (#[trigger] batch[i]).kind,
                batch[i].existence,
            ) == Some(kind),
        forall|i: int, j: int|
            0 <= i < batch.len() && 0 <= j < batch.len() ==> (#[trigger] batch[j]).at
                - (#[trigger] batch[i]).at <= DEBOUNCE_WINDOW_NANOS,
    ensures
        emitted_over(state, batch).len() <= 1,
        emitted_over(state, batch).len() == 1 ==> exists|m: int|
            0 <= m < batch.len() && record_of(state_after(state, batch).records, name) == Some(
                DebounceRecord { kind, at: (#[trigger] batch[m]).at },
            ),
    decreases batch.len(),
{
    if batch.len() > 0 {
        let front = batch.drop_last();
        let last = batch.last();
        assert forall|i: int| 0 <= i < front.len() implies (#[trigger] front[i]) == batch[i] by {}
        lemma_dedup_step(state, front, name, kind);
        let before = state_after(state, front);
        if emitted_over(state, front).len() == 1 {
            let m = choose|m: int|
                0 <= m < front.len() && record_of(before.records, name) == Some(
                    DebounceRecord { kind, at: (#[trigger] front[m]).at },
                );
            assert(front[m] == batch[m]);
            assert(last == batch[batch.len() - 1]);
            assert(last.at - batch[m].at <= DEBOUNCE_WINDOW_NANOS);
            assert(decision(before, last) is None);
        } else if decision(before, last) is Some {
            assert(last == batch[batch.len() - 1]);
        }
    }
}

/// Deduplication: notifications for one filename that all fall within one
/// debounce window and all stand for the same effective kind give rise to at
/// most one event, whatever the engine had recorded before.
pub proof fn lemma_dedup(state: EngineView, batch: Seq<ObservationView>)
    requires
        forall|i: int|
            0 <= i < batch.len() ==> (#[trigger] batch[i]).filename == batch[0].filename,
        forall|i: int|
            0 <= i < batch.len() ==> effective_kind(
                (#[trigger] batch[i]).kind,
                batch[i].existence,
            ) == effective_kind(batch[0].kind, batch[0].existence),
        forall|i: int, j: int|
            0 <= i < batch.len() && 0 <= j < batch.len() ==> (#[trigger] batch[j]).at
                - (#[trigger] batch[i]).at <= DEBOUNCE_WINDOW_NANOS,
    ensures
        emitted_over(state, batch).len() <= 1,
{
    if batch.len() > 0 {
        match (batch[0].filename, effective_kind(batch[0].kind, batch[0].existence)) {
            (Some(name), Some(kind)) => {
                lemma_dedup_step(state, batch, name, kind);
            },
            _ => {
                lemma_nothing_to_report(state, batch);
            },
        }
    }
}

/// Notifications that each lack a filename, name a file outside the tracked
/// suffix, or stand for no effective kind give rise to no event and leave
/// the engine as it was.
pub proof fn lemma_nothing_to_report(state: EngineView, batch: Seq<ObservationView>)
    requires
        forall|i: int|
            0 <= i < batch.len() ==> {
                ||| (#[trigger] batch[i]).filename is None
                ||| !is_suffix(batch[i].filename->0, state.suffix)
                ||| effective_kind(batch[i].kind, batch[i].existence) is None
            },
    ensures
        emitted_over(state, batch) == Seq::<EventView>::empty(),
        state_after(state, batch) == state,
    decreases batch.len(),
{
    if batch.len() > 0 {
        let front = batch.drop_last();
        assert forall|i: int| 0 <= i < front.len() implies (#[trigger] front[i]) == batch[i] by {}
        lemma_nothing_to_report(state, front);
        assert(batch.last() == batch[batch.len() - 1]);
    }
}

/// The suffix filter: however many notifications arrive for filenames that
/// do not end in the tracked suffix, and whatever their kinds, no event is
/// emitted and no record is made.
pub proof fn lemma_suffix_filter(state: EngineView, batch: Seq<ObservationView>)
    requires
        forall|i: int|
            0 <= i < batch.len() ==> ((#[trigger] batch[i]).filename matches Some(name)
                ==> !is_suffix(name, state.suffix)),
    ensures
        emitted_over(state, batch) == Seq::<EventView>::empty(),
        state_after(state, batch) == state,
{
    lemma_nothing_to_report(state, batch);
}

/// The existence override: a notification for a file that does not exist at
/// decision time gives rise to a `Removed` event or to none, never to
/// `Added` or `Modified`; and it does give rise to `Removed` whenever the
/// file is tracked, the raw kind is not `Other`, and a removal is news.
pub proof fn lemma_existence_override(state: EngineView, o: ObservationView)
    requires
        o.existence == Existence::Absent,
    ensures
        decision(state, o) matches Some(event) ==> event.kind == ChangeKind::Removed,
        match o.filename {
            Some(name) => o.kind != RawKind::Other && is_suffix(name, state.suffix) && is_news(
                record_of(state.records, name),
                ChangeKind::Removed,
                o.at,
            ) ==> decision(state, o) == Some(
                EventView { kind: ChangeKind::Removed, filename: name },
            ),
            None => true,
        },
{
}

/// Records are never expired: a filename that has a record keeps one over
/// any run, however long.
pub proof fn lemma_records_accumulate(
    state: EngineView,
    batch: Seq<ObservationView>,
    name: Seq<char>,
)
    requires
        state.records.contains_key(name),
    ensures
        state_after(state, batch).records.contains_key(name),
    decreases batch.len(),
{
    if batch.len() > 0 {
        lemma_records_accumulate(state, batch.drop_last(), name);
    }
}

/// Every event emitted over a run names a file that ends in the tracked
/// suffix, and so does every record the run adds.
pub proof fn lemma_only_tracked_names(state: EngineView, batch: Seq<ObservationView>)
    requires
        forall|name: Seq<char>| #[trigger]
            state.records.contains_key(name) ==> is_suffix(name, state.suffix),
    ensures
        forall|k: int|
            0 <= k < emitted_over(state, batch).len() ==> is_suffix(
                (#[trigger] emitted_over(state, batch)[k]).filename,
                state.suffix,
            ),
        forall|name: Seq<char>| #[trigger]
            state_after(state, batch).records.contains_key(name) ==> is_suffix(
                name,
                state.suffix,
            ),
    decreases batch.len(),
{
    if batch.len() > 0 {
        lemma_only_tracked_names(state, batch.drop_last());
        lemma_suffix_is_kept(state, batch.drop_last());
    }
}

} // verus!
