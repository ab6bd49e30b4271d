//! The engine and the hub joined: what the engine emits is published, and
//! nothing else is.

use crate::debounce::{decision, next_state, DebounceEngine, Observation};
use crate::event::{ChangeKind, Existence, FileChangeEvent};
use crate::hub::Hub;
use vstd::prelude::*;

verus! {

/// Carries one observation through the pipeline: the engine decides, and
/// the event it emits, if any, is published on the hub and returned.
///
/// Publishing never waits and never fails: the hub accepts the event
/// whether or not anyone is subscribed.
pub fn relay(engine: &mut DebounceEngine, hub: &mut Hub, observation: &Observation) -> (emitted:
    Option<FileChangeEvent>)
    requires
        old(hub).wf(),
    ensures
        final(hub).wf(),
        match emitted {
            Some(event) => decision(old(engine)@, observation@) == Some(event@),
            None => decision(old(engine)@, observation@) is None,
        },
        final(engine)@ == next_state(old(engine)@, observation@),
        observation.existence == Existence::Absent ==> (emitted matches Some(event) ==> event@.kind
            == ChangeKind::Removed),
        final(hub)@.channel == old(hub)@.channel,
        final(hub)@.retained == old(hub)@.retained,
        final(hub)@.sent == match emitted {
            Some(event) => old(hub)@.sent.push(event@),
            None => old(hub)@.sent,
        },
{
    match engine.process(observation) {
        Some(event) => {
            let copy = FileChangeEvent::new(event.kind(), event.filename().to_owned());
            let _: usize = hub.publish(copy);
            Some(event)
        },
        None => None,
    }
}

} // verus!
