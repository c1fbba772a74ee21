//! Events carried by the bounded multi-producer single-consumer bus from the
//! capture loop, the transcription driver, the annotation dispatcher and the
//! control plane to the reconciler.

use vstd::prelude::*;

verus! {

/// One event on the bus. Text payloads are the cumulative live text, a
/// finalized unit's source text, an annotation result, or a status line.
pub enum Event {
    /// Cumulative transcription text of the unit currently in flight.
    LiveUpdate(String),
    /// A unit's partial stream ended with non-trivial text: append it to the
    /// history.
    UnitFinalized(String),
    /// A pending annotation slot is owed to the most recent unit that lacks
    /// one.
    PlaceholderPending,
    /// One annotation task completed with this result; the first field is the
    /// owning unit's sequence id where the dispatcher could supply one.
    AnnotationReady(Option<u64>, String),
    /// Samples consumed by a finished chunk; also closes the per-unit raw
    /// counter.
    SamplesProcessed(usize),
    /// Raw samples observed while a chunk is still being captured.
    RawSamplesDetected(usize),
    /// A status line for display.
    StatusUpdate(String),
    /// A degraded-mode failure report; it becomes a status line, never a
    /// crash.
    Error(String),
}

/// The mathematical value of an event: text payloads as character sequences.
pub enum EventModel {
    LiveUpdate(Seq<char>),
    UnitFinalized(Seq<char>),
    PlaceholderPending,
    AnnotationReady(Option<u64>, Seq<char>),
    SamplesProcessed(usize),
    RawSamplesDetected(usize),
    StatusUpdate(Seq<char>),
    Error(Seq<char>),
}

impl View for Event {
    type V = EventModel;

    open spec fn view(&self) -> EventModel {
        match self {
            Event::LiveUpdate(t) => EventModel::LiveUpdate(t@),
            Event::UnitFinalized(t) => EventModel::UnitFinalized(t@),
            Event::PlaceholderPending => EventModel::PlaceholderPending,
            Event::AnnotationReady(sid, t) => EventModel::AnnotationReady(*sid, t@),
            Event::SamplesProcessed(n) => EventModel::SamplesProcessed(*n),
            Event::RawSamplesDetected(n) => EventModel::RawSamplesDetected(*n),
            Event::StatusUpdate(t) => EventModel::StatusUpdate(t@),
            Event::Error(t) => EventModel::Error(t@),
        }
    }
}

/// Whether dropping the event on a full bus would lose pipeline state rather
/// than observability data. Producers must apply bounded blocking
/// backpressure to these and may drop the rest.
pub open spec fn spec_must_not_drop(e: EventModel) -> bool {
    match e {
        EventModel::UnitFinalized(_) => true,
        EventModel::PlaceholderPending => true,
        EventModel::AnnotationReady(_, _) => true,
        EventModel::LiveUpdate(_) => false,
        EventModel::SamplesProcessed(_) => false,
        EventModel::RawSamplesDetected(_) => false,
        EventModel::StatusUpdate(_) => false,
        EventModel::Error(_) => false,
    }
}

/// Classifies an event for the producers' send policy.
pub fn must_not_drop(e: &Event) -> (r: bool)
    ensures
        r == spec_must_not_drop(e@),
{
    match e {
        Event::UnitFinalized(_) => true,
        Event::PlaceholderPending => true,
        Event::AnnotationReady(_, _) => true,
        _ => false,
    }
}

} // verus!
