use live_annotate::event::Event;
use live_annotate::state::{Annotation, InputMode, PipelineState};

fn ready_text(a: &Annotation) -> Option<&str> {
    match a {
        Annotation::Pending => None,
        Annotation::Ready(t) => Some(t.as_str()),
    }
}

fn unit_texts(st: &PipelineState) -> Vec<&str> {
    st.units.iter().map(|u| u.text.as_str()).collect()
}

#[test]
fn initial_state_is_listening_and_empty() {
    let st = PipelineState::new();
    assert!(st.listening);
    assert!(!st.should_quit);
    assert_eq!(st.mode, InputMode::Listening);
    assert_eq!(st.units.len(), 0);
    assert_eq!(st.annotations.len(), 0);
    assert_eq!(st.next_seq, 0);
    assert_eq!(st.live_text, "");
    assert_eq!(st.total_samples, 0);
    assert_eq!(st.raw_samples, 0);
}

#[test]
fn unit_finalized_appends_unit_with_pending_annotation() {
    let mut st = PipelineState::new();
    let assigned = st.apply_event(Event::UnitFinalized("こんにちは".to_string()));
    assert_eq!(assigned, Some(0));
    assert_eq!(unit_texts(&st), vec!["こんにちは"]);
    assert_eq!(st.units[0].seq, 0);
    assert_eq!(st.annotations.len(), 1);
    assert!(matches!(st.annotations[0], Annotation::Pending));
    assert_eq!(st.live_text, "");
}

#[test]
fn sequence_ids_increase_with_finalization_order() {
    let mut st = PipelineState::new();
    assert_eq!(st.apply_event(Event::UnitFinalized("first".to_string())), Some(0));
    assert_eq!(st.apply_event(Event::UnitFinalized("second".to_string())), Some(1));
    assert_eq!(st.apply_event(Event::UnitFinalized("third".to_string())), Some(2));
    // Newest-first display, ids strictly decreasing front to back.
    assert_eq!(unit_texts(&st), vec!["third", "second", "first"]);
    assert_eq!(st.units[0].seq, 2);
    assert_eq!(st.units[1].seq, 1);
    assert_eq!(st.units[2].seq, 0);
    assert_eq!(st.next_seq, 3);
}

#[test]
fn unit_finalized_clears_live_text() {
    let mut st = PipelineState::new();
    st.apply_event(Event::LiveUpdate("こんに".to_string()));
    assert_eq!(st.live_text, "こんに");
    st.apply_event(Event::UnitFinalized("こんにちは".to_string()));
    assert_eq!(st.live_text, "");
}

#[test]
fn annotation_ready_by_id_fills_its_own_slot() {
    let mut st = PipelineState::new();
    let seq = st
        .apply_event(Event::UnitFinalized("こんにちは".to_string()))
        .unwrap();
    st.apply_event(Event::AnnotationReady(Some(seq), "Hello".to_string()));
    assert_eq!(st.annotations.len(), 1);
    assert_eq!(ready_text(&st.annotations[0]), Some("Hello"));
}

#[test]
fn late_annotation_resolves_to_its_unit_by_id() {
    // Scenario: C1's annotation resolves to "Hello" only after C2's
    // unit-finalized already landed. The carried sequence id routes the
    // result to C1's slot; C2's slot stays pending.
    let mut st = PipelineState::new();
    let seq_c1 = st.apply_event(Event::UnitFinalized("c1".to_string())).unwrap();
    st.apply_event(Event::UnitFinalized("c2".to_string()));
    st.apply_event(Event::AnnotationReady(Some(seq_c1), "Hello".to_string()));
    // Newest-first: index 0 is C2 (pending), index 1 is C1 (ready).
    assert_eq!(unit_texts(&st), vec!["c2", "c1"]);
    assert!(matches!(st.annotations[0], Annotation::Pending));
    assert_eq!(ready_text(&st.annotations[1]), Some("Hello"));
}

#[test]
fn out_of_order_results_both_attributed_by_id() {
    // Units A then B finalize; B's result arrives before A's. With id
    // correlation both land on their own units regardless of arrival order.
    let mut st = PipelineState::new();
    let seq_a = st.apply_event(Event::UnitFinalized("a".to_string())).unwrap();
    let seq_b = st.apply_event(Event::UnitFinalized("b".to_string())).unwrap();
    st.apply_event(Event::AnnotationReady(Some(seq_b), "result-b".to_string()));
    st.apply_event(Event::AnnotationReady(Some(seq_a), "result-a".to_string()));
    assert_eq!(unit_texts(&st), vec!["b", "a"]);
    assert_eq!(ready_text(&st.annotations[0]), Some("result-b"));
    assert_eq!(ready_text(&st.annotations[1]), Some("result-a"));
}

#[test]
fn duplicate_annotation_ready_by_id_is_a_no_op() {
    let mut st = PipelineState::new();
    let seq = st.apply_event(Event::UnitFinalized("c1".to_string())).unwrap();
    st.apply_event(Event::UnitFinalized("c2".to_string()));
    st.apply_event(Event::AnnotationReady(Some(seq), "Hello".to_string()));
    // The duplicate must not spill into C2's pending slot.
    st.apply_event(Event::AnnotationReady(Some(seq), "Hello".to_string()));
    assert_eq!(st.annotations.len(), 2);
    assert!(matches!(st.annotations[0], Annotation::Pending));
    assert_eq!(ready_text(&st.annotations[1]), Some("Hello"));
}

#[test]
fn unattributed_result_fills_first_pending_slot() {
    // Without a reliable id the slot-seeking tie-break applies: the first
    // pending slot in presentation order takes the result.
    let mut st = PipelineState::new();
    st.apply_event(Event::UnitFinalized("c1".to_string()));
    st.apply_event(Event::UnitFinalized("c2".to_string()));
    st.apply_event(Event::AnnotationReady(None, "World".to_string()));
    st.apply_event(Event::AnnotationReady(None, "Hello".to_string()));
    assert_eq!(ready_text(&st.annotations[0]), Some("World"));
    assert_eq!(ready_text(&st.annotations[1]), Some("Hello"));
}

#[test]
fn unknown_id_falls_back_to_tie_break() {
    let mut st = PipelineState::new();
    st.apply_event(Event::UnitFinalized("c1".to_string()));
    st.apply_event(Event::AnnotationReady(Some(999), "Hello".to_string()));
    assert_eq!(ready_text(&st.annotations[0]), Some("Hello"));
}

#[test]
fn duplicate_unattributed_result_does_not_grow_history() {
    let mut st = PipelineState::new();
    st.apply_event(Event::UnitFinalized("c1".to_string()));
    st.apply_event(Event::AnnotationReady(None, "Hello".to_string()));
    let units_before = st.units.clone();
    st.apply_event(Event::AnnotationReady(None, "Hello".to_string()));
    assert_eq!(st.units, units_before);
    assert_eq!(st.annotations.len(), 1);
    assert_eq!(ready_text(&st.annotations[0]), Some("Hello"));
}

#[test]
fn annotation_without_any_unit_is_dropped() {
    let mut st = PipelineState::new();
    st.apply_event(Event::AnnotationReady(None, "orphan".to_string()));
    assert_eq!(st.units.len(), 0);
    assert_eq!(st.annotations.len(), 0);
}

#[test]
fn placeholder_pending_backfills_missing_slot() {
    let mut st = PipelineState::new();
    st.apply_event(Event::UnitFinalized("u".to_string()));
    // Simulate a lost slot, then the defensive placeholder event restores it.
    st.annotations.clear();
    st.apply_event(Event::PlaceholderPending);
    assert_eq!(st.annotations.len(), 1);
    assert!(matches!(st.annotations[0], Annotation::Pending));
    // When every unit already has a slot the event changes nothing.
    st.apply_event(Event::PlaceholderPending);
    assert_eq!(st.annotations.len(), 1);
}

#[test]
fn repair_trims_excess_annotations() {
    let mut st = PipelineState::new();
    st.apply_event(Event::UnitFinalized("u".to_string()));
    // Simulate corrupted extra slots beyond the unit count.
    st.annotations.push(Annotation::Ready("extra1".to_string()));
    st.annotations.push(Annotation::Ready("extra2".to_string()));
    st.apply_event(Event::AnnotationReady(None, "r".to_string()));
    // The result fills the first pending slot and the excess tail is trimmed
    // back to the unit count.
    assert_eq!(st.annotations.len(), st.units.len());
    assert_eq!(ready_text(&st.annotations[0]), Some("r"));
}

#[test]
fn repair_backfills_missing_pending_slots() {
    let mut st = PipelineState::new();
    st.apply_event(Event::UnitFinalized("u1".to_string()));
    st.apply_event(Event::UnitFinalized("u2".to_string()));
    // Simulate lost slots; the next annotation-ready repairs the alignment.
    st.annotations.clear();
    st.apply_event(Event::AnnotationReady(None, "r".to_string()));
    assert_eq!(st.annotations.len(), 2);
    // With no pending slot and room available, the result is inserted at the
    // front and a pending placeholder is backfilled before it.
    assert!(matches!(st.annotations[0], Annotation::Pending));
    assert_eq!(ready_text(&st.annotations[1]), Some("r"));
}

#[test]
fn status_and_error_events_update_status_line() {
    let mut st = PipelineState::new();
    st.apply_event(Event::StatusUpdate("Listening...".to_string()));
    assert_eq!(st.status, "Listening...");
    st.apply_event(Event::Error("engine failed".to_string()));
    assert_eq!(st.status, "ERROR: engine failed");
}

#[test]
fn counters_accumulate_and_reset() {
    let mut st = PipelineState::new();
    st.apply_event(Event::RawSamplesDetected(100));
    st.apply_event(Event::RawSamplesDetected(50));
    assert_eq!(st.raw_samples, 150);
    st.apply_event(Event::SamplesProcessed(4000));
    assert_eq!(st.total_samples, 4000);
    assert_eq!(st.raw_samples, 0);
    st.apply_event(Event::SamplesProcessed(usize::MAX));
    assert_eq!(st.total_samples, usize::MAX);
}

#[test]
fn history_invariant_holds_through_arbitrary_event_mix() {
    let mut st = PipelineState::new();
    let events = vec![
        Event::UnitFinalized("u1".to_string()),
        Event::AnnotationReady(Some(0), "r1".to_string()),
        Event::UnitFinalized("u2".to_string()),
        Event::UnitFinalized("u3".to_string()),
        Event::AnnotationReady(Some(2), "r3".to_string()),
        Event::PlaceholderPending,
        Event::AnnotationReady(None, "r2".to_string()),
        Event::AnnotationReady(Some(7), "extra".to_string()),
        Event::LiveUpdate("live".to_string()),
        Event::SamplesProcessed(10),
    ];
    for e in events {
        st.apply_event(e);
        assert!(st.annotations.len() <= st.units.len());
        assert_eq!(st.annotations.len(), st.units.len());
        // Ids stay strictly decreasing newest-first.
        for w in st.units.windows(2) {
            assert!(w[0].seq > w[1].seq);
        }
    }
}
