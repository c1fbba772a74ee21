use live_annotate::capture::{capture_decision, CaptureAction, PollOutcome};
use live_annotate::driver::{UnitAccumulator, UnitOutcome};
use live_annotate::event::{must_not_drop, Event};
use live_annotate::state::PipelineState;

#[test]
fn confident_fragments_accumulate_cumulatively() {
    // Scenario: transcription of a chunk yields "こんにちは" with a low
    // no-speech likelihood: the live update carries the cumulative text and
    // the unit finalizes with it.
    let mut acc = UnitAccumulator::new();
    let live1 = acc.accept_fragment("こんに", 100);
    assert_eq!(live1.as_deref(), Some("こんに"));
    let live2 = acc.accept_fragment("ちは", 200);
    assert_eq!(live2.as_deref(), Some("こんにちは"));
    match acc.finish() {
        UnitOutcome::Finalized(t) => assert_eq!(t, "こんにちは"),
        UnitOutcome::Discarded => panic!("confident text must finalize"),
    }
}

#[test]
fn low_confidence_fragments_are_rejected() {
    let mut acc = UnitAccumulator::new();
    // At the threshold (no-speech likelihood 0.85) the fragment is rejected.
    assert!(acc.accept_fragment("noise", 850).is_none());
    assert_eq!(acc.text, "");
    // Just below the threshold it is accepted.
    assert!(acc.accept_fragment("speech", 849).is_some());
    assert_eq!(acc.text, "speech");
    // Far above: rejected, text unchanged.
    assert!(acc.accept_fragment("hum", 1000).is_none());
    assert_eq!(acc.text, "speech");
}

#[test]
fn live_updates_never_shrink() {
    let mut acc = UnitAccumulator::new();
    let mut last_len = 0usize;
    let frags: Vec<(&str, u32)> =
        vec![("a", 10), ("bb", 900), ("ccc", 10), ("", 10), ("dd", 849)];
    for (text, pm) in frags {
        if let Some(live) = acc.accept_fragment(text, pm) {
            let len = live.chars().count();
            assert!(len >= last_len);
            last_len = len;
        }
    }
    assert_eq!(acc.text, "acccdd");
}

#[test]
fn whitespace_only_unit_is_discarded() {
    // Scenario: transcription yields only whitespace (including the
    // ideographic space): the unit is discarded, nothing enters history.
    let mut acc = UnitAccumulator::new();
    acc.accept_fragment(" \t\n", 10);
    acc.accept_fragment("\u{3000}\u{00A0}", 10);
    assert!(matches!(acc.finish(), UnitOutcome::Discarded));
}

#[test]
fn discarded_unit_leaves_no_trace_and_clears_live_text() {
    // A whitespace-only chunk: the driver emits live updates while it runs,
    // then discards the unit; the empty-clear live update wipes the stale
    // partial display and history never grows.
    let mut st = PipelineState::new();
    let mut acc = UnitAccumulator::new();
    if let Some(live) = acc.accept_fragment("   ", 10) {
        st.apply_event(Event::LiveUpdate(live));
    }
    assert_eq!(st.live_text, "   ");
    match acc.finish() {
        UnitOutcome::Finalized(_) => panic!("whitespace-only text must be discarded"),
        UnitOutcome::Discarded => {
            st.apply_event(Event::LiveUpdate(String::new()));
        }
    }
    assert_eq!(st.live_text, "");
    assert_eq!(st.units.len(), 0);
    assert_eq!(st.annotations.len(), 0);
}

#[test]
fn empty_unit_is_discarded() {
    let acc = UnitAccumulator::new();
    assert!(matches!(acc.finish(), UnitOutcome::Discarded));
}

#[test]
fn inner_whitespace_still_finalizes() {
    let mut acc = UnitAccumulator::new();
    acc.accept_fragment("  hi  ", 10);
    // The full accumulated text is kept, not the trimmed one.
    match acc.finish() {
        UnitOutcome::Finalized(t) => assert_eq!(t, "  hi  "),
        UnitOutcome::Discarded => panic!("non-whitespace text must finalize"),
    }
}

#[test]
fn paused_capture_requests_nothing() {
    // With the listening flag off the loop pauses for every poll outcome, so
    // no new chunk is requested within one polling interval.
    for poll in [PollOutcome::Chunk, PollOutcome::TimedOut, PollOutcome::Ended] {
        assert_eq!(capture_decision(false, poll), CaptureAction::Pause);
    }
}

#[test]
fn listening_capture_follows_poll_outcome() {
    assert_eq!(
        capture_decision(true, PollOutcome::Chunk),
        CaptureAction::Forward
    );
    assert_eq!(
        capture_decision(true, PollOutcome::TimedOut),
        CaptureAction::Idle
    );
    assert_eq!(
        capture_decision(true, PollOutcome::Ended),
        CaptureAction::Finish
    );
}

#[test]
fn toggling_off_mid_unit_does_not_abort_the_unit() {
    // A chunk already forwarded keeps accumulating and finalizes even though
    // the flag went false in between: the driver never consults the flag.
    let listening = true;
    assert_eq!(
        capture_decision(listening, PollOutcome::Chunk),
        CaptureAction::Forward
    );
    let mut acc = UnitAccumulator::new();
    acc.accept_fragment("hal", 10);
    let listening = false;
    assert_eq!(
        capture_decision(listening, PollOutcome::Chunk),
        CaptureAction::Pause
    );
    acc.accept_fragment("lo", 10);
    match acc.finish() {
        UnitOutcome::Finalized(t) => assert_eq!(t, "hallo"),
        UnitOutcome::Discarded => panic!("in-flight unit must still finalize"),
    }
}

#[test]
fn backpressure_policy_never_drops_pipeline_state() {
    assert!(must_not_drop(&Event::UnitFinalized("u".to_string())));
    assert!(must_not_drop(&Event::PlaceholderPending));
    assert!(must_not_drop(&Event::AnnotationReady(Some(0), "r".to_string())));
    assert!(must_not_drop(&Event::AnnotationReady(None, "r".to_string())));
    assert!(!must_not_drop(&Event::LiveUpdate("l".to_string())));
    assert!(!must_not_drop(&Event::StatusUpdate("s".to_string())));
    assert!(!must_not_drop(&Event::Error("e".to_string())));
    assert!(!must_not_drop(&Event::SamplesProcessed(1)));
    assert!(!must_not_drop(&Event::RawSamplesDetected(1)));
}
