//! Laws of the reconciler and control plane, proved once over the transition
//! functions: the history invariant, monotonic sequence ids, idempotence of
//! repeated annotation results, exact id correlation, and out-of-order
//! resolution with and without ids.

use vstd::prelude::*;

use crate::control::{step_command, Command};
use crate::event::EventModel;
use crate::state::{
    bump_seq, find_unit, first_pending, has_pending, has_unit, history_aligned, history_bounded,
    ids_consistent, init_state, lemma_find_unit, lemma_first_pending, lemma_pending_count_update,
    pending_count, step, AnnotationModel, StateModel, UnitModel,
};

verus! {

/// Law: the initial state satisfies the history invariant and has a
/// consistent id assignment.
pub proof fn lemma_init_invariant()
    ensures
        history_bounded(init_state()),
        history_aligned(init_state()),
        ids_consistent(init_state()),
{
}

/// Law: every reconciler step keeps the annotation list no longer than the
/// unit list, and keeps every unit paired with exactly one annotation slot.
pub proof fn lemma_step_preserves_invariant(s: StateModel, e: EventModel)
    requires
        history_bounded(s),
    ensures
        history_bounded(step(s, e)),
        history_aligned(s) ==> history_aligned(step(s, e)),
{
}

/// Law: every control-plane step keeps the annotation list no longer than
/// the unit list, and keeps every unit paired with exactly one annotation
/// slot.
pub proof fn lemma_command_preserves_invariant(s: StateModel, c: Command)
    requires
        history_bounded(s),
    ensures
        history_bounded(step_command(s, c)),
        history_aligned(s) ==> history_aligned(step_command(s, c)),
{
}

/// Law: sequence ids increase monotonically with finalization order — every
/// event and command keeps the history's ids strictly decreasing newest-first
/// and below the counter (while the counter is short of the machine limit).
pub proof fn lemma_ids_monotonic(s: StateModel, e: EventModel, c: Command)
    requires
        ids_consistent(s),
        s.next_seq < u64::MAX,
    ensures
        ids_consistent(step(s, e)),
        ids_consistent(step_command(s, c)),
{
}

/// Law: on an aligned history, finalizing a unit takes the primary path —
/// the unit is prepended with a fresh sequence id and exactly one pending
/// slot, the live text is cleared, the counter advances, and the repair step
/// has nothing to do.
pub proof fn lemma_finalize_pairs_unit(s: StateModel, t: Seq<char>)
    requires
        history_aligned(s),
    ensures
        step(s, EventModel::UnitFinalized(t)).units == seq![
            UnitModel { seq: s.next_seq, text: t },
        ] + s.units,
        step(s, EventModel::UnitFinalized(t)).annotations == seq![AnnotationModel::Pending]
            + s.annotations,
        step(s, EventModel::UnitFinalized(t)).live_text == Seq::<char>::empty(),
        step(s, EventModel::UnitFinalized(t)).next_seq == bump_seq(s.next_seq),
{
}

/// Law: neither typed characters nor submitting the typed buffer touches the
/// listening flag, so it stays false for the whole typing interaction.
pub proof fn lemma_typing_keeps_flag(s: StateModel, c: char)
    ensures
        step_command(s, Command::TypeChar(c)).listening == s.listening,
        step_command(s, Command::Backspace).listening == s.listening,
        step_command(s, Command::Submit).listening == s.listening,
{
}

/// Law (exact correlation): on an aligned history, a result that carries the
/// sequence id of a unit in the history lands exactly on that unit's slot if
/// it is still pending, touching nothing else; if that slot is already ready
/// the whole event is a no-op; and delivering the event a second time never
/// changes anything.
pub proof fn lemma_id_resolution(s: StateModel, id: u64, t: Seq<char>)
    requires
        history_aligned(s),
        has_unit(s.units, id),
    ensures
        ({
            let j = find_unit(s.units, id);
            let s1 = step(s, EventModel::AnnotationReady(Some(id), t));
            &&& s1.units == s.units
            &&& s1.annotations.len() == s.annotations.len()
            &&& (s.annotations[j] is Pending ==> s1.annotations == s.annotations.update(
                j,
                AnnotationModel::Ready(t),
            ))
            &&& (s.annotations[j] is Pending ==> pending_count(s1.annotations) == pending_count(
                s.annotations,
            ) - 1)
            &&& (!(s.annotations[j] is Pending) ==> s1 == s)
            &&& step(s1, EventModel::AnnotationReady(Some(id), t)) == s1
        }),
{
    lemma_find_unit(s.units, id);
    let j = find_unit(s.units, id);
    if s.annotations[j] is Pending {
        lemma_pending_count_update(s.annotations, j, t);
    }
    let s1 = step(s, EventModel::AnnotationReady(Some(id), t));
    if !(s.annotations[j] is Pending) {
        assert(s1 =~= s);
    }
    let s2 = step(s1, EventModel::AnnotationReady(Some(id), t));
    assert(s1.annotations[j] is Ready);
    assert(s2 =~= s1);
}

/// Law: on an aligned history an annotation result without an id never
/// changes the history lengths, and delivering the same result again once no
/// slot is pending any more changes nothing at all.
pub proof fn lemma_annotation_ready_idempotent(s: StateModel, t: Seq<char>)
    requires
        history_aligned(s),
    ensures
        step(s, EventModel::AnnotationReady(None, t)).units == s.units,
        step(s, EventModel::AnnotationReady(None, t)).annotations.len() == s.annotations.len(),
        step(step(s, EventModel::AnnotationReady(None, t)), EventModel::AnnotationReady(None, t))
            .units == s.units,
        step(
            step(s, EventModel::AnnotationReady(None, t)),
            EventModel::AnnotationReady(None, t),
        ).annotations.len() == s.annotations.len(),
        !has_pending(step(s, EventModel::AnnotationReady(None, t)).annotations) ==> step(
            step(s, EventModel::AnnotationReady(None, t)),
            EventModel::AnnotationReady(None, t),
        ) == step(s, EventModel::AnnotationReady(None, t)),
{
    let s1 = step(s, EventModel::AnnotationReady(None, t));
    if has_pending(s.annotations) {
        lemma_first_pending(s.annotations);
    }
    assert(s1.annotations.len() == s.annotations.len());
    let s2 = step(s1, EventModel::AnnotationReady(None, t));
    if has_pending(s1.annotations) {
        lemma_first_pending(s1.annotations);
    }
    assert(s2.annotations.len() == s1.annotations.len());
    if !has_pending(s1.annotations) {
        assert(s2 =~= s1);
    }
}

/// Law: an unattributed annotation result is never dropped while a pending
/// slot exists: on an aligned history it lands, ready, in the first pending
/// slot, every other slot and the units are untouched, and the number of
/// pending slots drops by exactly one.
pub proof fn lemma_ready_never_dropped(s: StateModel, t: Seq<char>)
    requires
        history_aligned(s),
        has_pending(s.annotations),
    ensures
        step(s, EventModel::AnnotationReady(None, t)).units == s.units,
        step(s, EventModel::AnnotationReady(None, t)).annotations[first_pending(s.annotations)]
            == AnnotationModel::Ready(t),
        forall|j: int|
            0 <= j < s.annotations.len() && j != first_pending(s.annotations) ==> step(
                s,
                EventModel::AnnotationReady(None, t),
            ).annotations[j] == s.annotations[j],
        pending_count(step(s, EventModel::AnnotationReady(None, t)).annotations) == pending_count(
            s.annotations,
        ) - 1,
{
    lemma_first_pending(s.annotations);
    lemma_pending_count_update(s.annotations, first_pending(s.annotations), t);
}

/// Law (out-of-order resolution): after units A then B finalize on an
/// aligned history, and B's annotation result arrives before A's, each
/// carrying its unit's sequence id, both results land on their own units'
/// slots — newest first, B's slot holds B's result and A's slot holds A's.
pub proof fn lemma_out_of_order_resolution(
    s: StateModel,
    a: Seq<char>,
    b: Seq<char>,
    ra: Seq<char>,
    rb: Seq<char>,
)
    requires
        history_aligned(s),
        s.next_seq < u64::MAX,
    ensures
        ({
            let ida = s.next_seq;
            let idb = bump_seq(s.next_seq);
            let s4 = step(
                step(
                    step(step(s, EventModel::UnitFinalized(a)), EventModel::UnitFinalized(b)),
                    EventModel::AnnotationReady(Some(idb), rb),
                ),
                EventModel::AnnotationReady(Some(ida), ra),
            );
            s4.units == seq![
                UnitModel { seq: idb, text: b },
                UnitModel { seq: ida, text: a },
            ] + s.units && s4.annotations == seq![
                AnnotationModel::Ready(rb),
                AnnotationModel::Ready(ra),
            ] + s.annotations
        }),
{
    let ida = s.next_seq;
    let idb = bump_seq(s.next_seq);
    let ua = UnitModel { seq: ida, text: a };
    let ub = UnitModel { seq: idb, text: b };
    let s1 = step(s, EventModel::UnitFinalized(a));
    assert(s1.units =~= seq![ua] + s.units);
    assert(s1.annotations =~= seq![AnnotationModel::Pending] + s.annotations);
    let s2 = step(s1, EventModel::UnitFinalized(b));
    assert(s2.units =~= seq![ub, ua] + s.units);
    assert(s2.annotations =~= seq![AnnotationModel::Pending, AnnotationModel::Pending]
        + s.annotations);

    let s3 = step(s2, EventModel::AnnotationReady(Some(idb), rb));
    assert(s2.units[0].seq == idb);
    assert(has_unit(s2.units, idb));
    assert(find_unit(s2.units, idb) == 0);
    assert(s3.annotations =~= seq![AnnotationModel::Ready(rb), AnnotationModel::Pending]
        + s.annotations);

    let s4 = step(s3, EventModel::AnnotationReady(Some(ida), ra));
    assert(s3.units == s2.units);
    assert(s3.units[1].seq == ida);
    assert(has_unit(s3.units, ida));
    assert(s3.units[0].seq != ida);
    assert(s3.units.drop_first()[0].seq == ida);
    assert(find_unit(s3.units.drop_first(), ida) == 0);
    assert(find_unit(s3.units, ida) == 1);
    assert(s3.annotations[1] is Pending);
    assert(s4.annotations =~= seq![AnnotationModel::Ready(rb), AnnotationModel::Ready(ra)]
        + s.annotations);
    assert(s4.units == seq![ub, ua] + s.units);
}

/// Law (tie-break fallback): the same out-of-order arrival still resolves
/// both units when neither result carries an id, provided no other slot was
/// pending: the first result fills the newer slot, the second the older one.
pub proof fn lemma_out_of_order_fallback(
    s: StateModel,
    a: Seq<char>,
    b: Seq<char>,
    ra: Seq<char>,
    rb: Seq<char>,
)
    requires
        history_aligned(s),
        !has_pending(s.annotations),
    ensures
        ({
            let s4 = step(
                step(
                    step(step(s, EventModel::UnitFinalized(a)), EventModel::UnitFinalized(b)),
                    EventModel::AnnotationReady(None, rb),
                ),
                EventModel::AnnotationReady(None, ra),
            );
            s4.annotations == seq![
                AnnotationModel::Ready(rb),
                AnnotationModel::Ready(ra),
            ] + s.annotations
        }),
{
    let s1 = step(s, EventModel::UnitFinalized(a));
    assert(s1.annotations =~= seq![AnnotationModel::Pending] + s.annotations);
    let s2 = step(s1, EventModel::UnitFinalized(b));
    assert(s2.annotations =~= seq![AnnotationModel::Pending, AnnotationModel::Pending]
        + s.annotations);

    let s3 = step(s2, EventModel::AnnotationReady(None, rb));
    assert(s2.annotations[0] is Pending);
    assert(has_pending(s2.annotations));
    assert(first_pending(s2.annotations) == 0);
    assert(s3.annotations =~= seq![AnnotationModel::Ready(rb), AnnotationModel::Pending]
        + s.annotations);

    let s4 = step(s3, EventModel::AnnotationReady(None, ra));
    assert(s3.annotations[1] is Pending);
    assert(has_pending(s3.annotations));
    assert(s3.annotations.drop_first() =~= seq![AnnotationModel::Pending] + s.annotations);
    assert(first_pending(s3.annotations.drop_first()) == 0);
    assert(first_pending(s3.annotations) == 1);
    assert(s4.annotations =~= seq![AnnotationModel::Ready(rb), AnnotationModel::Ready(ra)]
        + s.annotations);
}

/// Law (late result finds its unit): when a unit's annotation result arrives
/// only after a later unit has already finalized, the id still routes it to
/// its own unit's slot: the older unit ends ready with the result and the
/// newer unit's slot stays pending.
pub proof fn lemma_late_result_finds_its_unit(
    s: StateModel,
    c1: Seq<char>,
    c2: Seq<char>,
    r: Seq<char>,
)
    requires
        history_aligned(s),
        s.next_seq < u64::MAX,
    ensures
        ({
            let s3 = step(
                step(step(s, EventModel::UnitFinalized(c1)), EventModel::UnitFinalized(c2)),
                EventModel::AnnotationReady(Some(s.next_seq), r),
            );
            s3.annotations == seq![AnnotationModel::Pending, AnnotationModel::Ready(r)]
                + s.annotations
        }),
{
    let ida = s.next_seq;
    let idb = bump_seq(s.next_seq);
    let s1 = step(s, EventModel::UnitFinalized(c1));
    assert(s1.units =~= seq![UnitModel { seq: ida, text: c1 }] + s.units);
    assert(s1.annotations =~= seq![AnnotationModel::Pending] + s.annotations);
    let s2 = step(s1, EventModel::UnitFinalized(c2));
    assert(s2.units =~= seq![
        UnitModel { seq: idb, text: c2 },
        UnitModel { seq: ida, text: c1 },
    ] + s.units);
    assert(s2.annotations =~= seq![AnnotationModel::Pending, AnnotationModel::Pending]
        + s.annotations);

    let s3 = step(s2, EventModel::AnnotationReady(Some(ida), r));
    assert(s2.units[1].seq == ida);
    assert(has_unit(s2.units, ida));
    assert(s2.units[0].seq != ida);
    assert(s2.units.drop_first()[0].seq == ida);
    assert(find_unit(s2.units.drop_first(), ida) == 0);
    assert(find_unit(s2.units, ida) == 1);
    assert(s2.annotations[1] is Pending);
    assert(s3.annotations =~= seq![AnnotationModel::Pending, AnnotationModel::Ready(r)]
        + s.annotations);
}

} // verus!
