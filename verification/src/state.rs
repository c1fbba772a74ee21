//! The pipeline state and the reconciler: the single consumer of the event
//! bus, the only owner of the ordered history of units and their annotations.
//!
//! History is kept newest-first: a finalized unit is inserted at the front
//! together with its pending annotation slot, and it receives a monotonically
//! increasing sequence id at that moment. An annotation result that carries
//! its owning unit's id resolves to that unit's slot exactly; one without a
//! reliable id falls back to the slot-seeking tie-break (first pending slot,
//! else a fresh front slot while room remains). After every mutation the slot
//! count is defensively repaired.

use vstd::prelude::*;

use crate::event::{Event, EventModel};

verus! {

/// One finalized span of input: its sequence id (assigned at finalization)
/// and its source text, immutable from then on.
#[derive(Debug, Clone, PartialEq, Eq)]
pub struct Unit {
    pub seq: u64,
    pub text: String,
}

/// The mathematical value of a unit.
pub struct UnitModel {
    pub seq: u64,
    pub text: Seq<char>,
}

impl View for Unit {
    type V = UnitModel;

    open spec fn view(&self) -> UnitModel {
        UnitModel { seq: self.seq, text: self.text@ }
    }
}

impl DeepView for Unit {
    type V = UnitModel;

    open spec fn deep_view(&self) -> UnitModel {
        self.view()
    }
}

/// The annotation attached to one unit: pending until its concurrent
/// annotation task completes, then ready exactly once. A slot's owning unit
/// is the unit at the same history index.
pub enum Annotation {
    Pending,
    Ready(String),
}

/// The mathematical value of an annotation slot.
pub enum AnnotationModel {
    Pending,
    Ready(Seq<char>),
}

impl View for Annotation {
    type V = AnnotationModel;

    open spec fn view(&self) -> AnnotationModel {
        match self {
            Annotation::Pending => AnnotationModel::Pending,
            Annotation::Ready(t) => AnnotationModel::Ready(t@),
        }
    }
}

impl DeepView for Annotation {
    type V = AnnotationModel;

    open spec fn deep_view(&self) -> AnnotationModel {
        self.view()
    }
}

impl Annotation {
    /// Whether this slot still awaits its annotation task.
    pub fn is_pending(&self) -> (r: bool)
        ensures
            r == (self@ is Pending),
    {
        match self {
            Annotation::Pending => true,
            Annotation::Ready(_) => false,
        }
    }
}

/// The control plane's two states: capturing live input, or stopped with
/// manual typing enabled.
#[derive(Clone, Copy, PartialEq, Eq, Structural, Debug)]
pub enum InputMode {
    Listening,
    Typing,
}

/// The mathematical value of the whole pipeline state.
#[verifier::ext_equal]
pub struct StateModel {
    pub status: Seq<char>,
    pub live_text: Seq<char>,
    /// Finalized units, newest first.
    pub units: Seq<UnitModel>,
    /// Annotation slots, aligned with `units`, newest first.
    pub annotations: Seq<AnnotationModel>,
    /// The sequence id the next finalized unit will receive.
    pub next_seq: u64,
    pub mode: InputMode,
    pub user_input: Seq<char>,
    /// The shared listening flag as the control plane last set it.
    pub listening: bool,
    pub should_quit: bool,
    pub total_samples: nat,
    pub raw_samples: nat,
    pub unit_scroll: nat,
    pub annotation_scroll: nat,
}

/// The pipeline state: ordered history, live text, control-plane state and
/// advisory counters. Mutated only by the reconciler (`apply_event`) and the
/// control plane (`apply_command`).
pub struct PipelineState {
    pub status: String,
    pub live_text: String,
    /// Finalized units, newest first.
    pub units: Vec<Unit>,
    /// Annotation slots, aligned with `units`, newest first.
    pub annotations: Vec<Annotation>,
    /// The sequence id the next finalized unit will receive.
    pub next_seq: u64,
    pub mode: InputMode,
    pub user_input: String,
    /// The value the control plane last stored into the shared listening
    /// flag.
    pub listening: bool,
    pub should_quit: bool,
    pub total_samples: usize,
    pub raw_samples: usize,
    pub unit_scroll: usize,
    pub annotation_scroll: usize,
}

impl View for PipelineState {
    type V = StateModel;

    open spec fn view(&self) -> StateModel {
        StateModel {
            status: self.status@,
            live_text: self.live_text@,
            units: self.units.deep_view(),
            annotations: self.annotations.deep_view(),
            next_seq: self.next_seq,
            mode: self.mode,
            user_input: self.user_input@,
            listening: self.listening,
            should_quit: self.should_quit,
            total_samples: self.total_samples as nat,
            raw_samples: self.raw_samples as nat,
            unit_scroll: self.unit_scroll as nat,
            annotation_scroll: self.annotation_scroll as nat,
        }
    }
}

/// The annotation list never outgrows the unit list.
pub open spec fn history_bounded(s: StateModel) -> bool {
    s.annotations.len() <= s.units.len()
}

/// Every unit has exactly one annotation slot.
pub open spec fn history_aligned(s: StateModel) -> bool {
    s.annotations.len() == s.units.len()
}

/// Sequence ids are assigned in finalization order: every id in the history
/// is below the counter, and the newest-first history holds them in strictly
/// decreasing order.
pub open spec fn ids_consistent(s: StateModel) -> bool {
    &&& forall|i: int| 0 <= i < s.units.len() ==> s.units[i].seq < s.next_seq
    &&& forall|i: int, j: int| 0 <= i < j < s.units.len() ==> s.units[i].seq > s.units[j].seq
}

/// The state the pipeline starts in: listening, empty history, empty live
/// text.
pub open spec fn init_state() -> StateModel {
    StateModel {
        status: "Initializing... Press 's' to Stop/Start, 'q' to Quit"@,
        live_text: Seq::empty(),
        units: Seq::empty(),
        annotations: Seq::empty(),
        next_seq: 0,
        mode: InputMode::Listening,
        user_input: Seq::empty(),
        listening: true,
        should_quit: false,
        total_samples: 0,
        raw_samples: 0,
        unit_scroll: 0,
        annotation_scroll: 0,
    }
}

/// Counter addition that sticks at the machine limit; the counters are
/// advisory, never a correctness dependency.
pub open spec fn sat_add(a: nat, b: nat) -> nat {
    if a + b > usize::MAX {
        usize::MAX as nat
    } else {
        a + b
    }
}

/// The sequence counter after assigning one id; it sticks at the machine
/// limit rather than wrapping.
pub open spec fn bump_seq(n: u64) -> u64 {
    if n < u64::MAX {
        (n + 1) as u64
    } else {
        n
    }
}

/// Whether some slot still awaits an annotation.
pub open spec fn has_pending(anns: Seq<AnnotationModel>) -> bool {
    exists|i: int| 0 <= i < anns.len() && anns[i] is Pending
}

/// Index of the first pending slot; meaningful only when one exists.
pub open spec fn first_pending(anns: Seq<AnnotationModel>) -> int
    decreases anns.len(),
{
    if anns.len() == 0 {
        0
    } else if anns[0] is Pending {
        0
    } else {
        1 + first_pending(anns.drop_first())
    }
}

pub proof fn lemma_first_pending(anns: Seq<AnnotationModel>)
    requires
        has_pending(anns),
    ensures
        0 <= first_pending(anns) < anns.len(),
        anns[first_pending(anns)] is Pending,
        forall|j: int| 0 <= j < first_pending(anns) ==> !(anns[j] is Pending),
    decreases anns.len(),
{
    if anns.len() > 0 && !(anns[0] is Pending) {
        let i = choose|i: int| 0 <= i < anns.len() && anns[i] is Pending;
        assert(anns.drop_first()[i - 1] is Pending);
        lemma_first_pending(anns.drop_first());
        let f = first_pending(anns.drop_first());
        assert forall|j: int| 1 <= j < 1 + f implies !(anns[j] is Pending) by {
            assert(anns.drop_first()[j - 1] == anns[j]);
            assert(!(anns.drop_first()[j - 1] is Pending));
        }
    }
}

/// How many slots still await an annotation.
pub open spec fn pending_count(anns: Seq<AnnotationModel>) -> nat
    decreases anns.len(),
{
    if anns.len() == 0 {
        0
    } else {
        (if anns[0] is Pending {
            1nat
        } else {
            0nat
        }) + pending_count(anns.drop_first())
    }
}

/// Filling one pending slot with a ready result lowers the pending count by
/// exactly one.
pub proof fn lemma_pending_count_update(anns: Seq<AnnotationModel>, j: int, t: Seq<char>)
    requires
        0 <= j < anns.len(),
        anns[j] is Pending,
    ensures
        pending_count(anns.update(j, AnnotationModel::Ready(t))) == pending_count(anns) - 1,
    decreases anns.len(),
{
    let upd = anns.update(j, AnnotationModel::Ready(t));
    if j == 0 {
        assert(upd.drop_first() =~= anns.drop_first());
    } else {
        assert(upd.drop_first() =~= anns.drop_first().update(j - 1, AnnotationModel::Ready(t)));
        lemma_pending_count_update(anns.drop_first(), j - 1, t);
    }
}

/// Whether the history holds a unit with this sequence id.
pub open spec fn has_unit(units: Seq<UnitModel>, id: u64) -> bool {
    exists|i: int| 0 <= i < units.len() && units[i].seq == id
}

/// Index of the first unit with this sequence id; meaningful only when one
/// exists.
pub open spec fn find_unit(units: Seq<UnitModel>, id: u64) -> int
    decreases units.len(),
{
    if units.len() == 0 {
        0
    } else if units[0].seq == id {
        0
    } else {
        1 + find_unit(units.drop_first(), id)
    }
}

pub proof fn lemma_find_unit(units: Seq<UnitModel>, id: u64)
    requires
        has_unit(units, id),
    ensures
        0 <= find_unit(units, id) < units.len(),
        units[find_unit(units, id)].seq == id,
        forall|j: int| 0 <= j < find_unit(units, id) ==> units[j].seq != id,
    decreases units.len(),
{
    if units.len() > 0 && units[0].seq != id {
        let i = choose|i: int| 0 <= i < units.len() && units[i].seq == id;
        assert(units.drop_first()[i - 1].seq == id);
        lemma_find_unit(units.drop_first(), id);
        let f = find_unit(units.drop_first(), id);
        assert forall|j: int| 1 <= j < 1 + f implies units[j].seq != id by {
            assert(units.drop_first()[j - 1] == units[j]);
            assert(units.drop_first()[j - 1].seq != id);
        }
    }
}

/// Excess slots beyond the unit count are dropped from the tail (the oldest
/// assumed extras).
pub open spec fn trim_excess(anns: Seq<AnnotationModel>, n: nat) -> Seq<AnnotationModel> {
    if anns.len() > n {
        anns.take(n as int)
    } else {
        anns
    }
}

/// Units lacking a slot are backfilled with pending placeholders at the
/// front, matching where new units are inserted.
pub open spec fn pad_pending(anns: Seq<AnnotationModel>, n: nat) -> Seq<AnnotationModel> {
    if anns.len() < n {
        Seq::new((n - anns.len()) as nat, |i: int| AnnotationModel::Pending) + anns
    } else {
        anns
    }
}

/// The slot-seeking tie-break for a result without a reliable id: the first
/// pending slot when one exists; otherwise a fresh slot at the front if the
/// unit list still has room; otherwise nowhere.
pub open spec fn resolve_unattributed(
    anns: Seq<AnnotationModel>,
    units_len: nat,
    t: Seq<char>,
) -> Seq<AnnotationModel> {
    if has_pending(anns) {
        anns.update(first_pending(anns), AnnotationModel::Ready(t))
    } else if anns.len() < units_len {
        seq![AnnotationModel::Ready(t)] + anns
    } else {
        anns
    }
}

/// Where an annotation result lands. Exact correlation by sequence id is
/// preferred: a result carrying the id of a unit in the history fills that
/// unit's slot if it is still pending and is otherwise dropped as a
/// duplicate. Absent a reliable id (none carried, unknown, or the owed slot
/// missing), the slot-seeking tie-break applies.
pub open spec fn resolve_ready(
    anns: Seq<AnnotationModel>,
    units: Seq<UnitModel>,
    seq_id: Option<u64>,
    t: Seq<char>,
) -> Seq<AnnotationModel> {
    match seq_id {
        Some(id) => {
            if has_unit(units, id) && find_unit(units, id) < anns.len() {
                if anns[find_unit(units, id)] is Pending {
                    anns.update(find_unit(units, id), AnnotationModel::Ready(t))
                } else {
                    anns
                }
            } else {
                resolve_unattributed(anns, units.len(), t)
            }
        },
        None => resolve_unattributed(anns, units.len(), t),
    }
}

/// The reconciler's transition function: the state after consuming one event.
pub open spec fn step(s: StateModel, e: EventModel) -> StateModel {
    match e {
        EventModel::StatusUpdate(m) => StateModel { status: m, ..s },
        EventModel::Error(m) => StateModel { status: "ERROR: "@ + m, ..s },
        EventModel::LiveUpdate(t) => StateModel { live_text: t, ..s },
        EventModel::SamplesProcessed(n) => StateModel {
            total_samples: sat_add(s.total_samples, n as nat),
            raw_samples: 0,
            ..s
        },
        EventModel::RawSamplesDetected(n) => StateModel {
            raw_samples: sat_add(s.raw_samples, n as nat),
            ..s
        },
        EventModel::UnitFinalized(t) => {
            let units = seq![UnitModel { seq: s.next_seq, text: t }] + s.units;
            StateModel {
                units,
                annotations: trim_excess(
                    seq![AnnotationModel::Pending] + s.annotations,
                    units.len(),
                ),
                next_seq: bump_seq(s.next_seq),
                live_text: Seq::empty(),
                ..s
            }
        },
        EventModel::PlaceholderPending => {
            if s.annotations.len() < s.units.len() {
                StateModel { annotations: seq![AnnotationModel::Pending] + s.annotations, ..s }
            } else {
                s
            }
        },
        EventModel::AnnotationReady(seq_id, t) => StateModel {
            annotations: pad_pending(
                trim_excess(resolve_ready(s.annotations, s.units, seq_id, t), s.units.len()),
                s.units.len(),
            ),
            ..s
        },
    }
}

/// The sequence id a unit-finalized event receives: the counter's value at
/// the moment the reconciler consumes it. Other events assign none.
pub open spec fn assigned_seq(s: StateModel, e: EventModel) -> Option<u64> {
    match e {
        EventModel::UnitFinalized(_) => Some(s.next_seq),
        _ => None,
    }
}

/// Where one annotation result goes, as decided by `choose_placement`.
enum Placement {
    /// Overwrite the slot at this index with the ready result.
    Fill(usize),
    /// Insert a fresh ready slot at the front.
    InsertFront,
    /// Leave the slots unchanged.
    Keep,
}

/// The slot list after acting on a placement decision.
spec fn apply_placement(
    anns: Seq<AnnotationModel>,
    p: Placement,
    t: Seq<char>,
) -> Seq<AnnotationModel> {
    match p {
        Placement::Fill(j) => anns.update(j as int, AnnotationModel::Ready(t)),
        Placement::InsertFront => seq![AnnotationModel::Ready(t)] + anns,
        Placement::Keep => anns,
    }
}

impl PipelineState {
    /// Builds the initial pipeline state.
    pub fn new() -> (s: PipelineState)
        ensures
            s@ == init_state(),
    {
        let s = PipelineState {
            status: String::from_str("Initializing... Press 's' to Stop/Start, 'q' to Quit"),
            live_text: String::new(),
            units: Vec::new(),
            annotations: Vec::new(),
            next_seq: 0,
            mode: InputMode::Listening,
            user_input: String::new(),
            listening: true,
            should_quit: false,
            total_samples: 0,
            raw_samples: 0,
            unit_scroll: 0,
            annotation_scroll: 0,
        };
        proof {
            assert(s@.units =~= init_state().units);
            assert(s@.annotations =~= init_state().annotations);
            assert(s@ =~= init_state());
        }
        s
    }

    /// Consumes one bus event; the new state is exactly `step` of the old.
    /// For a unit-finalized event the assigned sequence id is returned so
    /// that the annotation dispatcher can correlate the unit's result.
    pub fn apply_event(&mut self, e: Event) -> (assigned: Option<u64>)
        ensures
            final(self)@ == step(old(self)@, e@),
            assigned == assigned_seq(old(self)@, e@),
    {
        let ghost pre = self@;
        let ghost ev = e@;
        match e {
            Event::StatusUpdate(m) => {
                self.status = m;
                proof {
                    assert(self@ =~= step(pre, ev));
                }
                None
            },
            Event::Error(m) => {
                self.status = String::from_str("ERROR: ").concat(m.as_str());
                proof {
                    assert(self@ =~= step(pre, ev));
                }
                None
            },
            Event::LiveUpdate(t) => {
                self.live_text = t;
                proof {
                    assert(self@ =~= step(pre, ev));
                }
                None
            },
            Event::SamplesProcessed(n) => {
                if self.total_samples <= usize::MAX - n {
                    self.total_samples = self.total_samples + n;
                } else {
                    self.total_samples = usize::MAX;
                }
                self.raw_samples = 0;
                proof {
                    assert(self@ =~= step(pre, ev));
                }
                None
            },
            Event::RawSamplesDetected(n) => {
                if self.raw_samples <= usize::MAX - n {
                    self.raw_samples = self.raw_samples + n;
                } else {
                    self.raw_samples = usize::MAX;
                }
                proof {
                    assert(self@ =~= step(pre, ev));
                }
                None
            },
            Event::UnitFinalized(t) => {
                let id = self.next_seq;
                self.units.insert(0, Unit { seq: id, text: t });
                self.annotations.insert(0, Annotation::Pending);
                self.live_text = String::new();
                if self.next_seq < u64::MAX {
                    self.next_seq = self.next_seq + 1;
                }
                if self.annotations.len() > self.units.len() {
                    let keep = self.units.len();
                    self.annotations.truncate(keep);
                }
                proof {
                    assert(self@.units =~= step(pre, ev).units);
                    assert(self@.annotations =~= step(pre, ev).annotations);
                    assert(self@ =~= step(pre, ev));
                }
                Some(id)
            },
            Event::PlaceholderPending => {
                if self.annotations.len() < self.units.len() {
                    self.annotations.insert(0, Annotation::Pending);
                    proof {
                        assert(self@.annotations =~= step(pre, ev).annotations);
                    }
                }
                proof {
                    assert(self@ =~= step(pre, ev));
                }
                None
            },
            Event::AnnotationReady(seq_id, t) => {
                self.place_annotation(seq_id, t);
                proof {
                    assert(self@ =~= step(pre, ev));
                }
                None
            },
        }
    }

    /// Decides where one annotation result goes, without moving it: by id
    /// when the event carries one that the history can honor, else by the
    /// slot-seeking tie-break.
    fn choose_placement(&self, seq_id: Option<u64>) -> (p: Placement)
        ensures
            forall|t: Seq<char>|
                #[trigger] resolve_ready(
                    self.annotations.deep_view(),
                    self.units.deep_view(),
                    seq_id,
                    t,
                ) == apply_placement(self.annotations.deep_view(), p, t),
            p matches Placement::Fill(j) ==> j < self.annotations.len(),
    {
        let ghost anns0 = self.annotations.deep_view();
        let ghost units0 = self.units.deep_view();
        let n = self.annotations.len();
        if let Some(id) = seq_id {
            let un = self.units.len();
            let mut j: usize = 0;
            while j < un && self.units[j].seq != id
                invariant
                    un == self.units.len(),
                    0 <= j <= un,
                    units0 == self.units.deep_view(),
                    forall|k: int| 0 <= k < j ==> units0[k].seq != id,
                decreases un - j,
            {
                j = j + 1;
            }
            if j < un {
                proof {
                    assert(units0[j as int].seq == id);
                    lemma_find_unit(units0, id);
                    if find_unit(units0, id) < j {
                        assert(false);
                    }
                    if find_unit(units0, id) > j {
                        assert(false);
                    }
                }
                if j < n {
                    if self.annotations[j].is_pending() {
                        return Placement::Fill(j);
                    } else {
                        return Placement::Keep;
                    }
                }
            } else {
                proof {
                    assert(!has_unit(units0, id));
                }
            }
        }
        // No reliable id: the §4.5 slot-seeking tie-break.
        let mut idx: usize = 0;
        while idx < n && !self.annotations[idx].is_pending()
            invariant
                n == self.annotations.len(),
                0 <= idx <= n,
                anns0 == self.annotations.deep_view(),
                forall|k: int| 0 <= k < idx ==> !(anns0[k] is Pending),
            decreases n - idx,
        {
            idx = idx + 1;
        }
        if idx < n {
            proof {
                assert(anns0[idx as int] is Pending);
                lemma_first_pending(anns0);
                if first_pending(anns0) < idx {
                    assert(false);
                }
                if first_pending(anns0) > idx {
                    assert(false);
                }
            }
            Placement::Fill(idx)
        } else if n < self.units.len() {
            Placement::InsertFront
        } else {
            Placement::Keep
        }
    }

    /// Resolves one annotation result into the history, then repairs the
    /// slot count.
    fn place_annotation(&mut self, seq_id: Option<u64>, t: String)
        ensures
            final(self).status == old(self).status,
            final(self).live_text == old(self).live_text,
            final(self).units == old(self).units,
            final(self).next_seq == old(self).next_seq,
            final(self).mode == old(self).mode,
            final(self).user_input == old(self).user_input,
            final(self).listening == old(self).listening,
            final(self).should_quit == old(self).should_quit,
            final(self).total_samples == old(self).total_samples,
            final(self).raw_samples == old(self).raw_samples,
            final(self).unit_scroll == old(self).unit_scroll,
            final(self).annotation_scroll == old(self).annotation_scroll,
            final(self).annotations.deep_view() == pad_pending(
                trim_excess(
                    resolve_ready(
                        old(self).annotations.deep_view(),
                        old(self).units.deep_view(),
                        seq_id,
                        t@,
                    ),
                    old(self).units.deep_view().len(),
                ),
                old(self).units.deep_view().len(),
            ),
    {
        let ghost tv = t@;
        let ghost anns0 = self.annotations.deep_view();
        let ghost units0 = self.units.deep_view();
        let ghost units_len = units0.len();
        let placement = self.choose_placement(seq_id);
        match placement {
            Placement::Fill(j) => {
                self.annotations.remove(j);
                self.annotations.insert(j, Annotation::Ready(t));
                proof {
                    assert(self.annotations.deep_view() =~= anns0.update(
                        j as int,
                        AnnotationModel::Ready(tv),
                    ));
                }
            },
            Placement::InsertFront => {
                self.annotations.insert(0, Annotation::Ready(t));
                proof {
                    assert(self.annotations.deep_view() =~= seq![AnnotationModel::Ready(tv)]
                        + anns0);
                }
            },
            Placement::Keep => {},
        }
        proof {
            assert(self.annotations.deep_view() == resolve_ready(anns0, units0, seq_id, tv));
        }
        let ghost resolved = resolve_ready(anns0, units0, seq_id, tv);
        if self.annotations.len() > self.units.len() {
            let keep = self.units.len();
            self.annotations.truncate(keep);
        }
        proof {
            assert(self.annotations.deep_view() =~= trim_excess(resolved, units_len));
        }
        let ghost mid = trim_excess(resolved, units_len);
        while self.annotations.len() < self.units.len()
            invariant
                units_len == self.units.deep_view().len(),
                self.units.deep_view().len() == self.units@.len(),
                mid.len() <= self.annotations.deep_view().len(),
                self.annotations.deep_view().len() <= units_len,
                self.annotations.deep_view() == Seq::new(
                    (self.annotations.deep_view().len() - mid.len()) as nat,
                    |i: int| AnnotationModel::Pending,
                ) + mid,
                self.units == old(self).units,
                self.status == old(self).status,
                self.live_text == old(self).live_text,
                self.next_seq == old(self).next_seq,
                self.mode == old(self).mode,
                self.user_input == old(self).user_input,
                self.listening == old(self).listening,
                self.should_quit == old(self).should_quit,
                self.total_samples == old(self).total_samples,
                self.raw_samples == old(self).raw_samples,
                self.unit_scroll == old(self).unit_scroll,
                self.annotation_scroll == old(self).annotation_scroll,
            decreases self.units@.len() - self.annotations@.len(),
        {
            let ghost before = self.annotations.deep_view();
            self.annotations.insert(0, Annotation::Pending);
            proof {
                let after = self.annotations.deep_view();
                let k = (before.len() - mid.len()) as nat;
                let target = Seq::new((k + 1) as nat, |i: int| AnnotationModel::Pending) + mid;
                assert(after.len() == before.len() + 1);
                assert forall|i: int| 0 <= i < after.len() implies after[i] == target[i] by {
                    if i > 0 {
                        assert(after[i] == before[i - 1]);
                        assert(before[i - 1] == (Seq::new(
                            k,
                            |x: int| AnnotationModel::Pending,
                        ) + mid)[i - 1]);
                    }
                }
                assert(after =~= target);
            }
        }
        proof {
            assert(self.annotations.deep_view() =~= pad_pending(mid, units_len));
        }
    }
}

} // verus!
