//! The live transcription driver's verified core: per-unit accumulation of
//! confident partial results and the finalize-or-discard decision when a
//! chunk's partial stream ends.

use vstd::prelude::*;

use crate::text::{lemma_has_content_iff_trimmed_nonempty, str_has_content, trimmed};

verus! {

/// Fragments whose no-speech likelihood, in thousandths, reaches this bound
/// are rejected as non-speech.
pub const NO_SPEECH_REJECT_PER_MILLE: u32 = 850;

/// Whether a partial result passes the confidence filter: its no-speech
/// likelihood (in thousandths) is below the rejection bound.
pub open spec fn fragment_accepted(no_speech_per_mille: u32) -> bool {
    no_speech_per_mille < NO_SPEECH_REJECT_PER_MILLE
}

/// The running text of the unit currently in flight: the concatenation of
/// every accepted fragment of its chunk, in arrival order.
pub struct UnitAccumulator {
    pub text: String,
}

/// What becomes of a unit when its partial stream ends.
pub enum UnitOutcome {
    /// The accumulated text survives trimming: the unit is finalized with the
    /// full accumulated text.
    Finalized(String),
    /// Only whitespace (or nothing) accumulated: no unit is created and any
    /// stale live display must be cleared.
    Discarded,
}

impl UnitAccumulator {
    /// Starts a fresh unit with no text.
    pub fn new() -> (a: UnitAccumulator)
        ensures
            a.text@ == Seq::<char>::empty(),
    {
        UnitAccumulator { text: String::new() }
    }

    /// Consumes one partial result. An accepted fragment is appended and the
    /// cumulative text is returned for a live-update event; a rejected one
    /// changes nothing. The cumulative length never decreases.
    pub fn accept_fragment(&mut self, fragment: &str, no_speech_per_mille: u32) -> (live: Option<
        String,
    >)
        ensures
            fragment_accepted(no_speech_per_mille) ==> final(self).text@ == old(self).text@
                + fragment@,
            fragment_accepted(no_speech_per_mille) ==> (live matches Some(t) && t@
                == final(self).text@),
            !fragment_accepted(no_speech_per_mille) ==> final(self).text@ == old(self).text@
                && live is None,
            final(self).text@.len() >= old(self).text@.len(),
    {
        if no_speech_per_mille < NO_SPEECH_REJECT_PER_MILLE {
            self.text.append(fragment);
            Some(self.text.clone())
        } else {
            None
        }
    }

    /// Ends the unit: finalized with the accumulated text when it holds any
    /// non-whitespace character, discarded otherwise. Exactly one of the two
    /// outcomes is produced per chunk.
    pub fn finish(self) -> (outcome: UnitOutcome)
        ensures
            trimmed(self.text@).len() > 0 ==> (outcome matches UnitOutcome::Finalized(t) && t@
                == self.text@),
            trimmed(self.text@).len() == 0 ==> outcome is Discarded,
    {
        proof {
            lemma_has_content_iff_trimmed_nonempty(self.text@);
        }
        if str_has_content(self.text.as_str()) {
            UnitOutcome::Finalized(self.text)
        } else {
            UnitOutcome::Discarded
        }
    }
}

/// The cumulative text after a sequence of partial results, each a fragment
/// text with its no-speech likelihood in thousandths.
pub open spec fn accumulated(frags: Seq<(Seq<char>, u32)>) -> Seq<char>
    decreases frags.len(),
{
    if frags.len() == 0 {
        Seq::empty()
    } else {
        let prev = accumulated(frags.drop_last());
        if fragment_accepted(frags.last().1) {
            prev + frags.last().0
        } else {
            prev
        }
    }
}

/// Law: live updates carry the cumulative text, so over any prefix order of
/// the same unit's partial results the observed text length is monotonically
/// non-decreasing.
pub proof fn lemma_live_length_monotonic(frags: Seq<(Seq<char>, u32)>, i: int, j: int)
    requires
        0 <= i <= j <= frags.len(),
    ensures
        accumulated(frags.take(i)).len() <= accumulated(frags.take(j)).len(),
    decreases j - i,
{
    if i < j {
        lemma_live_length_monotonic(frags, i, j - 1);
        assert(frags.take(j).drop_last() =~= frags.take(j - 1));
        assert(frags.take(j).len() == j);
    }
}

} // verus!
