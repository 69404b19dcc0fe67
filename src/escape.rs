//! Iteration control of the escape-time test.
//!
//! The orbit `z(0) = 0`, `z(i + 1) = z(i) * z(i) + c` is computed by the
//! caller; after each term it reports whether the squared magnitude of that
//! term exceeds the escape threshold, and the counter decides whether to go
//! on, to report the escape index, or to classify the point as bounded.
use vstd::prelude::*;

verus! {

/// The iteration bound of the default rendering.
pub const MAX_ITERATIONS: u16 = 900;

/// What the caller does after reporting one term of the orbit.
#[derive(Clone, Copy, Debug, PartialEq, Eq, Structural)]
pub enum EscapeStep {
    /// Compute the next term of the orbit and report it.
    Iterate,
    /// The test is over: `Some(k)` when term `k` escaped, `None` when the
    /// point stayed bounded.
    Finished(Option<u16>),
}

/// The index of the first term among `escapes[from..]` that escaped, when
/// it comes at or before index `max`; `None` when the terms up to that index
/// all stayed bounded.
pub open spec fn first_escape(escapes: Seq<bool>, max: nat, from: nat) -> Option<nat>
    recommends
        max + 1 <= escapes.len(),
    decreases max + 1 - from,
{
    if from > max || from >= escapes.len() {
        None
    } else if escapes[from as int] {
        Some(from)
    } else {
        first_escape(escapes, max, from + 1)
    }
}

/// A bounded orbit prefix decides the test as soon as it holds an escaped
/// term: with `reported` all bounded and no longer than `max` terms, one
/// more term decides it exactly when that term escaped.
proof fn lemma_first_escape_after(reported: Seq<bool>, escaped: bool, max: nat, from: nat)
    requires
        reported.len() <= max,
        from <= reported.len(),
        forall|j: int| 0 <= j < reported.len() ==> !reported[j],
    ensures
        first_escape(reported.push(escaped), max, from) == (if escaped {
            Some(reported.len())
        } else {
            None::<nat>
        }),
    decreases reported.len() - from,
{
    let t = reported.push(escaped);
    if from < reported.len() {
        assert(!t[from as int]);
        lemma_first_escape_after(reported, escaped, max, from + 1);
    } else {
        assert(t[from as int] == escaped);
        if !escaped {
            assert(first_escape(t, max, from + 1) == None::<nat>);
        }
    }
}

/// Counts the terms of one orbit.
pub struct EscapeCounter {
    iteration: u16,
    max_iterations: u16,
    reported: Ghost<Seq<bool>>,
}

impl EscapeCounter {
    /// The index of the term that is reported next.
    pub closed spec fn iteration(&self) -> nat {
        self.iteration as nat
    }

    /// The bound on the number of iterations.
    pub closed spec fn max_iterations(&self) -> nat {
        self.max_iterations as nat
    }

    /// Whether each term reported so far escaped.
    pub closed spec fn reported(&self) -> Seq<bool> {
        self.reported@
    }

    /// The terms reported so far are the first `iteration` terms, all
    /// bounded; the index of the next term is at most the bound.
    pub closed spec fn wf(&self) -> bool {
        &&& self.iteration <= self.max_iterations
        &&& self.reported@.len() == self.iteration
        &&& forall|j: int| 0 <= j < self.reported@.len() ==> !self.reported@[j]
    }

    /// A counter that expects the first term, `z(0) = 0`.
    pub fn new(max_iterations: u16) -> (r: EscapeCounter)
        ensures
            r.wf(),
            r.iteration() == 0,
            r.reported() == Seq::<bool>::empty(),
            r.max_iterations() == max_iterations,
    {
        EscapeCounter { iteration: 0, max_iterations, reported: Ghost(Seq::empty()) }
    }

    /// Reports whether the current term escaped. An escaped term ends the
    /// test with its index; a bounded term ends it as bounded when its index
    /// is the bound, and otherwise asks for the next term. A finished test
    /// carries the first escape of the reported orbit, whose index is never
    /// above the bound.
    pub fn observe(&mut self, escaped: bool) -> (step: EscapeStep)
        requires
            old(self).wf(),
        ensures
            final(self).wf(),
            final(self).max_iterations() == old(self).max_iterations(),
            escaped ==> step == EscapeStep::Finished(Some(old(self).iteration() as u16))
                && *final(self) == *old(self),
            !escaped && old(self).iteration() == old(self).max_iterations() ==> step
                == EscapeStep::Finished(None) && *final(self) == *old(self),
            !escaped && old(self).iteration() < old(self).max_iterations() ==> step
                == EscapeStep::Iterate && final(self).iteration() == old(self).iteration() + 1
                && final(self).reported() == old(self).reported().push(false),
            forall|k: u16|
                step == EscapeStep::Finished(Some(k)) ==> k <= old(self).max_iterations(),
            forall|k: u16|
                step == EscapeStep::Finished(Some(k)) ==> first_escape(
                    old(self).reported().push(escaped),
                    old(self).max_iterations(),
                    0,
                ) == Some(k as nat),
            step == EscapeStep::Finished(None) ==> old(self).reported().push(escaped).len()
                == old(self).max_iterations() + 1 && first_escape(
                old(self).reported().push(escaped),
                old(self).max_iterations(),
                0,
            ) == None::<nat>,
    {
        proof {
            lemma_first_escape_after(self.reported@, escaped, self.max_iterations as nat, 0);
        }
        if escaped {
            EscapeStep::Finished(Some(self.iteration))
        } else if self.iteration >= self.max_iterations {
            EscapeStep::Finished(None)
        } else {
            self.iteration = self.iteration + 1;
            self.reported = Ghost(self.reported@.push(false));
            EscapeStep::Iterate
        }
    }
}

} // verus!
