use vstd::prelude::*;

verus! {

/// How a point of the complex plane fared under the escape-time iteration
/// `z <- z * z + c`, started at zero.
#[derive(Debug, Hash, PartialEq, Eq, Structural, Clone, Copy)]
pub enum CalcResult {
    /// The iterate stayed within the escape threshold for the whole budget.
    Bounded,
    /// The iterate first exceeded the escape threshold at this zero-based
    /// iteration index.
    BailedOut(u16),
}

impl CalcResult {
    /// A classification that an iteration budget of `max_iterations` can
    /// produce: an escape index always lies below the budget.
    pub open spec fn within_budget(self, max_iterations: u16) -> bool {
        match self {
            CalcResult::Bounded => true,
            CalcResult::BailedOut(i) => i < max_iterations,
        }
    }

    /// Tests that the classification could come from an iteration budget of
    /// `max_iterations`.
    pub fn is_within_budget(&self, max_iterations: u16) -> (r: bool)
        ensures
            r == self.within_budget(max_iterations),
    {
        match self {
            CalcResult::Bounded => true,
            CalcResult::BailedOut(i) => *i < max_iterations,
        }
    }
}

/// `states` and `flags` record a run of `step`: each state after the first,
/// with the escape flag beside it, is what `step` gave for the state before.
pub open spec fn is_run<S, F: Fn(S) -> (S, bool)>(step: F, states: Seq<S>, flags: Seq<bool>) -> bool {
    &&& states.len() == flags.len() + 1
    &&& forall|j: int| 0 <= j < flags.len() ==> #[trigger] steps_to(step, states, flags, j)
}

/// Application `j` of a recorded run took state `j` to state `j + 1` with
/// escape flag `j`.
pub open spec fn steps_to<S, F: Fn(S) -> (S, bool)>(step: F, states: Seq<S>, flags: Seq<bool>, j: int) -> bool {
    step.ensures((states[j],), (states[j + 1], flags[j]))
}

/// `flags` are the escape flags of some run of `step` from `start`.
pub open spec fn run_flags<S, F: Fn(S) -> (S, bool)>(step: F, start: S, flags: Seq<bool>) -> bool {
    exists|states: Seq<S>| #[trigger] is_run(step, states, flags) && states[0] == start
}

/// No flag among the first `n` is set.
pub open spec fn none_set(flags: Seq<bool>, n: int) -> bool {
    forall|j: int| 0 <= j < n ==> !#[trigger] flags[j]
}

/// Runs the escape-time iteration from `start`: applies `step` at most
/// `max_iterations` times, each time to the state the previous application
/// returned, and stops at the first application that reports an escape.
///
/// Returns `BailedOut(k)` where application `k` (counted from zero) is the
/// first to escape, and `Bounded` where none of the `max_iterations`
/// applications does; a budget of zero is `Bounded` at once. Where every
/// application to `start` escapes, the result is `BailedOut(0)`.
pub fn escape_time<S, F: Fn(S) -> (S, bool)>(start: S, max_iterations: u16, step: F) -> (r: CalcResult)
    requires
        forall|s: S| #[trigger] step.requires((s,)),
    ensures
        r.within_budget(max_iterations),
        max_iterations == 0 ==> r == CalcResult::Bounded,
        r matches CalcResult::BailedOut(k) ==> exists|flags: Seq<bool>|
            {
                &&& #[trigger] run_flags(step, start, flags)
                &&& flags.len() == k + 1
                &&& flags[k as int]
                &&& none_set(flags, k as int)
            },
        r == CalcResult::Bounded ==> exists|flags: Seq<bool>|
            {
                &&& #[trigger] run_flags(step, start, flags)
                &&& flags.len() == max_iterations
                &&& none_set(flags, max_iterations as int)
            },
        max_iterations > 0 && (forall|out: (S, bool)| #[trigger] step.ensures((start,), out) ==> out.1)
            ==> r == CalcResult::BailedOut(0),
{
    let ghost mut states: Seq<S> = seq![start];
    let ghost mut flags: Seq<bool> = Seq::empty();
    let mut z = start;
    let mut i: u16 = 0;
    while i < max_iterations
        invariant
            forall|s: S| #[trigger] step.requires((s,)),
            i <= max_iterations,
            flags.len() == i,
            states[0] == start,
            states[i as int] == z,
            is_run(step, states, flags),
            none_set(flags, i as int),
        decreases max_iterations - i,
    {
        let (next, escaped) = step(z);
        proof {
            let old_states = states;
            let old_flags = flags;
            states = states.push(next);
            flags = flags.push(escaped);
            assert forall|j: int| 0 <= j < flags.len() implies #[trigger] steps_to(step, states, flags, j) by {
                if j < old_flags.len() {
                    assert(steps_to(step, old_states, old_flags, j));
                }
            }
            assert(states[0] == start);
            assert(is_run(step, states, flags));
            assert(run_flags(step, start, flags));
            assert(none_set(flags, i as int)) by {
                assert forall|j: int| 0 <= j < i implies !#[trigger] flags[j] by {
                    assert(!old_flags[j]);
                }
            }
        }
        if escaped {
            proof {
                if i > 0 {
                    assert(steps_to(step, states, flags, 0));
                    assert(!flags[0]);
                }
            }
            return CalcResult::BailedOut(i);
        }
        z = next;
        i = i + 1;
    }
    proof {
        assert(is_run(step, states, flags));
        assert(run_flags(step, start, flags));
        if max_iterations > 0 {
            assert(steps_to(step, states, flags, 0));
        }
    }
    CalcResult::Bounded
}

} // verus!
