//! Step counting for the Adam update rule.
//!
//! Adam divides its two running moments by `1 - beta^t`, where `t` counts the
//! batches that a layer has been updated with. A layer has two parameter
//! tensors and one clock for both: the update of the biases reads the clock and
//! the update of the weights, which comes second, reads it and moves it on, so
//! that within one batch both tensors are corrected with the same `t`.
use vstd::prelude::*;

verus! {

/// The parameter tensor of a layer that an update is for.
#[derive(Clone, Copy, Debug, PartialEq, Eq, Structural)]
pub enum Param {
    Weights,
    Biases,
}

/// The step that the clock shows once an update of `param` has read `t`.
pub open spec fn step_after(t: int, param: Param) -> int {
    match param {
        Param::Weights => t + 1,
        Param::Biases => t,
    }
}

/// The step that a clock started at `t` shows after the updates in `updates`,
/// taken in order.
pub open spec fn step_after_all(t: int, updates: Seq<Param>) -> int
    decreases updates.len(),
{
    if updates.len() == 0 {
        t
    } else {
        step_after(step_after_all(t, updates.drop_last()), updates.last())
    }
}

/// Number of weight updates in `updates`.
pub open spec fn weight_updates(updates: Seq<Param>) -> nat
    decreases updates.len(),
{
    if updates.len() == 0 {
        0
    } else {
        weight_updates(updates.drop_last()) + if updates.last() == Param::Weights {
            1nat
        } else {
            0nat
        }
    }
}

/// The step counter of one layer's Adam state. It starts at 1 and never goes
/// below that.
#[derive(Debug)]
pub struct AdamClock {
    t: i32,
}

impl AdamClock {
    #[verifier::type_invariant]
    spec fn positive(self) -> bool {
        self.t >= 1
    }

    /// The step that the next update is corrected with.
    pub closed spec fn step(self) -> int {
        self.t as int
    }

    /// A clock for a layer that has not been updated yet.
    pub fn new() -> (clock: Self)
        ensures
            clock.step() == 1,
    {
        AdamClock { t: 1 }
    }

    /// The exponent `t` of the bias correction of the next update.
    pub fn exponent(&self) -> (t: i32)
        ensures
            t == self.step(),
            t >= 1,
    {
        proof {
            use_type_invariant(self);
        }
        self.t
    }

    /// Whether the clock has reached the last step that it can show, after
    /// which the weights cannot be updated again.
    pub fn is_exhausted(&self) -> (b: bool)
        ensures
            b == (self.step() == i32::MAX),
    {
        self.t == i32::MAX
    }

    /// Reads the clock for an update of `param` and moves it on as that update
    /// requires. Returns the exponent that the update is corrected with.
    pub fn tick(&mut self, param: Param) -> (t: i32)
        requires
            param == Param::Weights ==> old(self).step() < i32::MAX,
        ensures
            t == old(self).step(),
            t >= 1,
            final(self).step() == step_after(old(self).step(), param),
    {
        proof {
            use_type_invariant(&*self);
        }
        let t: i32 = self.t;
        match param {
            Param::Weights => {
                self.t = t + 1;
            },
            Param::Biases => {},
        }
        t
    }
}

/// However many updates a layer has seen, its next update is corrected with 1
/// plus the number of weight updates among them.
pub proof fn lemma_step_counts_weight_updates(updates: Seq<Param>)
    ensures
        step_after_all(1, updates) == 1 + weight_updates(updates),
    decreases updates.len(),
{
    if updates.len() > 0 {
        lemma_step_counts_weight_updates(updates.drop_last());
    }
}

/// Within one batch, in which the biases are updated before the weights, both
/// updates are corrected with the same step, and the next batch with the step
/// after it.
pub proof fn lemma_one_step_per_batch(t: int)
    ensures
        step_after(t, Param::Biases) == t,
        step_after_all(t, seq![Param::Biases, Param::Weights]) == t + 1,
{
    let batch = seq![Param::Biases, Param::Weights];
    assert(batch.drop_last() =~= seq![Param::Biases]);
    assert(batch.drop_last().drop_last() =~= Seq::<Param>::empty());
    reveal_with_fuel(step_after_all, 3);
}

} // verus!
