//! The life cycle of a gradient accumulator within one batch.
//!
//! An accumulator starts a batch zeroed, takes the gradient of one sample with
//! every backward pass, and is consumed by the update that ends the batch. An
//! update needs at least one sample, an accumulator is consumed once, and a
//! consumed accumulator takes no further sample until it is zeroed again.
//! What an accumulator holds is a sum over its samples, so [`Batch::samples`]
//! is the number to divide by for their mean.
use vstd::prelude::*;

verus! {

/// What is done with an accumulator.
#[derive(Clone, Copy, Debug, PartialEq, Eq, Structural)]
pub enum Event {
    /// The backward pass of one sample adds that sample's gradient.
    BackProp,
    /// The update at the end of a batch scales the sum and hands it to the
    /// optimizer.
    Apply,
    /// Every sum is set back to zero.
    Rezero,
}

/// Why an event is refused.
#[derive(Clone, Copy, Debug, PartialEq, Eq, Structural)]
pub enum Misuse {
    /// An update of a batch without a sample.
    NothingToApply,
    /// A backward pass or an update on an accumulator that an update has
    /// consumed.
    AlreadyApplied,
    /// A backward pass on an accumulator whose sample count cannot grow.
    Full,
}

/// Where an accumulator stands in its batch.
#[derive(Clone, Copy, Debug, PartialEq, Eq, Structural)]
pub enum Batch {
    /// All sums are zero and no sample has been added.
    Zeroed,
    /// The sums hold the gradients of `samples` samples.
    Accumulating { samples: u64 },
    /// An update has consumed the sums of `samples` samples.
    Consumed { samples: u64 },
}

impl Batch {
    /// An accumulating or consumed batch has at least one sample.
    pub open spec fn wf(self) -> bool {
        match self {
            Batch::Zeroed => true,
            Batch::Accumulating { samples } => samples >= 1,
            Batch::Consumed { samples } => samples >= 1,
        }
    }

    /// Number of samples that the sums of the accumulator hold.
    pub open spec fn count(self) -> int {
        match self {
            Batch::Zeroed => 0,
            Batch::Accumulating { samples } => samples as int,
            Batch::Consumed { samples } => samples as int,
        }
    }

    /// The state after `event`, or the reason why `event` is refused.
    pub open spec fn after(self, event: Event) -> Result<Batch, Misuse> {
        match (self, event) {
            (_, Event::Rezero) => Ok(Batch::Zeroed),
            (Batch::Zeroed, Event::BackProp) => Ok(Batch::Accumulating { samples: 1 }),
            (Batch::Accumulating { samples }, Event::BackProp) => if samples < u64::MAX {
                Ok(Batch::Accumulating { samples: (samples + 1) as u64 })
            } else {
                Err(Misuse::Full)
            },
            (Batch::Consumed { .. }, Event::BackProp) => Err(Misuse::AlreadyApplied),
            (Batch::Zeroed, Event::Apply) => Err(Misuse::NothingToApply),
            (Batch::Accumulating { samples }, Event::Apply) => Ok(Batch::Consumed { samples }),
            (Batch::Consumed { .. }, Event::Apply) => Err(Misuse::AlreadyApplied),
        }
    }

    /// The state after the events of `trace`, taken in order, or the reason why
    /// the first refused event among them is refused.
    pub open spec fn after_all(self, trace: Seq<Event>) -> Result<Batch, Misuse>
        decreases trace.len(),
    {
        if trace.len() == 0 {
            Ok(self)
        } else {
            match self.after_all(trace.drop_last()) {
                Ok(before) => before.after(trace.last()),
                Err(misuse) => Err(misuse),
            }
        }
    }

    /// The state of an accumulator at the start of a batch.
    pub fn new() -> (batch: Self)
        ensures
            batch == Batch::Zeroed,
    {
        Batch::Zeroed
    }

    /// Number of samples that the sums of the accumulator hold.
    pub fn samples(&self) -> (n: u64)
        ensures
            n == self.count(),
    {
        match self {
            Batch::Zeroed => 0,
            Batch::Accumulating { samples } => *samples,
            Batch::Consumed { samples } => *samples,
        }
    }

    /// The state after `event`, or the reason why `event` is refused.
    pub fn step(&self, event: Event) -> (r: Result<Batch, Misuse>)
        ensures
            r == self.after(event),
            self.wf() ==> (r matches Ok(next) ==> next.wf()),
    {
        match event {
            Event::Rezero => Ok(Batch::Zeroed),
            Event::BackProp => match self {
                Batch::Zeroed => Ok(Batch::Accumulating { samples: 1 }),
                Batch::Accumulating { samples } => if *samples < u64::MAX {
                    Ok(Batch::Accumulating { samples: *samples + 1 })
                } else {
                    Err(Misuse::Full)
                },
                Batch::Consumed { .. } => Err(Misuse::AlreadyApplied),
            },
            Event::Apply => match self {
                Batch::Zeroed => Err(Misuse::NothingToApply),
                Batch::Accumulating { samples } => Ok(Batch::Consumed { samples: *samples }),
                Batch::Consumed { .. } => Err(Misuse::AlreadyApplied),
            },
        }
    }

    /// Takes `event` if it is allowed, and leaves the state as it is if not.
    pub fn record(&mut self, event: Event) -> (r: Result<(), Misuse>)
        ensures
            match old(self).after(event) {
                Ok(next) => r == Ok::<(), Misuse>(()) && *final(self) == next,
                Err(misuse) => r == Err::<(), Misuse>(misuse) && *final(self) == *old(self),
            },
            old(self).wf() ==> final(self).wf(),
    {
        match self.step(event) {
            Ok(next) => {
                *self = next;
                Ok(())
            },
            Err(misuse) => Err(misuse),
        }
    }
}

/// A trace of `n` backward passes.
pub open spec fn back_props(n: nat) -> Seq<Event> {
    Seq::new(n, |i: int| Event::BackProp)
}

/// An allowed event leads from a well-formed state to a well-formed state.
pub proof fn lemma_after_keeps_wf(batch: Batch, event: Event)
    requires
        batch.wf(),
    ensures
        batch.after(event) matches Ok(next) ==> next.wf(),
{
}

/// Where a whole trace is allowed, so is each of its beginnings, and the
/// states on the way are well-formed when the first is.
pub proof fn lemma_prefix_allowed(batch: Batch, trace: Seq<Event>, len: int)
    requires
        batch.after_all(trace) is Ok,
        0 <= len <= trace.len(),
    ensures
        batch.after_all(trace.take(len)) is Ok,
        batch.wf() ==> batch.after_all(trace.take(len))->Ok_0.wf(),
    decreases trace.len(), len,
{
    if len == trace.len() {
        assert(trace.take(len) =~= trace);
    } else {
        assert(trace.drop_last().take(len) =~= trace.take(len));
        lemma_prefix_allowed(batch, trace.drop_last(), len);
    }
    if batch.wf() && len > 0 {
        let head = trace.take(len);
        assert(head.drop_last() =~= trace.take(len - 1));
        lemma_prefix_allowed(batch, trace, len - 1);
        lemma_after_keeps_wf(batch.after_all(head.drop_last())->Ok_0, head.last());
    }
}

/// In an allowed trace an update comes directly after a backward pass: at the
/// start of the trace the batch is accumulating already, anywhere else the
/// event before the update is a backward pass. So no batch is applied without
/// a sample, and none is applied twice.
pub proof fn lemma_apply_follows_back_prop(batch: Batch, trace: Seq<Event>, at: int)
    requires
        batch.after_all(trace) is Ok,
        0 <= at < trace.len(),
        trace[at] == Event::Apply,
    ensures
        at == 0 ==> batch is Accumulating,
        at > 0 ==> trace[at - 1] == Event::BackProp,
{
    let upto = trace.take(at + 1);
    lemma_prefix_allowed(batch, trace, at + 1);
    assert(upto.drop_last() =~= trace.take(at));
    assert(upto.last() == Event::Apply);
    let before = batch.after_all(trace.take(at))->Ok_0;
    assert(before is Accumulating);
    if at > 0 {
        let head = trace.take(at);
        assert(head.drop_last() =~= trace.take(at - 1));
        assert(head.last() == trace[at - 1]);
    }
}

/// In an allowed trace no backward pass comes directly after an update: a
/// consumed accumulator is zeroed before it takes a sample again.
pub proof fn lemma_back_prop_not_after_apply(batch: Batch, trace: Seq<Event>, at: int)
    requires
        batch.after_all(trace) is Ok,
        0 <= at < trace.len(),
        trace[at] == Event::BackProp,
    ensures
        at == 0 ==> !(batch is Consumed),
        at > 0 ==> trace[at - 1] != Event::Apply,
{
    let upto = trace.take(at + 1);
    lemma_prefix_allowed(batch, trace, at + 1);
    assert(upto.drop_last() =~= trace.take(at));
    assert(upto.last() == Event::BackProp);
    let before = batch.after_all(trace.take(at))->Ok_0;
    assert(!(before is Consumed));
    if at > 0 {
        let head = trace.take(at);
        assert(head.drop_last() =~= trace.take(at - 1));
        assert(head.last() == trace[at - 1]);
    }
}

/// A zeroed accumulator that takes `n` samples, one at least, counts `n`
/// samples, and the update that follows is allowed and consumes all `n`.
pub proof fn lemma_full_batch(n: nat)
    requires
        1 <= n <= u64::MAX,
    ensures
        Batch::Zeroed.after_all(back_props(n)) == Ok::<Batch, Misuse>(
            Batch::Accumulating { samples: n as u64 },
        ),
        Batch::Zeroed.after_all(back_props(n).push(Event::Apply)) == Ok::<Batch, Misuse>(
            Batch::Consumed { samples: n as u64 },
        ),
    decreases n,
{
    let trace = back_props(n);
    assert(trace.drop_last() =~= back_props((n - 1) as nat));
    if n == 1 {
        assert(trace.drop_last().len() == 0);
    } else {
        lemma_full_batch((n - 1) as nat);
    }
    assert(trace.push(Event::Apply).drop_last() =~= trace);
}

} // verus!
