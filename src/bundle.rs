//! The lifecycle of one bundle as a state machine from events to actions,
//! and the per-descriptor cache of operator templates.

use vstd::prelude::*;

verus! {

#[derive(Clone, Copy, Debug, PartialEq, Eq, Structural)]
pub enum BundleState {
    Created,
    Started,
    Processing,
    /// Operators are being finished, leaf toward root; `failed` records that
    /// the bundle ends in `Failed` whatever happens next.
    Finishing { failed: bool },
    Completed,
    Failed,
}

#[derive(Clone, Copy, Debug, PartialEq, Eq, Structural)]
pub enum BundleEvent {
    Start,
    /// An element arrived for processing.
    Element,
    /// The element function failed on an element.
    ElementFailed,
    /// The input ended.
    InputDone,
    /// The control path cancelled the bundle.
    Cancel,
    /// Every operator has finished.
    Finished,
}

#[derive(Clone, Copy, Debug, PartialEq, Eq, Structural)]
pub enum BundleAction {
    /// Start the operators, root toward leaves.
    StartOperators,
    ProcessElement,
    /// Finish the operators, leaf toward root.
    FinishOperators,
    /// Abandon any blocked channel call made for the bundle, then finish the
    /// operators.
    AbandonAndFinish,
    ReportCompleted,
    ReportFailed,
    /// The event does not concern the bundle in its state.
    Ignore,
}

/// The transition table of a bundle.
pub open spec fn bundle_next(s: BundleState, e: BundleEvent) -> (BundleState, BundleAction) {
    match s {
        BundleState::Created => match e {
            BundleEvent::Start => (BundleState::Started, BundleAction::StartOperators),
            BundleEvent::Cancel => (BundleState::Failed, BundleAction::ReportFailed),
            _ => (s, BundleAction::Ignore),
        },
        BundleState::Started | BundleState::Processing => match e {
            BundleEvent::Element => (BundleState::Processing, BundleAction::ProcessElement),
            BundleEvent::InputDone => (BundleState::Finishing { failed: false }, BundleAction::FinishOperators),
            BundleEvent::ElementFailed => (BundleState::Finishing { failed: true }, BundleAction::FinishOperators),
            BundleEvent::Cancel => (BundleState::Finishing { failed: true }, BundleAction::AbandonAndFinish),
            _ => (s, BundleAction::Ignore),
        },
        BundleState::Finishing { failed } => match e {
            BundleEvent::Finished => if failed {
                (BundleState::Failed, BundleAction::ReportFailed)
            } else {
                (BundleState::Completed, BundleAction::ReportCompleted)
            },
            BundleEvent::Cancel => (BundleState::Finishing { failed: true }, BundleAction::AbandonAndFinish),
            BundleEvent::ElementFailed => (BundleState::Finishing { failed: true }, BundleAction::Ignore),
            _ => (s, BundleAction::Ignore),
        },
        BundleState::Completed | BundleState::Failed => (s, BundleAction::Ignore),
    }
}

/// The state after `events`, from `s`.
pub open spec fn bundle_run(s: BundleState, events: Seq<BundleEvent>) -> BundleState
    decreases events.len(),
{
    if events.len() == 0 {
        s
    } else {
        bundle_run(bundle_next(s, events[0]).0, events.drop_first())
    }
}

/// Takes the bundle from state `s` on event `e`; returns the next state and
/// what the harness must do.
pub fn bundle_step(s: BundleState, e: BundleEvent) -> (r: (BundleState, BundleAction))
    ensures
        r == bundle_next(s, e),
{
    match s {
        BundleState::Created => match e {
            BundleEvent::Start => (BundleState::Started, BundleAction::StartOperators),
            BundleEvent::Cancel => (BundleState::Failed, BundleAction::ReportFailed),
            _ => (s, BundleAction::Ignore),
        },
        BundleState::Started | BundleState::Processing => match e {
            BundleEvent::Element => (BundleState::Processing, BundleAction::ProcessElement),
            BundleEvent::InputDone => (BundleState::Finishing { failed: false }, BundleAction::FinishOperators),
            BundleEvent::ElementFailed => (BundleState::Finishing { failed: true }, BundleAction::FinishOperators),
            BundleEvent::Cancel => (BundleState::Finishing { failed: true }, BundleAction::AbandonAndFinish),
            _ => (s, BundleAction::Ignore),
        },
        BundleState::Finishing { failed } => match e {
            BundleEvent::Finished => if failed {
                (BundleState::Failed, BundleAction::ReportFailed)
            } else {
                (BundleState::Completed, BundleAction::ReportCompleted)
            },
            BundleEvent::Cancel => (BundleState::Finishing { failed: true }, BundleAction::AbandonAndFinish),
            BundleEvent::ElementFailed => (BundleState::Finishing { failed: true }, BundleAction::Ignore),
            _ => (s, BundleAction::Ignore),
        },
        BundleState::Completed | BundleState::Failed => (s, BundleAction::Ignore),
    }
}

/// A bundle finishing on its way to `Failed`.
pub open spec fn failing() -> BundleState {
    BundleState::Finishing { failed: true }
}

/// Once the bundle is finishing towards failure, no sequence of events
/// makes it complete: it stays finishing or has failed.
proof fn lemma_failing_stays_failing(events: Seq<BundleEvent>)
    ensures
        bundle_run(failing(), events) == failing() || bundle_run(failing(), events)
            == BundleState::Failed,
    decreases events.len(),
{
    if events.len() > 0 {
        let n = bundle_next(failing(), events[0]).0;
        lemma_failing_stays_failing(events.drop_first());
        if n == BundleState::Failed {
            lemma_failed_is_final(events.drop_first());
        }
    }
}

proof fn lemma_failed_is_final(events: Seq<BundleEvent>)
    ensures
        bundle_run(BundleState::Failed, events) == BundleState::Failed,
    decreases events.len(),
{
    if events.len() > 0 {
        lemma_failed_is_final(events.drop_first());
    }
}

/// Cancelling a started or processing bundle abandons its blocked channel
/// call at once and drives it down the finishing path; the next `Finished`
/// ends it in `Failed`, and no later events can make it complete.
pub proof fn lemma_cancel_ends_in_failure(s: BundleState, later: Seq<BundleEvent>)
    requires
        s == BundleState::Started || s == BundleState::Processing,
    ensures
        bundle_next(s, BundleEvent::Cancel) == (failing(), BundleAction::AbandonAndFinish),
        bundle_next(bundle_next(s, BundleEvent::Cancel).0, BundleEvent::Finished).0
            == BundleState::Failed,
        bundle_run(bundle_next(s, BundleEvent::Cancel).0, later) != BundleState::Completed,
{
    lemma_failing_stays_failing(later);
}

/// Which stage descriptors have had their operator template built. A
/// template is built at most once per descriptor id.
pub struct TemplateCache {
    built: Vec<u64>,
}

impl View for TemplateCache {
    type V = Seq<u64>;

    closed spec fn view(&self) -> Seq<u64> {
        self.built@
    }
}

impl TemplateCache {
    pub open spec fn wf(&self) -> bool {
        self@.no_duplicates()
    }

    pub fn new() -> (r: TemplateCache)
        ensures
            r.wf(),
            r@.len() == 0,
    {
        TemplateCache { built: Vec::new() }
    }

    /// Returns the template for `id`, building it only when the cache has
    /// none: the result is `true` exactly when a construction happened.
    pub fn get_or_build(&mut self, id: u64) -> (constructed: bool)
        requires
            old(self).wf(),
        ensures
            final(self).wf(),
            constructed == !old(self)@.contains(id),
            final(self)@ == if constructed {
                old(self)@.push(id)
            } else {
                old(self)@
            },
    {
        let mut i: usize = 0;
        while i < self.built.len()
            invariant
                i <= self@.len(),
                self@ == old(self)@,
                old(self).wf(),
                forall|j: int| 0 <= j < i ==> self@[j] != id,
            decreases self@.len() - i,
        {
            if self.built[i] == id {
                return false;
            }
            i = i + 1;
        }
        self.built.push(id);
        proof {
            assert forall|a: int, b: int| 0 <= a < b < self@.len() implies self@[a] != self@[b] by {
                if b == self@.len() - 1 {
                    assert(old(self)@[a] != id);
                } else {
                    assert(old(self)@[a] != old(self)@[b]);
                }
            }
        }
        true
    }

    /// The number of templates built so far.
    pub fn construction_count(&self) -> (r: usize)
        ensures
            r == self@.len(),
    {
        self.built.len()
    }
}

/// Two requests for the same descriptor id on a cold cache build the
/// template once: the first request constructs it and the second finds it.
pub proof fn lemma_single_construction(cache: Seq<u64>, id: u64)
    requires
        !cache.contains(id),
    ensures
        cache.push(id).contains(id),
        cache.push(id).len() == cache.len() + 1,
{
    assert(cache.push(id)[cache.len() as int] == id);
}

} // verus!
