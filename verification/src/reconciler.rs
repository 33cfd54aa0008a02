//! The reconcile loop, as a machine that is told what happened and answers
//! what to do next.
//!
//! The loop waits until the store of rules has been filled once. Then it
//! repeats a pass: take a snapshot, apply the configuration to the secret,
//! set the fingerprint on the deployment, sleep. One pass ends before the
//! next begins. A write that fails ends its pass; what failed is reported and
//! forgotten, and the next pass starts from a fresh snapshot. Nothing is
//! taken back: where the second write fails, the secret keeps its new text,
//! and the next pass writes both again.
//!
//! The machine performs none of this itself. Whoever drives it carries out
//! each `Action` and comes back with the `Event` that followed.

use crate::aggregate::{derived_entries, lemma_aggregate_ignores_arrival_order};
use crate::apply::{
    planned_update, DeploymentPatch, DeploymentPatchView, SecretPatch, SecretPatchView, Update,
};
use crate::context::{Context, ContextView};
use crate::document::{configuration_text, document, SerializeError};
use crate::resources::access_control_rule::{AccessControlRule, Rule};
use crate::sorting::{names_identify, rules_of};
use crate::yaml::fits;
use vstd::prelude::*;

verus! {

/// Where the loop stands.
#[derive(Debug, PartialEq, Eq)]
pub enum Phase {
    /// The store has not been filled yet.
    AwaitingStore,
    /// A snapshot has been asked for.
    Snapshot,
    /// The configuration is being applied to the secret; `next` is the write
    /// that follows once it is there.
    ApplyConfig { next: DeploymentPatch },
    /// The fingerprint is being set on the deployment.
    ApplyWorkloadAnnotation,
    /// Between two passes.
    Idle,
    /// The configuration could not be written as text. Nothing follows.
    Halted,
}

/// A `Phase` as plain values.
pub enum PhaseView {
    AwaitingStore,
    Snapshot,
    ApplyConfig { next: DeploymentPatchView },
    ApplyWorkloadAnnotation,
    Idle,
    Halted,
}

impl View for Phase {
    type V = PhaseView;

    open spec fn view(&self) -> PhaseView {
        match self {
            Phase::AwaitingStore => PhaseView::AwaitingStore,
            Phase::Snapshot => PhaseView::Snapshot,
            Phase::ApplyConfig { next } => PhaseView::ApplyConfig { next: next@ },
            Phase::ApplyWorkloadAnnotation => PhaseView::ApplyWorkloadAnnotation,
            Phase::Idle => PhaseView::Idle,
            Phase::Halted => PhaseView::Halted,
        }
    }
}

/// What happened since the last action.
#[derive(Debug, PartialEq, Eq)]
pub enum Event {
    /// The store has been filled for the first time.
    StoreReady,
    /// The snapshot that was asked for.
    Snapshot(Vec<AccessControlRule>),
    /// The write that was asked for is done.
    WriteSucceeded,
    /// The write that was asked for failed, and why.
    WriteFailed(String),
    /// The sleep that was asked for is over.
    TimerElapsed,
}

/// An `Event` as plain values.
pub enum EventView {
    StoreReady,
    Snapshot(Seq<Rule>),
    WriteSucceeded,
    WriteFailed(Seq<char>),
    TimerElapsed,
}

impl View for Event {
    type V = EventView;

    open spec fn view(&self) -> EventView {
        match self {
            Event::StoreReady => EventView::StoreReady,
            Event::Snapshot(rules) => EventView::Snapshot(rules_of(rules@)),
            Event::WriteSucceeded => EventView::WriteSucceeded,
            Event::WriteFailed(cause) => EventView::WriteFailed(cause@),
            Event::TimerElapsed => EventView::TimerElapsed,
        }
    }
}

/// What to do next.
#[derive(Debug, PartialEq, Eq)]
pub enum Action {
    /// Nothing: the event changes nothing.
    Ignore,
    /// Take a snapshot of the store and come back with it.
    TakeSnapshot,
    /// Apply the configuration to the secret.
    ApplyConfig(SecretPatch),
    /// Set the fingerprint on the deployment.
    AnnotateWorkload(DeploymentPatch),
    /// The pass is over: report the failure, if there was one, then sleep.
    Sleep { seconds: u64, failure: Option<String> },
    /// Give up: the configuration could not be written as text.
    Halt(SerializeError),
}

/// An `Action` as plain values. Of a `Halt` the reason is kept: the
/// document was too large, or the serializer failed. The serializer's words
/// are not.
pub enum ActionView {
    Ignore,
    TakeSnapshot,
    ApplyConfig(SecretPatchView),
    AnnotateWorkload(DeploymentPatchView),
    Sleep { seconds: u64, failure: Option<Seq<char>> },
    Halt { too_large: bool },
}

impl View for Action {
    type V = ActionView;

    open spec fn view(&self) -> ActionView {
        match self {
            Action::Ignore => ActionView::Ignore,
            Action::TakeSnapshot => ActionView::TakeSnapshot,
            Action::ApplyConfig(patch) => ActionView::ApplyConfig(patch@),
            Action::AnnotateWorkload(patch) => ActionView::AnnotateWorkload(patch@),
            Action::Sleep { seconds, failure } => ActionView::Sleep {
                seconds: *seconds,
                failure: match failure {
                    Some(cause) => Some(cause@),
                    None => None,
                },
            },
            Action::Halt(error) => ActionView::Halt { too_large: error is TooLarge },
        }
    }
}

/// The reconcile loop between two events.
#[derive(Debug, PartialEq, Eq)]
pub struct Reconciler {
    ctx: Context,
    interval: u64,
    phase: Phase,
}

/// A `Reconciler` as plain values.
pub struct ReconcilerView {
    pub ctx: ContextView,
    /// The seconds to sleep between two passes.
    pub interval: u64,
    pub phase: PhaseView,
}

impl View for Reconciler {
    type V = ReconcilerView;

    closed spec fn view(&self) -> ReconcilerView {
        ReconcilerView { ctx: self.ctx@, interval: self.interval, phase: self.phase@ }
    }
}

/// The end of a pass: back to `Idle`, with nothing kept of the pass.
pub open spec fn pass_ends(state: ReconcilerView, failure: Option<Seq<char>>) -> (
    ReconcilerView,
    ActionView,
) {
    (
        ReconcilerView { phase: PhaseView::Idle, ..state },
        ActionView::Sleep { seconds: state.interval, failure },
    )
}

/// The start of a pass.
pub open spec fn pass_starts(state: ReconcilerView) -> (ReconcilerView, ActionView) {
    (ReconcilerView { phase: PhaseView::Snapshot, ..state }, ActionView::TakeSnapshot)
}

/// What the loop does with a snapshot: plan both writes and begin with the
/// secret, or give up where the configuration has no text, because its
/// document is too large or the serializer fails on it.
pub open spec fn pass_plans(state: ReconcilerView, rules: Seq<Rule>) -> (
    ReconcilerView,
    ActionView,
) {
    match configuration_text(rules) {
        Some(text) => {
            let update = planned_update(state.ctx, text);
            (
                ReconcilerView {
                    phase: PhaseView::ApplyConfig { next: update.deployment },
                    ..state
                },
                ActionView::ApplyConfig(update.secret),
            )
        },
        None => (
            ReconcilerView { phase: PhaseView::Halted, ..state },
            ActionView::Halt { too_large: !fits(document(derived_entries(rules))) },
        ),
    }
}

/// The step of the loop: the state after an event, and what to do next. An
/// event that the state does not wait for changes nothing.
pub open spec fn next(state: ReconcilerView, event: EventView) -> (ReconcilerView, ActionView) {
    match (state.phase, event) {
        (PhaseView::AwaitingStore, EventView::StoreReady) => pass_starts(state),
        (PhaseView::Snapshot, EventView::Snapshot(rules)) => pass_plans(state, rules),
        (PhaseView::ApplyConfig { next }, EventView::WriteSucceeded) => (
            ReconcilerView { phase: PhaseView::ApplyWorkloadAnnotation, ..state },
            ActionView::AnnotateWorkload(next),
        ),
        (PhaseView::ApplyConfig { next }, EventView::WriteFailed(cause)) => pass_ends(
            state,
            Some(cause),
        ),
        (PhaseView::ApplyWorkloadAnnotation, EventView::WriteSucceeded) => pass_ends(state, None),
        (PhaseView::ApplyWorkloadAnnotation, EventView::WriteFailed(cause)) => pass_ends(
            state,
            Some(cause),
        ),
        (PhaseView::Idle, EventView::TimerElapsed) => pass_starts(state),
        _ => (state, ActionView::Ignore),
    }
}

/// The state after a run of events.
pub open spec fn run(state: ReconcilerView, events: Seq<EventView>) -> ReconcilerView
    decreases events.len(),
{
    if events.len() == 0 {
        state
    } else {
        next(run(state, events.drop_last()), events.last()).0
    }
}

/// The action that answers the last event of a run.
pub open spec fn answer(state: ReconcilerView, events: Seq<EventView>) -> ActionView
    recommends
        events.len() > 0,
{
    next(run(state, events.drop_last()), events.last()).1
}

/// A pass is under way: it has begun and not yet ended.
pub open spec fn in_a_pass(phase: PhaseView) -> bool {
    phase is Snapshot || phase is ApplyConfig || phase is ApplyWorkloadAnnotation
}

/// Until the store reports that it is ready, nothing happens: whatever else
/// the loop is told, a timer that ran out included, it keeps waiting and
/// asks for nothing.
pub proof fn lemma_waits_for_store(state: ReconcilerView, events: Seq<EventView>)
    requires
        state.phase is AwaitingStore,
        forall|i: int| 0 <= i < events.len() ==> !(events[i] is StoreReady),
    ensures
        run(state, events) == state,
        forall|n: int| 0 < n <= events.len() ==> answer(state, #[trigger] events.take(n)) is Ignore,
    decreases events.len(),
{
    if events.len() > 0 {
        let before = events.drop_last();
        lemma_waits_for_store(state, before);
        assert forall|n: int| 0 < n <= events.len() implies answer(
            state,
            #[trigger] events.take(n),
        ) is Ignore by {
            if n < events.len() {
                assert(events.take(n) =~= before.take(n));
            } else {
                assert(events.take(n) =~= events);
            }
        }
    }
}

/// The first pass begins when the store reports that it is ready.
pub proof fn lemma_store_ready_starts_first_pass(state: ReconcilerView)
    requires
        state.phase is AwaitingStore,
    ensures
        next(state, EventView::StoreReady) == pass_starts(state),
{
}

/// While a pass is under way no other begins: a timer that runs out, or a
/// store that reports ready again, changes nothing.
pub proof fn lemma_passes_do_not_overlap(state: ReconcilerView, event: EventView)
    requires
        in_a_pass(state.phase),
        event is TimerElapsed || event is StoreReady,
    ensures
        next(state, event) == (state, ActionView::Ignore),
{
}

/// The deployment is written only after the secret of the same pass has
/// been: a pass whose first write fails makes no second.
pub proof fn lemma_annotation_follows_secret(state: ReconcilerView, event: EventView)
    requires
        next(state, event).1 is AnnotateWorkload,
    ensures
        state.phase is ApplyConfig,
        event is WriteSucceeded,
        next(state, event).1 == ActionView::AnnotateWorkload(state.phase->next),
{
}

/// A write that fails ends its pass and nothing more. The loop sleeps as
/// after any pass, the next pass begins when the timer runs out, and what
/// it does with its snapshot is what a loop does that never saw a failure.
pub proof fn lemma_failed_write_is_survived(
    state: ReconcilerView,
    cause: Seq<char>,
    rules: Seq<Rule>,
)
    requires
        state.phase is ApplyConfig || state.phase is ApplyWorkloadAnnotation,
    ensures
        ({
            let failed = next(state, EventView::WriteFailed(cause));
            let woken = next(failed.0, EventView::TimerElapsed);
            &&& failed == pass_ends(state, Some(cause))
            &&& woken == pass_starts(failed.0)
            &&& next(woken.0, EventView::Snapshot(rules)) == pass_plans(
                ReconcilerView { phase: PhaseView::Snapshot, ..state },
                rules,
            )
        }),
{
}

/// Only a configuration without text halts the loop. No write that fails
/// and no event out of turn does.
pub proof fn lemma_only_a_missing_text_halts(state: ReconcilerView, event: EventView)
    requires
        !(state.phase is Halted),
        next(state, event).0.phase is Halted,
    ensures
        state.phase is Snapshot,
        event matches EventView::Snapshot(rules) && configuration_text(rules) is None,
{
}

/// What a pass asks for depends on its snapshot through the derived
/// configuration alone: a pass over rules that derive the configuration of
/// the pass before asks for the same two writes again, value for value.
pub proof fn lemma_same_configuration_same_writes(
    state: ReconcilerView,
    first: Seq<Rule>,
    second: Seq<Rule>,
)
    requires
        derived_entries(first) == derived_entries(second),
    ensures
        pass_plans(state, first) == pass_plans(state, second),
{
}

/// What a pass asks for does not depend on the order in which the snapshot
/// lists the rules, as long as rules of one name are one rule.
pub proof fn lemma_pass_ignores_arrival_order(
    state: ReconcilerView,
    first: Seq<Rule>,
    second: Seq<Rule>,
)
    requires
        first.to_multiset() == second.to_multiset(),
        names_identify(first),
    ensures
        pass_plans(state, first) == pass_plans(state, second),
{
    lemma_aggregate_ignores_arrival_order(first, second);
}

/// A pass in which both writes succeed: the text of the configuration goes
/// to the secret, the fingerprint of that same text to the deployment, and
/// the loop sleeps for its interval.
pub proof fn lemma_full_pass(state: ReconcilerView, rules: Seq<Rule>)
    requires
        state.phase is Snapshot,
        configuration_text(rules) is Some,
    ensures
        ({
            let update = planned_update(state.ctx, configuration_text(rules)->0);
            let events = seq![
                EventView::Snapshot(rules),
                EventView::WriteSucceeded,
                EventView::WriteSucceeded,
            ];
            &&& answer(state, events.take(1)) == ActionView::ApplyConfig(update.secret)
            &&& answer(state, events.take(2)) == ActionView::AnnotateWorkload(update.deployment)
            &&& answer(state, events.take(3)) == (ActionView::Sleep {
                seconds: state.interval,
                failure: None,
            })
            &&& run(state, events) == (ReconcilerView { phase: PhaseView::Idle, ..state })
        }),
{
    let events = seq![
        EventView::Snapshot(rules),
        EventView::WriteSucceeded,
        EventView::WriteSucceeded,
    ];
    let one = events.take(1);
    let two = events.take(2);
    assert(one.drop_last() =~= Seq::<EventView>::empty());
    assert(two.drop_last() =~= one);
    assert(events.drop_last() =~= two);
    assert(events.take(3) =~= events);
}

impl Reconciler {
    /// A loop that has not started: it waits for the store.
    pub fn new(ctx: Context, interval: u64) -> (reconciler: Self)
        ensures
            reconciler@ == (ReconcilerView {
                ctx: ctx@,
                interval,
                phase: PhaseView::AwaitingStore,
            }),
    {
        Reconciler { ctx, interval, phase: Phase::AwaitingStore }
    }

    /// Where the loop stands.
    pub fn phase(&self) -> (phase: &Phase)
        ensures
            phase@ == self@.phase,
    {
        &self.phase
    }

    /// The names that the loop works with.
    pub fn context(&self) -> (ctx: &Context)
        ensures
            ctx@ == self@.ctx,
    {
        &self.ctx
    }

    /// The seconds that the loop sleeps between two passes.
    pub fn interval(&self) -> (interval: u64)
        ensures
            interval == self@.interval,
    {
        self.interval
    }

    /// Takes the event that followed the last action, and answers with the
    /// loop after it and the action to carry out.
    pub fn step(self, event: Event) -> (after: (Reconciler, Action))
        ensures
            (after.0@, after.1@) == next(self@, event@),
    {
        let Reconciler { ctx, interval, phase } = self;
        match (phase, event) {
            (Phase::AwaitingStore, Event::StoreReady) => (
                Reconciler { ctx, interval, phase: Phase::Snapshot },
                Action::TakeSnapshot,
            ),
            (Phase::Snapshot, Event::Snapshot(rules)) => {
                match AccessControlRule::update_acl(rules, &ctx) {
                    Ok(update) => {
                        let Update { secret, deployment } = update;
                        (
                            Reconciler {
                                ctx,
                                interval,
                                phase: Phase::ApplyConfig { next: deployment },
                            },
                            Action::ApplyConfig(secret),
                        )
                    },
                    Err(error) => (
                        Reconciler { ctx, interval, phase: Phase::Halted },
                        Action::Halt(error),
                    ),
                }
            },
            (Phase::ApplyConfig { next }, Event::WriteSucceeded) => (
                Reconciler { ctx, interval, phase: Phase::ApplyWorkloadAnnotation },
                Action::AnnotateWorkload(next),
            ),
            (Phase::ApplyConfig { next }, Event::WriteFailed(cause)) => (
                Reconciler { ctx, interval, phase: Phase::Idle },
                Action::Sleep { seconds: interval, failure: Some(cause) },
            ),
            (Phase::ApplyWorkloadAnnotation, Event::WriteSucceeded) => (
                Reconciler { ctx, interval, phase: Phase::Idle },
                Action::Sleep { seconds: interval, failure: None },
            ),
            (Phase::ApplyWorkloadAnnotation, Event::WriteFailed(cause)) => (
                Reconciler { ctx, interval, phase: Phase::Idle },
                Action::Sleep { seconds: interval, failure: Some(cause) },
            ),
            (Phase::Idle, Event::TimerElapsed) => (
                Reconciler { ctx, interval, phase: Phase::Snapshot },
                Action::TakeSnapshot,
            ),
            (phase, _) => (Reconciler { ctx, interval, phase }, Action::Ignore),
        }
    }
}

} // verus!
