//! Live effects: applied at once, numbered in order, and compensated on abort.

use vstd::prelude::*;
use crate::component::binding::{BindingAbortReason, BindingOrigin, BindingPhase, OriginModel};
use crate::component::channels::{LaneUpdate, StreamUpdate, TurnChannels, TurnEmission};
use crate::component::channels::UpdateModel;
use crate::component::identity::{AttemptModel, ProviderAttemptIdentity};

verus! {

/// Model of [`LiveEffectContext`].
pub struct LiveContextModel {
    pub origin: OriginModel,
    pub phase: BindingPhase,
    pub sequence: u64,
}

/// Where a live effect comes from, and its number within the attempt.
#[derive(Debug)]
pub struct LiveEffectContext {
    pub(crate) origin: BindingOrigin,
    pub(crate) phase: BindingPhase,
    pub(crate) sequence: u64,
}

impl View for LiveEffectContext {
    type V = LiveContextModel;

    open(crate) spec fn view(&self) -> LiveContextModel {
        LiveContextModel { origin: self.origin@, phase: self.phase, sequence: self.sequence }
    }
}

impl LiveEffectContext {
    pub fn origin(&self) -> (value: &BindingOrigin)
        ensures
            value@ == self@.origin,
    {
        &self.origin
    }

    pub fn phase(&self) -> (value: BindingPhase)
        ensures
            value == self@.phase,
    {
        self.phase
    }

    pub fn sequence(&self) -> (value: u64)
        ensures
            value == self@.sequence,
    {
        self.sequence
    }
}

impl Clone for LiveEffectContext {
    fn clone(&self) -> (copy: Self)
        ensures
            copy@ == self@,
    {
        Self { origin: self.origin.clone(), phase: self.phase, sequence: self.sequence }
    }
}

impl PartialEq for LiveEffectContext {
    fn eq(&self, other: &Self) -> (equal: bool) {
        self.origin == other.origin && self.phase == other.phase && self.sequence == other.sequence
    }
}

impl Eq for LiveEffectContext {

}

impl vstd::std_specs::cmp::PartialEqSpecImpl for LiveEffectContext {
    open spec fn obeys_eq_spec() -> bool {
        true
    }

    open spec fn eq_spec(&self, other: &Self) -> bool {
        self@ == other@
    }
}

/// Model of [`LiveAbortContext`].
pub struct LiveAbortModel {
    pub identity: AttemptModel,
    pub reason: BindingAbortReason,
    pub applied_effects: u64,
}

/// What the host is told when the live effects of an attempt are aborted.
#[derive(Debug)]
pub struct LiveAbortContext {
    pub(crate) identity: ProviderAttemptIdentity,
    pub(crate) reason: BindingAbortReason,
    pub(crate) applied_effects: u64,
}

impl View for LiveAbortContext {
    type V = LiveAbortModel;

    open(crate) spec fn view(&self) -> LiveAbortModel {
        LiveAbortModel {
            identity: self.identity@,
            reason: self.reason,
            applied_effects: self.applied_effects,
        }
    }
}

impl LiveAbortContext {
    pub fn identity(&self) -> (value: &ProviderAttemptIdentity)
        ensures
            value@ == self@.identity,
    {
        &self.identity
    }

    pub fn reason(&self) -> (value: BindingAbortReason)
        ensures
            value == self@.reason,
    {
        self.reason
    }

    pub fn applied_effects(&self) -> (value: u64)
        ensures
            value == self@.applied_effects,
    {
        self.applied_effects
    }
}

impl Clone for LiveAbortContext {
    fn clone(&self) -> (copy: Self)
        ensures
            copy@ == self@,
    {
        Self {
            identity: self.identity.clone(),
            reason: self.reason,
            applied_effects: self.applied_effects,
        }
    }
}

impl PartialEq for LiveAbortContext {
    fn eq(&self, other: &Self) -> (equal: bool) {
        self.identity == other.identity
            && self.reason == other.reason
            && self.applied_effects == other.applied_effects
    }
}

impl Eq for LiveAbortContext {

}

impl vstd::std_specs::cmp::PartialEqSpecImpl for LiveAbortContext {
    open spec fn obeys_eq_spec() -> bool {
        true
    }

    open spec fn eq_spec(&self, other: &Self) -> bool {
        self@ == other@
    }
}

/// What the host answers to an abort of live effects.
#[derive(Debug, Clone, Copy, PartialEq, Eq, Structural)]
pub enum LiveEffectAbortAck {
    NoEffectsApplied,
    CompensationCompleted,
}

/// A host without live effects.
#[derive(Debug, Clone, Copy, PartialEq, Eq, Structural)]
pub struct NoLiveEffects;

impl NoLiveEffects {
    /// Nothing was applied, so nothing is undone.
    pub fn abort(&self, context: &LiveAbortContext) -> (acknowledgement: LiveEffectAbortAck)
        ensures
            acknowledgement == LiveEffectAbortAck::NoEffectsApplied,
    {
        LiveEffectAbortAck::NoEffectsApplied
    }
}

/// What the host reports as the failure of a live effect.
#[derive(Debug)]
pub struct LiveEffectFailure<E> {
    pub(crate) source: E,
}

impl<E> LiveEffectFailure<E> {
    /// The reported error.
    pub open(crate) spec fn error(self) -> E {
        self.source
    }

    pub fn new(error: E) -> (failure: Self)
        ensures
            failure.error() == error,
    {
        Self { source: error }
    }

    pub fn source_error(&self) -> (error: &E)
        ensures
            *error == self.error(),
    {
        &self.source
    }
}

/// A live effect that failed.
#[derive(Debug)]
pub struct LiveEffectFault<E> {
    pub(crate) context: LiveEffectContext,
    pub(crate) source: LiveEffectFailure<E>,
}

/// Model of [`LiveEffectFault`].
pub struct LiveEffectFaultModel<E> {
    pub context: LiveContextModel,
    pub error: E,
}

impl<E> View for LiveEffectFault<E> {
    type V = LiveEffectFaultModel<E>;

    open(crate) spec fn view(&self) -> LiveEffectFaultModel<E> {
        LiveEffectFaultModel { context: self.context@, error: self.source.error() }
    }
}

impl<E> LiveEffectFault<E> {
    pub fn context(&self) -> (context: &LiveEffectContext)
        ensures
            context@ == self@.context,
    {
        &self.context
    }

    pub fn source_failure(&self) -> (failure: &LiveEffectFailure<E>)
        ensures
            failure.error() == self@.error,
    {
        &self.source
    }
}

/// An abort of live effects that failed.
#[derive(Debug)]
pub struct LiveAbortFault<E> {
    pub(crate) context: LiveAbortContext,
    pub(crate) source: LiveEffectFailure<E>,
}

/// Model of [`LiveAbortFault`].
pub struct LiveAbortFaultModel<E> {
    pub context: LiveAbortModel,
    pub error: E,
}

impl<E> View for LiveAbortFault<E> {
    type V = LiveAbortFaultModel<E>;

    open(crate) spec fn view(&self) -> LiveAbortFaultModel<E> {
        LiveAbortFaultModel { context: self.context@, error: self.source.error() }
    }
}

impl<E> LiveAbortFault<E> {
    pub fn context(&self) -> (context: &LiveAbortContext)
        ensures
            context@ == self@.context,
    {
        &self.context
    }

    pub fn source_failure(&self) -> (failure: &LiveEffectFailure<E>)
        ensures
            failure.error() == self@.error,
    {
        &self.source
    }
}

/// What became of an abort of live effects.
#[derive(Debug)]
pub enum LiveAbortOutcome<E> {
    Acknowledged(LiveEffectAbortAck),
    Failed(LiveAbortFault<E>),
}

impl<E> LiveAbortOutcome<E> {
    pub fn acknowledgement(&self) -> (acknowledgement: Option<LiveEffectAbortAck>)
        ensures
            acknowledgement == match *self {
                LiveAbortOutcome::Acknowledged(acknowledgement) => Some(acknowledgement),
                LiveAbortOutcome::Failed(_) => None,
            },
    {
        match self {
            LiveAbortOutcome::Acknowledged(acknowledgement) => Some(*acknowledgement),
            LiveAbortOutcome::Failed(_) => None,
        }
    }

    pub fn failure(&self) -> (failure: Option<&LiveAbortFault<E>>)
        ensures
            failure == match *self {
                LiveAbortOutcome::Acknowledged(_) => None,
                LiveAbortOutcome::Failed(failure) => Some(&failure),
            },
    {
        match self {
            LiveAbortOutcome::Acknowledged(_) => None,
            LiveAbortOutcome::Failed(failure) => Some(failure),
        }
    }
}

/// Model of [`LiveEffectDispatcher`].
pub struct LiveCounts {
    pub next_sequence: u64,
    pub applied_effects: u64,
}

/// Numbers the live effects of an attempt and counts those that were applied.
#[derive(Debug)]
pub struct LiveEffectDispatcher {
    pub(crate) next_sequence: u64,
    pub(crate) applied_effects: u64,
}

impl View for LiveEffectDispatcher {
    type V = LiveCounts;

    open(crate) spec fn view(&self) -> LiveCounts {
        LiveCounts { next_sequence: self.next_sequence, applied_effects: self.applied_effects }
    }
}

impl LiveEffectDispatcher {
    pub fn new() -> (dispatcher: Self)
        ensures
            dispatcher@ == (LiveCounts { next_sequence: 0, applied_effects: 0 }),
    {
        Self { next_sequence: 0, applied_effects: 0 }
    }

    /// Numbers the next effect.
    pub fn begin(&mut self, origin: &BindingOrigin, phase: BindingPhase) -> (context:
        LiveEffectContext)
        requires
            old(self)@.next_sequence < u64::MAX,
        ensures
            context@ == (LiveContextModel {
                origin: origin@,
                phase,
                sequence: old(self)@.next_sequence,
            }),
            final(self)@ == (LiveCounts {
                next_sequence: (old(self)@.next_sequence + 1) as u64,
                ..old(self)@
            }),
    {
        let sequence: u64 = self.next_sequence;
        self.next_sequence = sequence + 1;
        LiveEffectContext { origin: origin.clone(), phase, sequence }
    }

    /// Takes the host's answer. An effect counts as applied only where it succeeded.
    pub fn finish<E>(&mut self, context: LiveEffectContext, outcome: Result<(), E>) -> (result:
        Result<(), LiveEffectFault<E>>)
        requires
            outcome is Ok ==> old(self)@.applied_effects < u64::MAX,
        ensures
            match result {
                Ok(_) => {
                    &&& outcome is Ok
                    &&& final(self)@ == (LiveCounts {
                        applied_effects: (old(self)@.applied_effects + 1) as u64,
                        ..old(self)@
                    })
                },
                Err(fault) => {
                    &&& outcome is Err
                    &&& fault@ == (LiveEffectFaultModel {
                        context: context@,
                        error: outcome->Err_0,
                    })
                    &&& final(self)@ == old(self)@
                },
            },
    {
        match outcome {
            Ok(_) => {
                self.applied_effects = self.applied_effects + 1;
                Ok(())
            },
            Err(source) => Err(
                LiveEffectFault { context, source: LiveEffectFailure::new(source) },
            ),
        }
    }

    /// What the host is told when the attempt is aborted.
    pub fn begin_abort(
        &self,
        identity: &ProviderAttemptIdentity,
        reason: BindingAbortReason,
    ) -> (context: LiveAbortContext)
        ensures
            context@ == (LiveAbortModel {
                identity: identity@,
                reason,
                applied_effects: self@.applied_effects,
            }),
    {
        LiveAbortContext {
            identity: identity.clone(),
            reason,
            applied_effects: self.applied_effects,
        }
    }
}

/// Takes the host's answer to an abort.
pub fn finish_live_abort<E>(
    context: LiveAbortContext,
    outcome: Result<LiveEffectAbortAck, E>,
) -> (result: LiveAbortOutcome<E>)
    ensures
        match result {
            LiveAbortOutcome::Acknowledged(acknowledgement) => outcome == Ok::<
                LiveEffectAbortAck,
                E,
            >(acknowledgement),
            LiveAbortOutcome::Failed(fault) => outcome is Err && fault@ == (LiveAbortFaultModel {
                context: context@,
                error: outcome->Err_0,
            }),
        },
{
    match outcome {
        Ok(acknowledgement) => LiveAbortOutcome::Acknowledged(acknowledgement),
        Err(source) => LiveAbortOutcome::Failed(
            LiveAbortFault { context, source: LiveEffectFailure::new(source) },
        ),
    }
}

/// The outputs among emissions, in order.
pub open spec fn outputs_of<C: TurnChannels>(emissions: Seq<TurnEmission<C>>) -> Seq<
    TurnEmission<C>,
>
    decreases emissions.len(),
{
    if emissions.len() == 0 {
        Seq::empty()
    } else {
        let before = outputs_of(emissions.drop_last());
        match emissions.last() {
            TurnEmission::Output(_) => before.push(emissions.last()),
            _ => before,
        }
    }
}

/// The commits among emissions, in order.
pub open spec fn commits_of<C: TurnChannels>(emissions: Seq<TurnEmission<C>>) -> Seq<C::Commit>
    decreases emissions.len(),
{
    if emissions.len() == 0 {
        Seq::empty()
    } else {
        let before = commits_of(emissions.drop_last());
        match emissions.last() {
            TurnEmission::Commit(commit) => before.push(commit),
            _ => before,
        }
    }
}

/// The live effects among emissions, in order.
pub open spec fn lives_of<C: TurnChannels>(emissions: Seq<TurnEmission<C>>) -> Seq<C::Live>
    decreases emissions.len(),
{
    if emissions.len() == 0 {
        Seq::empty()
    } else {
        let before = lives_of(emissions.drop_last());
        match emissions.last() {
            TurnEmission::Live(live) => before.push(live),
            _ => before,
        }
    }
}

/// The position of the first live effect, or the number of emissions.
pub open spec fn first_live<C: TurnChannels>(emissions: Seq<TurnEmission<C>>) -> nat
    decreases emissions.len(),
{
    if emissions.len() == 0 || emissions[0] is Live {
        0
    } else {
        1 + first_live(emissions.drop_first())
    }
}

proof fn lemma_first_live<C: TurnChannels>(emissions: Seq<TurnEmission<C>>, at: int)
    requires
        0 <= at <= emissions.len(),
        forall|i: int| 0 <= i < at ==> !(#[trigger] emissions[i] is Live),
        at < emissions.len() ==> emissions[at] is Live,
    ensures
        first_live(emissions) == at,
    decreases emissions.len(),
{
    if at > 0 {
        let rest = emissions.drop_first();
        assert(!(emissions[0] is Live));
        assert forall|i: int| 0 <= i < at - 1 implies !(#[trigger] rest[i] is Live) by {
            assert(rest[i] == emissions[i + 1]);
        }
        if at < emissions.len() {
            assert(rest[at - 1] == emissions[at]);
        }
        lemma_first_live(rest, at - 1);
    }
}

proof fn lemma_first_live_bounds<C: TurnChannels>(emissions: Seq<TurnEmission<C>>)
    ensures
        first_live(emissions) <= emissions.len(),
        first_live(emissions) < emissions.len() ==> emissions[first_live(emissions) as int] is Live,
        forall|i: int| 0 <= i < first_live(emissions) ==> !(#[trigger] emissions[i] is Live),
    decreases emissions.len(),
{
    if emissions.len() > 0 && !(emissions[0] is Live) {
        let rest = emissions.drop_first();
        lemma_first_live_bounds(rest);
        assert forall|i: int| 0 <= i < first_live(emissions) implies !(
        #[trigger] emissions[i] is Live) by {
            if i > 0 {
                assert(rest[i - 1] == emissions[i]);
            }
        }
        if first_live(rest) < rest.len() {
            assert(rest[first_live(rest) as int] == emissions[first_live(emissions) as int]);
        }
    }
}

/// Model of [`LiveInterpretation`].
pub struct InterpretationModel<C: TurnChannels> {
    pub remaining: Seq<TurnEmission<C>>,
    pub retained: Seq<TurnEmission<C>>,
    pub diagnostics: Seq<C::Diagnostic>,
    pub origin: OriginModel,
    pub phase: BindingPhase,
}

/// One update on its way to the lanes: outputs are kept for the host, commits wait for
/// the publication, and live effects are handed out one at a time.
pub struct LiveInterpretation<C: TurnChannels> {
    pub(crate) remaining: Vec<TurnEmission<C>>,
    pub(crate) retained: Vec<TurnEmission<C>>,
    pub(crate) diagnostics: Vec<C::Diagnostic>,
    pub(crate) origin: BindingOrigin,
    pub(crate) phase: BindingPhase,
}

impl<C: TurnChannels> View for LiveInterpretation<C> {
    type V = InterpretationModel<C>;

    open(crate) spec fn view(&self) -> InterpretationModel<C> {
        InterpretationModel {
            remaining: self.remaining@,
            retained: self.retained@,
            diagnostics: self.diagnostics@,
            origin: self.origin@,
            phase: self.phase,
        }
    }
}

/// An update of which nothing was interpreted yet.
pub open spec fn uninterpreted<C: TurnChannels>(
    update: UpdateModel<TurnEmission<C>, C::Diagnostic>,
    origin: OriginModel,
    phase: BindingPhase,
) -> InterpretationModel<C> {
    InterpretationModel {
        remaining: update.emissions,
        retained: Seq::empty(),
        diagnostics: update.diagnostics,
        origin,
        phase,
    }
}

impl<C: TurnChannels> LiveInterpretation<C> {
    pub fn new(update: LaneUpdate<C>, origin: BindingOrigin, phase: BindingPhase) -> (result: Self)
        ensures
            result@ == uninterpreted::<C>(update@, origin@, phase),
    {
        let (emissions, diagnostics) = update.into_parts();
        Self { remaining: emissions, retained: Vec::new(), diagnostics, origin, phase }
    }

    /// Goes on to the next live effect and hands it out. What stands in front of it is
    /// routed; nothing behind it is touched before the host has answered.
    pub fn next_effect(
        &mut self,
        dispatcher: &mut LiveEffectDispatcher,
        commits: &mut Vec<C::Commit>,
    ) -> (effect: Option<(LiveEffectContext, C::Live)>)
        requires
            first_live(old(self)@.remaining) < old(self)@.remaining.len() ==> old(
                dispatcher,
            )@.next_sequence < u64::MAX,
        ensures
            ({
                let emissions = old(self)@.remaining;
                let at = first_live(emissions) as int;
                &&& final(self)@.retained == old(self)@.retained + outputs_of(emissions.take(at))
                &&& final(commits)@ == old(commits)@ + commits_of(emissions.take(at))
                &&& final(self)@.diagnostics == old(self)@.diagnostics
                &&& final(self)@.origin == old(self)@.origin
                &&& final(self)@.phase == old(self)@.phase
                &&& match effect {
                    Some((context, live)) => {
                        &&& at < emissions.len()
                        &&& emissions[at] == TurnEmission::<C>::Live(live)
                        &&& context@ == (LiveContextModel {
                            origin: old(self)@.origin,
                            phase: old(self)@.phase,
                            sequence: old(dispatcher)@.next_sequence,
                        })
                        &&& final(self)@.remaining == emissions.skip(at + 1)
                        &&& final(dispatcher)@ == (LiveCounts {
                            next_sequence: (old(dispatcher)@.next_sequence + 1) as u64,
                            ..old(dispatcher)@
                        })
                    },
                    None => {
                        &&& at == emissions.len()
                        &&& final(self)@.remaining == Seq::<TurnEmission<C>>::empty()
                        &&& final(dispatcher)@ == old(dispatcher)@
                    },
                }
            }),
    {
        let ghost emissions = self@.remaining;
        let ghost kept = self@.retained;
        let ghost waiting = commits@;
        let ghost mut at: int = 0;
        proof {
            assert(emissions.skip(0) =~= emissions);
            assert(emissions.take(0) =~= Seq::empty());
            assert(kept + Seq::<TurnEmission<C>>::empty() =~= kept);
            assert(waiting + Seq::<C::Commit>::empty() =~= waiting);
        }
        while self.remaining.len() > 0
            invariant
                0 <= at <= emissions.len(),
                self@.remaining == emissions.skip(at),
                self@.retained == kept + outputs_of(emissions.take(at)),
                commits@ == waiting + commits_of(emissions.take(at)),
                self@.diagnostics == old(self)@.diagnostics,
                self@.origin == old(self)@.origin,
                self@.phase == old(self)@.phase,
                forall|i: int| 0 <= i < at ==> !(#[trigger] emissions[i] is Live),
                emissions == old(self)@.remaining,
                kept == old(self)@.retained,
                waiting == old(commits)@,
                dispatcher@ == old(dispatcher)@,
                first_live(emissions) < emissions.len() ==> dispatcher@.next_sequence < u64::MAX,
            decreases self.remaining@.len(),
        {
            let emission = self.remaining.remove(0);
            proof {
                assert(emission == emissions[at]);
                assert(self.remaining@ =~= emissions.skip(at + 1));
                assert(emissions.take(at + 1).drop_last() =~= emissions.take(at));
                assert(emissions.take(at + 1).last() == emission);
            }
            match emission {
                TurnEmission::Live(live) => {
                    proof {
                        lemma_first_live(emissions, at);
                    }
                    let context = dispatcher.begin(&self.origin, self.phase);
                    return Some((context, live));
                },
                TurnEmission::Output(output) => {
                    let ghost before = self@.retained;
                    self.retained.push(TurnEmission::Output(output));
                    proof {
                        assert(self@.retained =~= kept + outputs_of(emissions.take(at + 1)));
                    }
                },
                TurnEmission::Commit(commit) => {
                    commits.push(commit);
                    proof {
                        assert(commits@ =~= waiting + commits_of(emissions.take(at + 1)));
                    }
                },
            }
            proof {
                at = at + 1;
            }
        }
        proof {
            assert(at == emissions.len());
            lemma_first_live(emissions, at);
            assert(self@.remaining =~= Seq::empty());
        }
        None
    }

    /// What is left for the host once everything was routed.
    pub fn finish(self) -> (update: LaneUpdate<C>)
        requires
            self@.remaining.len() == 0,
        ensures
            update@ == (UpdateModel::<TurnEmission<C>, C::Diagnostic> {
                emissions: self@.retained,
                diagnostics: self@.diagnostics,
            }),
    {
        StreamUpdate { emissions: self.retained, diagnostics: self.diagnostics }
    }
}

/// The live effects that are handed out for emissions, with their numbers, where the
/// host applies them all.
pub open spec fn handed_out<C: TurnChannels>(emissions: Seq<TurnEmission<C>>, next: nat) -> Seq<
    (nat, C::Live),
>
    decreases emissions.len(),
{
    let at = first_live(emissions) as int;
    if 0 <= at < emissions.len() {
        seq![(next, emissions[at]->Live_0)] + handed_out(emissions.skip(at + 1), next + 1)
    } else {
        Seq::empty()
    }
}

/// What is kept for the host where the host applies all live effects.
pub open spec fn kept_for_host<C: TurnChannels>(emissions: Seq<TurnEmission<C>>) -> Seq<
    TurnEmission<C>,
>
    decreases emissions.len(),
{
    let at = first_live(emissions) as int;
    if 0 <= at < emissions.len() {
        outputs_of(emissions.take(at)) + kept_for_host(emissions.skip(at + 1))
    } else {
        outputs_of(emissions)
    }
}

/// What waits for the publication where the host applies all live effects.
pub open spec fn kept_for_publication<C: TurnChannels>(emissions: Seq<TurnEmission<C>>) -> Seq<
    C::Commit,
>
    decreases emissions.len(),
{
    let at = first_live(emissions) as int;
    if 0 <= at < emissions.len() {
        commits_of(emissions.take(at)) + kept_for_publication(emissions.skip(at + 1))
    } else {
        commits_of(emissions)
    }
}

proof fn lemma_lanes_of_concatenation<C: TurnChannels>(
    first: Seq<TurnEmission<C>>,
    second: Seq<TurnEmission<C>>,
)
    ensures
        outputs_of(first + second) == outputs_of(first) + outputs_of(second),
        commits_of(first + second) == commits_of(first) + commits_of(second),
        lives_of(first + second) == lives_of(first) + lives_of(second),
    decreases second.len(),
{
    if second.len() == 0 {
        assert(first + second =~= first);
        assert(outputs_of(first) + outputs_of(second) =~= outputs_of(first));
        assert(commits_of(first) + commits_of(second) =~= commits_of(first));
        assert(lives_of(first) + lives_of(second) =~= lives_of(first));
    } else {
        assert((first + second).drop_last() =~= first + second.drop_last());
        lemma_lanes_of_concatenation(first, second.drop_last());
        assert(outputs_of(first + second) =~= outputs_of(first) + outputs_of(second));
        assert(commits_of(first + second) =~= commits_of(first) + commits_of(second));
        assert(lives_of(first + second) =~= lives_of(first) + lives_of(second));
    }
}

proof fn lemma_no_lives<C: TurnChannels>(emissions: Seq<TurnEmission<C>>)
    requires
        forall|i: int| 0 <= i < emissions.len() ==> !(#[trigger] emissions[i] is Live),
    ensures
        lives_of(emissions) == Seq::<C::Live>::empty(),
    decreases emissions.len(),
{
    if emissions.len() > 0 {
        assert(!(emissions[emissions.len() - 1] is Live));
        lemma_no_lives(emissions.drop_last());
    }
}

proof fn lemma_one_live<C: TurnChannels>(emission: TurnEmission<C>)
    requires
        emission is Live,
    ensures
        outputs_of(seq![emission]) == Seq::<TurnEmission<C>>::empty(),
        commits_of(seq![emission]) == Seq::<C::Commit>::empty(),
        lives_of(seq![emission]) == seq![emission->Live_0],
{
    let one = seq![emission];
    assert(one.drop_last() =~= Seq::empty());
    assert(one.last() == emission);
    assert(outputs_of(one.drop_last()) =~= Seq::empty());
    assert(commits_of(one.drop_last()) =~= Seq::empty());
    assert(lives_of(one.drop_last()) =~= Seq::empty());
    assert(lives_of(one) =~= seq![emission->Live_0]);
}

/// Interpreting an update loses nothing and reorders no lane: the host applies exactly
/// the live effects, in order, under consecutive numbers; it is handed exactly the
/// outputs; and exactly the commits wait for the publication.
pub proof fn law_every_emission_reaches_its_lane<C: TurnChannels>(
    emissions: Seq<TurnEmission<C>>,
    next: nat,
)
    ensures
        kept_for_host(emissions) == outputs_of(emissions),
        kept_for_publication(emissions) == commits_of(emissions),
        handed_out(emissions, next).len() == lives_of(emissions).len(),
        forall|i: int|
            0 <= i < lives_of(emissions).len() ==> #[trigger] handed_out(emissions, next)[i] == (
                (next + i) as nat,
                lives_of(emissions)[i],
            ),
    decreases emissions.len(),
{
    lemma_first_live_bounds(emissions);
    let at = first_live(emissions) as int;
    if at < emissions.len() {
        let before = emissions.take(at);
        let after = emissions.skip(at + 1);
        let one = seq![emissions[at]];
        assert(before + one =~= emissions.take(at + 1));
        assert(emissions.take(at + 1) + after =~= emissions);
        lemma_lanes_of_concatenation(before, one);
        lemma_lanes_of_concatenation(emissions.take(at + 1), after);
        assert forall|i: int| 0 <= i < before.len() implies !(#[trigger] before[i] is Live) by {
            assert(before[i] == emissions[i]);
        }
        lemma_no_lives(before);
        lemma_one_live(emissions[at]);
        law_every_emission_reaches_its_lane(after, next + 1);
        let live = emissions[at]->Live_0;
        assert(outputs_of(before) + Seq::<TurnEmission<C>>::empty() =~= outputs_of(before));
        assert(commits_of(before) + Seq::<C::Commit>::empty() =~= commits_of(before));
        assert(Seq::<C::Live>::empty() + seq![live] =~= seq![live]);
        assert(lives_of(emissions) =~= seq![live] + lives_of(after));
        let all = handed_out(emissions, next);
        let rest = handed_out(after, next + 1);
        assert(all =~= seq![(next, live)] + rest);
        assert forall|i: int| 0 <= i < lives_of(emissions).len() implies #[trigger] all[i] == (
            (next + i) as nat,
            lives_of(emissions)[i],
        ) by {
            if i > 0 {
                assert(all[i] == rest[i - 1]);
                assert(lives_of(emissions)[i] == lives_of(after)[i - 1]);
            }
        }
    } else {
        assert(forall|i: int|
            0 <= i < emissions.len() ==> !(#[trigger] emissions[i] is Live));
        lemma_no_lives(emissions);
    }
}

} // verus!
