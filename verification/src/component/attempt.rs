//! One streaming attempt, from its first event to its publication or its abort.

use vstd::prelude::*;
use vstd::string::*;
use vstd::utf8::encode_utf8;
use crate::component::binding::{BindingErrorSource, BindingInstance};
use crate::component::binding::{BindingFailure, BindingFault, BindingOrigin, BindingPhase};
use crate::component::binding::OriginModel;
use crate::component::channels::{LaneUpdate, StreamUpdate, TurnChannels, TurnEmission};
use crate::component::channels::UpdateModel;
use crate::component::identity::{AttemptModel, BindingId, BindingIdModel};
use crate::component::identity::ProviderAttemptIdentity;
use crate::component::live::{commits_of, first_live, outputs_of};
use crate::component::live::uninterpreted;
use crate::component::live::{LiveContextModel, LiveCounts};
use crate::component::live::{LiveEffectContext, LiveEffectDispatcher, LiveEffectFault};
use crate::component::live::{LiveEffectFaultModel, LiveInterpretation};
use crate::component::tools::{result_models, ProviderToolResult, RouteModel, RuntimeRoute};
use crate::component::tools::ToolResultModel;
use crate::llm_call::TextTurnEvent;
use crate::text_chars::{chars_of, text_of_chars};

verus! {

/// Model of [`MountedAttemptBinding`].
pub struct MountedBindingModel {
    pub id: BindingIdModel,
    pub route: RouteModel,
}

/// A binding that takes part in an attempt.
#[derive(Debug)]
pub struct MountedAttemptBinding {
    pub(crate) id: BindingId,
    pub(crate) route: RuntimeRoute,
}

impl View for MountedAttemptBinding {
    type V = MountedBindingModel;

    open(crate) spec fn view(&self) -> MountedBindingModel {
        MountedBindingModel { id: self.id@, route: self.route@ }
    }
}

impl MountedAttemptBinding {
    pub fn new(id: BindingId, route: RuntimeRoute) -> (binding: Self)
        ensures
            binding@ == (MountedBindingModel { id: id@, route: route@ }),
    {
        Self { id, route }
    }

    pub fn id(&self) -> (value: &BindingId)
        ensures
            value@ == self@.id,
    {
        &self.id
    }

    pub fn route(&self) -> (value: &RuntimeRoute)
        ensures
            value@ == self@.route,
    {
        &self.route
    }
}

impl Clone for MountedAttemptBinding {
    fn clone(&self) -> (copy: Self)
        ensures
            copy@ == self@,
    {
        Self { id: self.id.clone(), route: self.route.clone() }
    }
}

impl PartialEq for MountedAttemptBinding {
    fn eq(&self, other: &Self) -> (equal: bool) {
        self.id == other.id && self.route == other.route
    }
}

impl Eq for MountedAttemptBinding {

}

impl vstd::std_specs::cmp::PartialEqSpecImpl for MountedAttemptBinding {
    open spec fn obeys_eq_spec() -> bool {
        true
    }

    open spec fn eq_spec(&self, other: &Self) -> bool {
        self@ == other@
    }
}

/// The models of several bindings.
pub open spec fn binding_models(bindings: Seq<MountedAttemptBinding>) -> Seq<MountedBindingModel> {
    bindings.map_values(|binding: MountedAttemptBinding| binding@)
}

/// Whether a binding listens to an XML tag.
pub open spec fn listens_to(binding: MountedBindingModel, tag: Seq<char>) -> bool {
    binding.route.namespace == "xml"@ && binding.route.name == tag
}

/// Whether some binding listens to an XML tag.
pub open spec fn has_tag(bindings: Seq<MountedBindingModel>, tag: Seq<char>) -> bool {
    exists|i: int| 0 <= i < bindings.len() && listens_to(#[trigger] bindings[i], tag)
}

/// The first binding that listens to an XML tag.
pub open spec fn listener(bindings: Seq<MountedBindingModel>, tag: Seq<char>) -> MountedBindingModel
    decreases bindings.len(),
{
    if bindings.len() == 0 {
        arbitrary()
    } else if listens_to(bindings[0], tag) {
        bindings[0]
    } else {
        listener(bindings.drop_first(), tag)
    }
}

proof fn lemma_listener(bindings: Seq<MountedBindingModel>, tag: Seq<char>, at: int)
    requires
        0 <= at < bindings.len(),
        listens_to(bindings[at], tag),
        forall|i: int| 0 <= i < at ==> !listens_to(#[trigger] bindings[i], tag),
    ensures
        listener(bindings, tag) == bindings[at],
    decreases bindings.len(),
{
    if at > 0 {
        let rest = bindings.drop_first();
        assert(!listens_to(bindings[0], tag));
        assert forall|i: int| 0 <= i < at - 1 implies !listens_to(#[trigger] rest[i], tag) by {
            assert(rest[i] == bindings[i + 1]);
        }
        lemma_listener(rest, tag, at - 1);
    }
}

/// The text of an attempt.
pub struct TextState {
    pub raw_output: Seq<char>,
    pub text_complete: bool,
    pub terminal: bool,
}

/// Model of [`TextTurnEvent`].
pub enum TextEventModel {
    Delta(Seq<char>),
    Complete(Seq<char>),
}

/// The model of an event.
pub open spec fn text_event(event: TextTurnEvent) -> TextEventModel {
    match event {
        TextTurnEvent::TextDelta(chunk) => TextEventModel::Delta(chunk@),
        TextTurnEvent::TextComplete(output) => TextEventModel::Complete(output@),
    }
}

/// What is wrong with a text event.
pub enum TextFault {
    /// The attempt failed before.
    Terminal,
    /// The text was complete already.
    AfterCompletion,
    /// The complete text does not begin with the text so far.
    CompletionMismatch,
}

/// What is wrong with an event, if anything.
pub open spec fn text_fault(state: TextState, event: TextEventModel) -> Option<TextFault> {
    if state.terminal {
        Some(TextFault::Terminal)
    } else if state.text_complete {
        Some(TextFault::AfterCompletion)
    } else {
        match event {
            TextEventModel::Delta(_) => None,
            TextEventModel::Complete(output) => if state.raw_output.is_prefix_of(output) {
                None
            } else {
                Some(TextFault::CompletionMismatch)
            },
        }
    }
}

/// The text of an attempt after an event. A fault is final.
pub open spec fn text_after(state: TextState, event: TextEventModel) -> TextState {
    match text_fault(state, event) {
        Some(TextFault::CompletionMismatch) => TextState {
            raw_output: event->Complete_0,
            text_complete: true,
            terminal: true,
        },
        Some(_) => TextState { terminal: true, ..state },
        None => match event {
            TextEventModel::Delta(chunk) => TextState {
                raw_output: state.raw_output + chunk,
                ..state
            },
            TextEventModel::Complete(output) => TextState {
                raw_output: output,
                text_complete: true,
                ..state
            },
        },
    }
}

/// What the parser is fed for an event that is not faulty: a delta as it is, and of the
/// complete text what it has not seen.
pub open spec fn text_fed(state: TextState, event: TextEventModel) -> Seq<char> {
    match event {
        TextEventModel::Delta(chunk) => chunk,
        TextEventModel::Complete(output) => output.skip(state.raw_output.len() as int),
    }
}

/// When a callback of the parser ran.
#[derive(Debug, Clone, Copy, PartialEq, Eq, Structural)]
pub enum CallbackPhase {
    Open,
    Stream,
    Complete,
}

/// The phase of a binding in a callback.
pub open spec fn callback_phase(phase: CallbackPhase) -> BindingPhase {
    match phase {
        CallbackPhase::Open => BindingPhase::Open,
        CallbackPhase::Stream => BindingPhase::Stream,
        CallbackPhase::Complete => BindingPhase::Complete,
    }
}

impl CallbackPhase {
    pub fn binding_phase(&self) -> (phase: BindingPhase)
        ensures
            phase == callback_phase(*self),
    {
        match self {
            CallbackPhase::Open => BindingPhase::Open,
            CallbackPhase::Stream => BindingPhase::Stream,
            CallbackPhase::Complete => BindingPhase::Complete,
        }
    }
}

/// Whether the answer of a callback is about to be interpreted: its update in the phase
/// of the callback, or its failure as it is.
pub open spec fn callback_begun<C: TurnChannels, E>(
    answer: Result<LaneUpdate<C>, BindingFailure<E>>,
    origin: OriginModel,
    phase: CallbackPhase,
    result: Result<LiveInterpretation<C>, BindingFailure<E>>,
) -> bool {
    match (answer, result) {
        (Ok(update), Ok(begun)) => begun@ == uninterpreted::<C>(
            update@,
            origin,
            callback_phase(phase),
        ),
        (Err(from), Err(to)) => to == from,
        _ => false,
    }
}

/// Runs the callback of a binding for a phase.
pub fn run_callback<C: TurnChannels, X, E, I: BindingInstance<C, X, E>>(
    instance: &mut I,
    phase: CallbackPhase,
    element: &X,
) -> (result: Result<LaneUpdate<C>, BindingFailure<E>>)
    ensures
        phase == CallbackPhase::Open ==> exists|inner: &mut I|
            *inner == *old(instance) && *final(inner) == *final(instance)
                && #[trigger] call_ensures(I::on_open, (inner, element), result),
        phase == CallbackPhase::Stream ==> exists|inner: &mut I|
            *inner == *old(instance) && *final(inner) == *final(instance)
                && #[trigger] call_ensures(I::on_stream, (inner, element), result),
        phase == CallbackPhase::Complete ==> exists|inner: &mut I|
            *inner == *old(instance) && *final(inner) == *final(instance)
                && #[trigger] call_ensures(I::on_complete, (inner, element), result),
{
    match phase {
        CallbackPhase::Open => instance.on_open(element),
        CallbackPhase::Stream => instance.on_stream(element),
        CallbackPhase::Complete => instance.on_complete(element),
    }
}

/// Why a callback failed: `E` is what bindings report, `L` what live effects report.
#[derive(Debug)]
pub enum MountedCallbackFailure<E, L> {
    Binding(BindingFailure<E>),
    Live(LiveEffectFault<L>),
}

/// Why the stream parser stopped.
#[derive(Debug)]
#[allow(inconsistent_fields)]
pub enum ParserFailure<E, L> {
    /// The callback of a tag failed.
    Callback { tag: String, phase: CallbackPhase, source: MountedCallbackFailure<E, L> },
    /// The stream ended within a tag.
    IncompleteRegisteredTag { tag: String },
    /// The parser failed before.
    Terminal,
}

/// Whether the tag that a failure is about is one that a binding listens to.
pub open spec fn tag_is_mounted<E, L>(
    failure: ParserFailure<E, L>,
    bindings: Seq<MountedBindingModel>,
) -> bool {
    match failure {
        ParserFailure::Callback { tag, phase, source } => source is Live || has_tag(bindings, tag@),
        ParserFailure::IncompleteRegisteredTag { tag } => has_tag(bindings, tag@),
        ParserFailure::Terminal => true,
    }
}

/// Why an attempt failed: `P` is what provider tools report.
#[derive(Debug)]
pub enum StreamingAttemptError<E, L, P> {
    Binding(BindingFault<BindingErrorSource<E>>),
    Live(LiveEffectFault<L>),
    Provider(P),
    /// The complete text does not begin with the text received as deltas.
    TextCompletionMismatch { delta_bytes: usize, completion_bytes: usize },
    /// Text came after the text was complete.
    TextAfterCompletion,
    /// The attempt failed before.
    Terminal,
}

/// The attempt failed before, so that it calls no tool.
#[derive(Debug, Clone, Copy, PartialEq, Eq, Structural)]
pub struct ToolCallRefused;

/// Why a tool call came to nothing: `P` is what provider tools report.
#[derive(Debug, PartialEq, Eq)]
pub enum ToolCallError<P> {
    /// The attempt failed before.
    Refused(ToolCallRefused),
    /// The tool could not be run. The attempt is over.
    Failed(P),
}

/// What a tool call came to: its result, with whether it is replayed, or nothing where
/// the tool could not be run.
pub open spec fn tool_answer<P>(outcome: Result<(ProviderToolResult, bool), P>) -> Option<
    (ToolResultModel, bool),
> {
    match outcome {
        Ok((tool_result, replayed)) => Some((tool_result@, replayed)),
        Err(_) => None,
    }
}

/// Whether an error is the one that an attempt reports for a parser failure.
pub open spec fn reports_parser_failure<E, L, P>(
    identity: AttemptModel,
    bindings: Seq<MountedBindingModel>,
    failure: ParserFailure<E, L>,
    error: StreamingAttemptError<E, L, P>,
) -> bool {
    match failure {
        ParserFailure::Callback { tag, phase, source } => match source {
            MountedCallbackFailure::Live(fault) => error == StreamingAttemptError::<E, L, P>::Live(
                fault,
            ),
            MountedCallbackFailure::Binding(source) => match error {
                StreamingAttemptError::Binding(fault) => {
                    let mounted = listener(bindings, tag@);
                    &&& fault@.origin == (OriginModel {
                        attempt: identity,
                        binding_id: mounted.id,
                        route: mounted.route,
                    })
                    &&& fault@.phase == callback_phase(phase)
                    &&& fault@.error == BindingErrorSource::Author(source.error())
                },
                _ => false,
            },
        },
        ParserFailure::IncompleteRegisteredTag { tag } => match error {
            StreamingAttemptError::Binding(fault) => {
                let mounted = listener(bindings, tag@);
                &&& fault@.origin == (OriginModel {
                    attempt: identity,
                    binding_id: mounted.id,
                    route: mounted.route,
                })
                &&& fault@.phase == BindingPhase::Finalize
                &&& fault@.error == BindingErrorSource::<E>::IncompleteRegisteredXml { tag }
            },
            _ => false,
        },
        ParserFailure::Terminal => error is Terminal,
    }
}

/// Model of [`MountedStreamingAttempt`].
pub struct StreamingModel<C: TurnChannels> {
    pub identity: AttemptModel,
    pub bindings: Seq<MountedBindingModel>,
    pub update: UpdateModel<TurnEmission<C>, C::Diagnostic>,
    pub commits: Seq<C::Commit>,
    pub live: LiveCounts,
    pub provider_results: Seq<ToolResultModel>,
    pub text: TextState,
}

impl<C: TurnChannels> StreamingModel<C> {
    /// An attempt of which nothing has happened.
    pub open spec fn fresh(identity: AttemptModel, bindings: Seq<MountedBindingModel>) -> Self {
        StreamingModel {
            identity,
            bindings,
            update: UpdateModel::empty(),
            commits: Seq::empty(),
            live: LiveCounts { next_sequence: 0, applied_effects: 0 },
            provider_results: Seq::empty(),
            text: TextState {
                raw_output: Seq::empty(),
                text_complete: false,
                terminal: false,
            },
        }
    }

    /// The attempt once it has failed.
    pub open spec fn failed(self) -> Self {
        StreamingModel { text: TextState { terminal: true, ..self.text }, ..self }
    }

    /// Where a binding's effects come from.
    pub open spec fn origin(self, index: int) -> OriginModel {
        OriginModel {
            attempt: self.identity,
            binding_id: self.bindings[index].id,
            route: self.bindings[index].route,
        }
    }
}

/// An attempt after the outcome of a tool call.
pub open spec fn tool_taken<C: TurnChannels>(
    attempt: StreamingModel<C>,
    answer: Option<(ToolResultModel, bool)>,
) -> StreamingModel<C> {
    if attempt.text.terminal {
        attempt
    } else {
        match answer {
            Some((tool_result, replayed)) => if replayed {
                attempt
            } else {
                StreamingModel {
                    provider_results: attempt.provider_results.push(tool_result),
                    ..attempt
                }
            },
            None => attempt.failed(),
        }
    }
}

/// One attempt at running a turn while its output streams in.
#[must_use]
pub struct MountedStreamingAttempt<C: TurnChannels> {
    pub(crate) identity: ProviderAttemptIdentity,
    pub(crate) bindings: Vec<MountedAttemptBinding>,
    pub(crate) accumulator: LaneUpdate<C>,
    pub(crate) pending_commits: Vec<C::Commit>,
    pub(crate) live: LiveEffectDispatcher,
    pub(crate) raw_output: String,
    pub(crate) provider_results: Vec<ProviderToolResult>,
    pub(crate) text_complete: bool,
    pub(crate) terminal: bool,
}

impl<C: TurnChannels> View for MountedStreamingAttempt<C> {
    type V = StreamingModel<C>;

    open(crate) spec fn view(&self) -> StreamingModel<C> {
        StreamingModel {
            identity: self.identity@,
            bindings: binding_models(self.bindings@),
            update: self.accumulator@,
            commits: self.pending_commits@,
            live: self.live@,
            provider_results: result_models(self.provider_results@),
            text: TextState {
                raw_output: self.raw_output@,
                text_complete: self.text_complete,
                terminal: self.terminal,
            },
        }
    }
}

fn begins_with(text: &Vec<char>, start: &Vec<char>) -> (begins: bool)
    ensures
        begins == start@.is_prefix_of(text@),
{
    let count: usize = start.len();
    if count > text.len() {
        return false;
    }
    for i in 0..count
        invariant
            count == start@.len(),
            count <= text@.len(),
            forall|j: int| 0 <= j < i ==> start@[j] == text@[j],
    {
        if start[i] != text[i] {
            assert(start@[i as int] != text@.subrange(0, start@.len() as int)[i as int]);
            return false;
        }
    }
    assert(start@ =~= text@.subrange(0, start@.len() as int));
    true
}

fn suffix_from(text: &Vec<char>, start: usize) -> (suffix: Vec<char>)
    requires
        start <= text@.len(),
    ensures
        suffix@ == text@.skip(start as int),
{
    let mut suffix: Vec<char> = Vec::new();
    let count: usize = text.len();
    for i in start..count
        invariant
            count == text@.len(),
            start <= count,
            suffix@ == text@.subrange(start as int, i as int),
    {
        suffix.push(text[i]);
        assert(suffix@ =~= text@.subrange(start as int, i as int + 1));
    }
    assert(suffix@ =~= text@.skip(start as int));
    suffix
}

impl<C: TurnChannels> MountedStreamingAttempt<C> {
    /// An attempt of which nothing has happened.
    pub fn new(identity: ProviderAttemptIdentity, bindings: Vec<MountedAttemptBinding>) -> (attempt:
        Self)
        ensures
            attempt@ == StreamingModel::<C>::fresh(identity@, binding_models(bindings@)),
    {
        let attempt = Self {
            identity,
            bindings,
            accumulator: StreamUpdate::new(),
            pending_commits: Vec::new(),
            live: LiveEffectDispatcher::new(),
            raw_output: String::new(),
            provider_results: Vec::new(),
            text_complete: false,
            terminal: false,
        };
        assert(attempt.raw_output@ =~= Seq::<char>::empty());
        assert(result_models(attempt.provider_results@) =~= Seq::empty());
        attempt
    }

    pub fn identity(&self) -> (identity: &ProviderAttemptIdentity)
        ensures
            identity@ == self@.identity,
    {
        &self.identity
    }

    pub fn binding_count(&self) -> (count: usize)
        ensures
            count == self@.bindings.len(),
    {
        self.bindings.len()
    }

    pub fn bindings(&self) -> (bindings: &Vec<MountedAttemptBinding>)
        ensures
            binding_models(bindings@) == self@.bindings,
    {
        &self.bindings
    }

    pub fn raw_output(&self) -> (text: &str)
        ensures
            text@ == self@.text.raw_output,
    {
        self.raw_output.as_str()
    }

    pub fn provider_results(&self) -> (results: &Vec<ProviderToolResult>)
        ensures
            result_models(results@) == self@.provider_results,
    {
        &self.provider_results
    }

    pub fn is_terminal(&self) -> (terminal: bool)
        ensures
            terminal == self@.text.terminal,
    {
        self.terminal
    }

    /// Takes a text event, and says what to feed the parser for it. Deltas are fed as
    /// they come. The complete text must begin with what came before, and only the rest
    /// of it is fed.
    pub fn on_event<E, L, P>(&mut self, event: TextTurnEvent) -> (result: Result<
        Option<String>,
        StreamingAttemptError<E, L, P>,
    >)
        ensures
            final(self)@ == (StreamingModel::<C> {
                text: text_after(old(self)@.text, text_event(event)),
                ..old(self)@
            }),
            match result {
                Ok(Some(fed)) => {
                    &&& text_fault(old(self)@.text, text_event(event)) is None
                    &&& fed@ == text_fed(old(self)@.text, text_event(event))
                    &&& event is TextComplete ==> fed@.len() > 0
                },
                Ok(None) => {
                    &&& text_fault(old(self)@.text, text_event(event)) is None
                    &&& event is TextComplete
                    &&& text_fed(old(self)@.text, text_event(event)).len() == 0
                },
                Err(StreamingAttemptError::Terminal) => text_fault(
                    old(self)@.text,
                    text_event(event),
                ) == Some(TextFault::Terminal),
                Err(StreamingAttemptError::TextAfterCompletion) => text_fault(
                    old(self)@.text,
                    text_event(event),
                ) == Some(TextFault::AfterCompletion),
                Err(
                    StreamingAttemptError::TextCompletionMismatch { delta_bytes, completion_bytes },
                ) => {
                    &&& text_fault(old(self)@.text, text_event(event)) == Some(
                        TextFault::CompletionMismatch,
                    )
                    &&& delta_bytes == encode_utf8(old(self)@.text.raw_output).len()
                    &&& completion_bytes == encode_utf8(text_event(event)->Complete_0).len()
                },
                Err(_) => false,
            },
    {
        if self.terminal {
            return Err(StreamingAttemptError::Terminal);
        }
        if self.text_complete {
            self.terminal = true;
            return Err(StreamingAttemptError::TextAfterCompletion);
        }
        match event {
            TextTurnEvent::TextDelta(chunk) => {
                self.raw_output.append(chunk.as_str());
                Ok(Some(chunk))
            },
            TextTurnEvent::TextComplete(output) => {
                self.text_complete = true;
                let delta_bytes: usize = self.raw_output.as_str().as_bytes().len();
                let completion_bytes: usize = output.as_str().as_bytes().len();
                let received = chars_of(self.raw_output.as_str());
                let complete = chars_of(output.as_str());
                if !begins_with(&complete, &received) {
                    self.raw_output = output;
                    self.terminal = true;
                    return Err(
                        StreamingAttemptError::TextCompletionMismatch {
                            delta_bytes,
                            completion_bytes,
                        },
                    );
                }
                let suffix = suffix_from(&complete, received.len());
                self.raw_output = output;
                if suffix.len() == 0 {
                    Ok(None)
                } else {
                    Ok(Some(text_of_chars(&suffix)))
                }
            },
        }
    }

    fn binding_for_tag(&self, tag: &String) -> (index: usize)
        requires
            has_tag(self@.bindings, tag@),
        ensures
            index < self@.bindings.len(),
            self@.bindings[index as int] == listener(self@.bindings, tag@),
    {
        let xml: String = "xml".to_owned();
        let ghost models = binding_models(self.bindings@);
        let count: usize = self.bindings.len();
        for i in 0..count
            invariant
                count == self.bindings@.len(),
                models == binding_models(self.bindings@),
                xml@ == "xml"@,
                forall|j: int| 0 <= j < i ==> !listens_to(#[trigger] models[j], tag@),
        {
            assert(models[i as int] == self.bindings@[i as int]@);
            if self.bindings[i].route.namespace == xml && self.bindings[i].route.name == *tag {
                proof {
                    lemma_listener(models, tag@, i as int);
                }
                return i;
            }
        }
        assert(false);
        0
    }

    fn listens_for(&self, tag: &String) -> (listens: bool)
        ensures
            listens == has_tag(self@.bindings, tag@),
    {
        let xml: String = "xml".to_owned();
        let ghost models = binding_models(self.bindings@);
        let count: usize = self.bindings.len();
        for i in 0..count
            invariant
                count == self.bindings@.len(),
                models == binding_models(self.bindings@),
                models == self@.bindings,
                xml@ == "xml"@,
                forall|j: int| 0 <= j < i ==> !listens_to(#[trigger] models[j], tag@),
        {
            assert(models[i as int] == self.bindings@[i as int]@);
            if self.bindings[i].route.namespace == xml && self.bindings[i].route.name == *tag {
                assert(listens_to(models[i as int], tag@));
                return true;
            }
        }
        false
    }

    /// Whether the tag that a failure is about is one that a binding listens to.
    pub fn is_about_a_binding<E, L>(&self, failure: &ParserFailure<E, L>) -> (about: bool)
        ensures
            about == tag_is_mounted(*failure, self@.bindings),
    {
        match failure {
            ParserFailure::Callback { tag, phase, source } => match source {
                MountedCallbackFailure::Live(_) => true,
                MountedCallbackFailure::Binding(_) => self.listens_for(tag),
            },
            ParserFailure::IncompleteRegisteredTag { tag } => self.listens_for(tag),
            ParserFailure::Terminal => true,
        }
    }

    /// Takes a failure of the parser. The attempt is over.
    pub fn parser_failed<E, L, P>(&mut self, failure: ParserFailure<E, L>) -> (error:
        StreamingAttemptError<E, L, P>)
        requires
            tag_is_mounted(failure, old(self)@.bindings),
        ensures
            final(self)@ == old(self)@.failed(),
            reports_parser_failure(old(self)@.identity, old(self)@.bindings, failure, error),
    {
        self.terminal = true;
        match failure {
            ParserFailure::Callback { tag, phase, source } => match source {
                MountedCallbackFailure::Live(fault) => StreamingAttemptError::Live(fault),
                MountedCallbackFailure::Binding(source) => {
                    let index = self.binding_for_tag(&tag);
                    StreamingAttemptError::Binding(
                        BindingFault::new(
                            &self.identity,
                            &self.bindings[index].id,
                            &self.bindings[index].route,
                            phase.binding_phase(),
                            BindingFailure::new(BindingErrorSource::Author(source.source)),
                        ),
                    )
                },
            },
            ParserFailure::IncompleteRegisteredTag { tag } => {
                let index = self.binding_for_tag(&tag);
                StreamingAttemptError::Binding(
                    BindingFault::new(
                        &self.identity,
                        &self.bindings[index].id,
                        &self.bindings[index].route,
                        BindingPhase::Finalize,
                        BindingFailure::new(BindingErrorSource::IncompleteRegisteredXml { tag }),
                    ),
                )
            },
            ParserFailure::Terminal => StreamingAttemptError::Terminal,
        }
    }

    /// Begins to interpret the update of a binding.
    pub fn interpret(&self, index: usize, phase: BindingPhase, update: LaneUpdate<C>) -> (result:
        LiveInterpretation<C>)
        requires
            index < self@.bindings.len(),
        ensures
            result@ == uninterpreted::<C>(update@, self@.origin(index as int), phase),
    {
        let mounted = &self.bindings[index];
        let origin = BindingOrigin::new(&self.identity, &mounted.id, &mounted.route);
        LiveInterpretation::new(update, origin, phase)
    }

    /// Runs the callback of a binding, and begins to interpret the update that it
    /// returned.
    pub fn callback<X, E, I: BindingInstance<C, X, E>>(
        &self,
        index: usize,
        instance: &mut I,
        phase: CallbackPhase,
        element: &X,
    ) -> (result: Result<LiveInterpretation<C>, BindingFailure<E>>)
        requires
            index < self@.bindings.len(),
        ensures
            phase == CallbackPhase::Open ==> exists|
                inner: &mut I,
                update: Result<LaneUpdate<C>, BindingFailure<E>>,
            |
                *inner == *old(instance) && *final(inner) == *final(instance)
                    && #[trigger] call_ensures(I::on_open, (inner, element), update)
                    && callback_begun(update, self@.origin(index as int), phase, result),
            phase == CallbackPhase::Stream ==> exists|
                inner: &mut I,
                update: Result<LaneUpdate<C>, BindingFailure<E>>,
            |
                *inner == *old(instance) && *final(inner) == *final(instance)
                    && #[trigger] call_ensures(I::on_stream, (inner, element), update)
                    && callback_begun(update, self@.origin(index as int), phase, result),
            phase == CallbackPhase::Complete ==> exists|
                inner: &mut I,
                update: Result<LaneUpdate<C>, BindingFailure<E>>,
            |
                *inner == *old(instance) && *final(inner) == *final(instance)
                    && #[trigger] call_ensures(I::on_complete, (inner, element), update)
                    && callback_begun(update, self@.origin(index as int), phase, result),
    {
        let answer = run_callback::<C, X, E, I>(instance, phase, element);
        let ghost answered = answer;
        let result = match answer {
            Ok(update) => Ok(self.interpret(index, phase.binding_phase(), update)),
            Err(failure) => Err(failure),
        };
        assert(callback_begun(answered, self@.origin(index as int), phase, result));
        result
    }

    /// Whether another live effect can be numbered and counted.
    pub fn has_room_for_effect(&self) -> (room: bool)
        ensures
            room == (self@.live.next_sequence < u64::MAX && self@.live.applied_effects < u64::MAX),
    {
        self.live.next_sequence < u64::MAX && self.live.applied_effects < u64::MAX
    }

    /// Goes on to the next live effect of an update.
    pub fn next_effect(&mut self, interpretation: &mut LiveInterpretation<C>) -> (effect: Option<
        (LiveEffectContext, C::Live),
    >)
        requires
            first_live(old(interpretation)@.remaining) < old(interpretation)@.remaining.len()
                ==> old(self)@.live.next_sequence < u64::MAX,
        ensures
            ({
                let emissions = old(interpretation)@.remaining;
                let at = first_live(emissions) as int;
                &&& final(interpretation)@.retained == old(interpretation)@.retained + outputs_of(
                    emissions.take(at),
                )
                &&& final(interpretation)@.diagnostics == old(interpretation)@.diagnostics
                &&& final(interpretation)@.origin == old(interpretation)@.origin
                &&& final(interpretation)@.phase == old(interpretation)@.phase
                &&& match effect {
                    Some((context, live)) => {
                        &&& at < emissions.len()
                        &&& emissions[at] == TurnEmission::<C>::Live(live)
                        &&& context@ == (LiveContextModel {
                            origin: old(interpretation)@.origin,
                            phase: old(interpretation)@.phase,
                            sequence: old(self)@.live.next_sequence,
                        })
                        &&& final(interpretation)@.remaining == emissions.skip(at + 1)
                        &&& final(self)@ == (StreamingModel::<C> {
                            commits: old(self)@.commits + commits_of(emissions.take(at)),
                            live: LiveCounts {
                                next_sequence: (old(self)@.live.next_sequence + 1) as u64,
                                ..old(self)@.live
                            },
                            ..old(self)@
                        })
                    },
                    None => {
                        &&& at == emissions.len()
                        &&& final(interpretation)@.remaining == Seq::<TurnEmission<C>>::empty()
                        &&& final(self)@ == (StreamingModel::<C> {
                            commits: old(self)@.commits + commits_of(emissions.take(at)),
                            ..old(self)@
                        })
                    },
                }
            }),
    {
        interpretation.next_effect(&mut self.live, &mut self.pending_commits)
    }

    /// Takes the host's answer to a live effect.
    pub fn effect_answered<L>(&mut self, context: LiveEffectContext, outcome: Result<(), L>) -> (
    result: Result<(), LiveEffectFault<L>>)
        requires
            outcome is Ok ==> old(self)@.live.applied_effects < u64::MAX,
        ensures
            match result {
                Ok(_) => {
                    &&& outcome is Ok
                    &&& final(self)@ == (StreamingModel::<C> {
                        live: LiveCounts {
                            applied_effects: (old(self)@.live.applied_effects + 1) as u64,
                            ..old(self)@.live
                        },
                        ..old(self)@
                    })
                },
                Err(fault) => {
                    &&& outcome is Err
                    &&& fault@ == (LiveEffectFaultModel {
                        context: context@,
                        error: outcome->Err_0,
                    })
                    &&& final(self)@ == old(self)@
                },
            },
    {
        self.live.finish(context, outcome)
    }

    /// Keeps what an interpreted update leaves for the host.
    pub fn record(&mut self, update: LaneUpdate<C>)
        ensures
            final(self)@ == (StreamingModel::<C> {
                update: old(self)@.update.followed_by(update@),
                ..old(self)@
            }),
    {
        self.accumulator.append(update);
    }

    /// Hands out what was kept for the host since the last time.
    pub fn take_update(&mut self) -> (update: LaneUpdate<C>)
        ensures
            update@ == old(self)@.update,
            final(self)@ == (StreamingModel::<C> { update: UpdateModel::empty(), ..old(self)@ }),
    {
        self.accumulator.take()
    }

    /// Asks whether a tool may be called. An attempt that failed calls none.
    pub fn begin_tool_call(&self) -> (result: Result<(), ToolCallRefused>)
        ensures
            result is Err <==> self@.text.terminal,
    {
        if self.terminal {
            Err(ToolCallRefused)
        } else {
            Ok(())
        }
    }

    /// Takes the outcome of a tool call. A result counts once, however often it is
    /// replayed; a failure ends the attempt. An attempt that failed takes nothing.
    pub fn tool_answered<P>(&mut self, outcome: Result<(ProviderToolResult, bool), P>) -> (result:
        Result<(), ToolCallError<P>>)
        ensures
            final(self)@ == tool_taken(old(self)@, tool_answer(outcome)),
            match result {
                Ok(_) => !old(self)@.text.terminal && outcome is Ok,
                Err(ToolCallError::Refused(_)) => old(self)@.text.terminal,
                Err(ToolCallError::Failed(error)) => {
                    &&& !old(self)@.text.terminal
                    &&& outcome == Err::<(ProviderToolResult, bool), P>(error)
                },
            },
    {
        match self.begin_tool_call() {
            Ok(_) => {},
            Err(refused) => return Err(ToolCallError::Refused(refused)),
        }
        match outcome {
            Ok((tool_result, replayed)) => {
                if !replayed {
                    let ghost before = result_models(self.provider_results@);
                    let ghost added = tool_result@;
                    self.provider_results.push(tool_result);
                    assert(result_models(self.provider_results@) =~= before.push(added));
                }
                Ok(())
            },
            Err(error) => {
                self.terminal = true;
                Err(ToolCallError::Failed(error))
            },
        }
    }
}

/// What was fed to the parser over several events, none of which was faulty.
pub open spec fn fed_text(state: TextState, events: Seq<TextEventModel>) -> Seq<char>
    decreases events.len(),
{
    if events.len() == 0 {
        Seq::empty()
    } else {
        let before = events.drop_last();
        fed_text(state, before) + text_fed(text_after_all(state, before), events.last())
    }
}

/// The text of an attempt after several events.
pub open spec fn text_after_all(state: TextState, events: Seq<TextEventModel>) -> TextState
    decreases events.len(),
{
    if events.len() == 0 {
        state
    } else {
        text_after(text_after_all(state, events.drop_last()), events.last())
    }
}

/// The parser sees the output exactly once: what it was fed over an attempt that did
/// not fail is the raw output, however it was split into deltas and a complete text.
pub proof fn law_parser_sees_the_output_once(events: Seq<TextEventModel>)
    requires
        !text_after_all(
            TextState { raw_output: Seq::empty(), text_complete: false, terminal: false },
            events,
        ).terminal,
    ensures
        ({
            let start = TextState {
                raw_output: Seq::<char>::empty(),
                text_complete: false,
                terminal: false,
            };
            fed_text(start, events) == text_after_all(start, events).raw_output
        }),
    decreases events.len(),
{
    let start = TextState { raw_output: Seq::empty(), text_complete: false, terminal: false };
    if events.len() > 0 {
        let before = events.drop_last();
        let state = text_after_all(start, before);
        assert(!state.terminal);
        law_parser_sees_the_output_once(before);
        match events.last() {
            TextEventModel::Delta(_) => {},
            TextEventModel::Complete(output) => {
                assert(state.raw_output + output.skip(state.raw_output.len() as int) =~= output);
            },
        }
    }
}

/// One thing that the provider does in an attempt.
pub enum ProviderEventModel {
    Text(TextEventModel),
    Tool(Option<(ToolResultModel, bool)>),
}

/// An attempt after what the provider did.
pub open spec fn after_provider_event<C: TurnChannels>(
    attempt: StreamingModel<C>,
    event: ProviderEventModel,
) -> StreamingModel<C> {
    match event {
        ProviderEventModel::Text(event) => StreamingModel {
            text: text_after(attempt.text, event),
            ..attempt
        },
        ProviderEventModel::Tool(answer) => tool_taken(attempt, answer),
    }
}

/// An attempt after several things that the provider did.
pub open spec fn after_provider_events<C: TurnChannels>(
    attempt: StreamingModel<C>,
    events: Seq<ProviderEventModel>,
) -> StreamingModel<C>
    decreases events.len(),
{
    if events.len() == 0 {
        attempt
    } else {
        after_provider_event(after_provider_events(attempt, events.drop_last()), events.last())
    }
}

/// Whether an event is one that an attempt fails on: faulty text, or a tool that could
/// not be run.
pub open spec fn is_failure<C: TurnChannels>(
    attempt: StreamingModel<C>,
    event: ProviderEventModel,
) -> bool {
    match event {
        ProviderEventModel::Text(event) => text_fault(attempt.text, event) is Some,
        ProviderEventModel::Tool(answer) => answer is None,
    }
}

/// A failed attempt stays failed, whatever the provider does then: it takes no text,
/// calls no tool and keeps no result.
pub proof fn law_failure_is_final<C: TurnChannels>(
    attempt: StreamingModel<C>,
    events: Seq<ProviderEventModel>,
    text: TextEventModel,
)
    requires
        attempt.text.terminal,
    ensures
        after_provider_events(attempt, events) == attempt,
        after_provider_events(attempt, events).text.terminal,
        text_fault(after_provider_events(attempt, events).text, text) == Some(TextFault::Terminal),
    decreases events.len(),
{
    if events.len() > 0 {
        law_failure_is_final(attempt, events.drop_last(), text);
    }
}

/// A failure stops parsing and dispatch alike: whether the text or a tool is at fault,
/// from then on the attempt is failed and nothing changes it.
pub proof fn law_failures_stop_parsing_and_dispatch<C: TurnChannels>(
    attempt: StreamingModel<C>,
    failure: ProviderEventModel,
    events: Seq<ProviderEventModel>,
    text: TextEventModel,
)
    requires
        is_failure(attempt, failure),
    ensures
        ({
            let failed = after_provider_event(attempt, failure);
            let later = after_provider_events(failed, events);
            &&& later == failed
            &&& later.text.terminal
            &&& text_fault(later.text, text) == Some(TextFault::Terminal)
        }),
{
    law_failure_is_final(after_provider_event(attempt, failure), events, text);
}

} // verus!
