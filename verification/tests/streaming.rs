use std::sync::Arc;

use agentview::component::attempt::{
    run_callback, CallbackPhase, MountedAttemptBinding, MountedCallbackFailure,
    MountedStreamingAttempt, ParserFailure, StreamingAttemptError, ToolCallError, ToolCallRefused,
};
use agentview::component::attempt_start::{
    abort_started, instantiate_bindings, providers_answered, start_attempt, start_bindings,
    StreamingAttemptStartError,
};
use agentview::component::authoring::durable_binding_factory;
use agentview::component::binding::{
    BindingAbortAck, BindingAbortReason, BindingErrorSource, BindingFailure, BindingInstance,
    BindingPhase, MappedBindingInstance, ProviderDispatcherAbortAck, TurnBindingCx,
};
use agentview::component::channel_map::TurnChannelMap;
use agentview::component::channels::{LaneUpdate, StreamUpdate, TurnChannels, TurnEmission};
use agentview::component::contract::RuntimeContract;
use agentview::component::durable::{DurableComponent, DurableSystem};
use agentview::component::durable_keys::{
    PublicationCandidateFingerprint, PublicationId, PublicationRequestId,
};
use agentview::component::finishing::{
    FinishStep, FinishedStreamingAttempt, ProviderDispatcherAbort, ProviderDispatcherAbortOutcome,
    PublicationFingerprintContext, PublicationFingerprintFactory, PublicationStagingFailure,
    StreamingFinishFailure, TurnPublication,
};
use agentview::component::identity::{
    BindingId, BindingKey, ComponentError, ComponentId, HarnessEpochId, LiveScopeId,
    ProviderAttemptId, ProviderAttemptIdentity, TurnInstanceId,
};
use agentview::component::live::{
    finish_live_abort, LiveAbortOutcome, LiveEffectAbortAck, NoLiveEffects,
};
use agentview::component::mount::{compile_durable_mount_provided, MountPlan, PlacedBinding};
use agentview::component::provider_publication::{
    FinishedProviderAttempt, StagedProviderPublication,
};
use agentview::component::publication::{
    CommitContract, CommitStager, CommitStagingContext, PreparedSessionMutation, PublicationPhase,
    PublicationReceipt, StagedCommit, StagedOutbox, StagedPublication,
};
use agentview::component::sink::{StreamingComponentError, StreamingComponentSink};
use agentview::component::streaming::{streaming_contract_tag, StreamingXml};
use agentview::component::tools::{
    ProviderToolCall, ProviderToolResponse, ProviderToolResult, RuntimeRoute,
};
use agentview::component::mountable::Component;
use agentview::component::tree::compile_system_component;
use agentview::json::JsonValue;
use agentview::llm_call::TextTurnEvent;
use agentview::pom::{BlockChildren, Document, MixedContent, TextNode, XmlName, XmlNode};

#[derive(Debug, PartialEq)]
struct Lanes;

impl TurnChannels for Lanes {
    type Output = String;
    type Live = u8;
    type Commit = u32;
    type Diagnostic = &'static str;
}

fn xml(name: &str) -> XmlNode {
    XmlNode::new(XmlName::try_from(name).unwrap())
}

fn identity() -> ProviderAttemptIdentity {
    ProviderAttemptIdentity::new(
        HarnessEpochId::new(1),
        TurnInstanceId::new(2),
        ProviderAttemptId::new(3),
        LiveScopeId::new(4),
        "call",
    )
}

fn binding_id(key: &str) -> BindingId {
    BindingId::new(ComponentId::root(), BindingKey::new(key).unwrap())
}

fn mounted(tag: &str) -> MountedAttemptBinding {
    MountedAttemptBinding::new(binding_id(tag), RuntimeRoute::xml(tag).unwrap())
}

fn attempt() -> MountedStreamingAttempt<Lanes> {
    MountedStreamingAttempt::new(identity(), vec![mounted("note"), mounted("tool")])
}

type Fault = StreamingAttemptError<&'static str, &'static str, &'static str>;
type FinishFailure =
    StreamingFinishFailure<Lanes, &'static str, &'static str, &'static str>;

fn delta(text: &str) -> TextTurnEvent {
    TextTurnEvent::TextDelta(text.to_owned())
}

fn complete(text: &str) -> TextTurnEvent {
    TextTurnEvent::TextComplete(text.to_owned())
}

fn feed(
    attempt: &mut MountedStreamingAttempt<Lanes>,
    event: TextTurnEvent,
) -> Result<Option<String>, Fault> {
    attempt.on_event(event)
}

#[test]
fn the_parser_sees_every_part_of_the_text_once() {
    let mut attempt = attempt();
    assert_eq!(feed(&mut attempt, delta("a\u{e9}")).ok().unwrap().unwrap(), "a\u{e9}");
    assert_eq!(feed(&mut attempt, delta("b")).ok().unwrap().unwrap(), "b");
    assert_eq!(
        feed(&mut attempt, complete("a\u{e9}bcd")).ok().unwrap().unwrap(),
        "cd"
    );
    assert_eq!(attempt.raw_output(), "a\u{e9}bcd");
    assert!(!attempt.is_terminal());
}

#[test]
fn a_complete_text_that_was_streamed_feeds_nothing() {
    let mut attempt = attempt();
    feed(&mut attempt, delta("same")).ok().unwrap();
    assert!(feed(&mut attempt, complete("same")).ok().unwrap().is_none());
}

#[test]
fn a_complete_text_continues_what_was_streamed() {
    let mut attempt = attempt();
    feed(&mut attempt, delta("abc")).ok().unwrap();
    assert!(matches!(
        feed(&mut attempt, complete("abX\u{e9}")),
        Err(StreamingAttemptError::TextCompletionMismatch {
            delta_bytes: 3,
            completion_bytes: 5
        })
    ));
    assert_eq!(attempt.raw_output(), "abX\u{e9}");
    assert!(matches!(
        feed(&mut attempt, delta("more")),
        Err(StreamingAttemptError::Terminal)
    ));
}

#[test]
fn nothing_follows_the_complete_text() {
    let mut attempt = attempt();
    feed(&mut attempt, complete("all")).ok().unwrap();
    assert!(matches!(
        feed(&mut attempt, delta("more")),
        Err(StreamingAttemptError::TextAfterCompletion)
    ));
    assert!(attempt.is_terminal());
}

#[test]
fn parser_failures_name_the_binding_of_their_tag() {
    let mut first = attempt();
    let failure: ParserFailure<&str, &str> = ParserFailure::Callback {
        tag: "tool".to_owned(),
        phase: CallbackPhase::Stream,
        source: MountedCallbackFailure::Binding(BindingFailure::new("bad")),
    };
    let error: Fault = first.parser_failed(failure);
    assert!(matches!(
        error,
        StreamingAttemptError::Binding(fault)
            if fault.phase() == BindingPhase::Stream
                && fault.origin().binding_id().key().as_str() == "tool"
                && matches!(
                    fault.source_failure().source_error(),
                    BindingErrorSource::Author("bad")
                )
    ));

    let mut second = attempt();
    let failure: ParserFailure<&str, &str> = ParserFailure::IncompleteRegisteredTag {
        tag: "note".to_owned(),
    };
    let error: Fault = second.parser_failed(failure);
    assert!(matches!(
        error,
        StreamingAttemptError::Binding(fault)
            if fault.phase() == BindingPhase::Finalize
                && matches!(
                    fault.source_failure().source_error(),
                    BindingErrorSource::IncompleteRegisteredXml { tag } if tag == "note"
                )
    ));
}

fn update() -> LaneUpdate<Lanes> {
    StreamUpdate::new()
        .with_emission(TurnEmission::Output("one".to_owned()))
        .with_emission(TurnEmission::Commit(7))
        .with_emission(TurnEmission::Live(1))
        .with_emission(TurnEmission::Output("two".to_owned()))
        .with_emission(TurnEmission::Live(2))
        .with_emission(TurnEmission::Commit(8))
        .with_diagnostic("seen")
}

fn is_output(emission: &TurnEmission<Lanes>, text: &str) -> bool {
    matches!(emission, TurnEmission::Output(output) if output == text)
}

#[test]
fn each_emission_goes_to_its_lane() {
    let mut attempt = attempt();
    let mut interpretation = attempt.interpret(1, BindingPhase::Complete, update());
    let mut effects = Vec::new();
    while let Some((context, live)) = attempt.next_effect(&mut interpretation) {
        assert_eq!(context.phase(), BindingPhase::Complete);
        assert_eq!(context.origin().binding_id().key().as_str(), "tool");
        effects.push((context.sequence(), live));
        attempt.effect_answered::<&str>(context, Ok(())).ok().unwrap();
    }
    assert_eq!(effects, [(0, 1), (1, 2)]);
    attempt.record(interpretation.finish());
    let recorded = attempt.take_update();
    assert_eq!(recorded.emissions().len(), 2);
    assert!(is_output(&recorded.emissions()[0], "one"));
    assert!(is_output(&recorded.emissions()[1], "two"));
    assert_eq!(recorded.diagnostics(), ["seen"]);
    assert!(attempt.take_update().is_empty());
    assert_eq!(attempt.begin_abort(BindingAbortReason::Cancelled).applied_effects(), 2);
}

#[test]
fn a_failed_effect_is_reported_with_its_place() {
    let mut attempt = attempt();
    let mut interpretation = attempt.interpret(0, BindingPhase::Open, update());
    let (context, _) = attempt.next_effect(&mut interpretation).unwrap();
    let fault = attempt
        .effect_answered(context, Err("refused"))
        .err()
        .unwrap();
    assert_eq!(fault.context().sequence(), 0);
    assert_eq!(fault.context().phase(), BindingPhase::Open);
    assert_eq!(fault.source_failure().source_error(), &"refused");
    assert_eq!(attempt.begin_abort(BindingAbortReason::Cancelled).applied_effects(), 0);
}

fn tool_result(name: &str) -> ProviderToolResult {
    ProviderToolResult::new(
        &ProviderToolCall::new("call-1", name, JsonValue::Null),
        ProviderToolResponse::success(JsonValue::Bool(true)),
    )
}

#[test]
fn replayed_tool_results_are_not_kept_twice() {
    let mut attempt = attempt();
    attempt.tool_answered::<&str>(Ok((tool_result("a"), false))).unwrap();
    attempt.tool_answered::<&str>(Ok((tool_result("a"), true))).unwrap();
    assert_eq!(attempt.provider_results().len(), 1);
    assert_eq!(
        attempt.tool_answered(Err("down")),
        Err(ToolCallError::Failed("down"))
    );
    assert!(attempt.is_terminal());
}

#[test]
fn a_failed_attempt_calls_no_tool() {
    let mut attempt = attempt();
    assert_eq!(attempt.begin_tool_call(), Ok(()));
    attempt.tool_answered::<&str>(Ok((tool_result("a"), false))).unwrap();
    feed(&mut attempt, complete("text")).ok().unwrap();
    assert_eq!(attempt.begin_tool_call(), Ok(()));
    feed(&mut attempt, complete("text")).err().unwrap();
    assert!(attempt.is_terminal());
    assert_eq!(attempt.begin_tool_call(), Err(ToolCallRefused));
    assert_eq!(
        attempt.tool_answered::<&str>(Ok((tool_result("b"), false))),
        Err(ToolCallError::Refused(ToolCallRefused))
    );
    assert_eq!(
        attempt.tool_answered(Err("down")),
        Err(ToolCallError::Refused(ToolCallRefused))
    );
    assert_eq!(attempt.provider_results().len(), 1);
}

#[test]
fn a_failed_tool_call_stops_the_text() {
    let mut attempt = attempt();
    attempt.tool_answered(Err("down")).unwrap_err();
    assert_eq!(attempt.begin_tool_call(), Err(ToolCallRefused));
    let fault = feed(&mut attempt, complete("text")).err().unwrap();
    assert!(matches!(fault, StreamingAttemptError::Terminal));
    assert_eq!(attempt.raw_output(), "");
}

#[test]
fn parser_failures_are_about_mounted_tags() {
    let attempt = attempt();
    let known = attempt.bindings()[0].route().name().to_owned();
    assert!(attempt.is_about_a_binding::<&str, &str>(&ParserFailure::IncompleteRegisteredTag {
        tag: known
    }));
    assert!(!attempt.is_about_a_binding::<&str, &str>(&ParserFailure::IncompleteRegisteredTag {
        tag: "unknown".to_owned()
    }));
    assert!(attempt.is_about_a_binding::<&str, &str>(&ParserFailure::Terminal));
    assert!(attempt.has_room_for_effect());
}

fn finished(commits: bool) -> FinishedStreamingAttempt<Lanes> {
    let mut attempt = attempt();
    feed(&mut attempt, complete("text")).ok().unwrap();
    attempt.tool_answered::<&str>(Ok((tool_result("a"), false))).unwrap();
    let finishing = attempt.finish_stream::<&str, &str, &str>().ok().unwrap();
    assert_eq!(finishing.step(), FinishStep::FinalizeParser);
    let finishing = finishing.parser_finalized::<&str, &str, &str>(Ok(())).ok().unwrap();
    assert_eq!(finishing.step(), FinishStep::FinishBinding(0));
    let given = if commits { update() } else { StreamUpdate::new() };
    let (mut finishing, mut interpretation) = finishing
        .binding_finished::<&str, &str, &str>(Ok(given))
        .ok()
        .unwrap();
    while let Some((context, _)) = finishing.attempt_mut().next_effect(&mut interpretation) {
        finishing
            .attempt_mut()
            .effect_answered::<&str>(context, Ok(()))
            .ok()
            .unwrap();
    }
    let finishing = finishing.binding_interpreted(interpretation);
    assert_eq!(finishing.step(), FinishStep::FinishBinding(1));
    let (finishing, interpretation) = finishing
        .binding_finished::<&str, &str, &str>(Ok(StreamUpdate::new()))
        .ok()
        .unwrap();
    let finishing = finishing.binding_interpreted(interpretation);
    assert_eq!(finishing.step(), FinishStep::FinishProviders);
    finishing
        .providers_finished::<&str, &str, &str>(Ok(StreamUpdate::from_diagnostic("last")))
        .ok()
        .unwrap()
}

#[test]
fn finishing_takes_its_steps_in_order() {
    let finished = finished(true);
    assert_eq!(finished.raw_output(), "text");
    assert_eq!(finished.update().diagnostics(), ["seen", "last"]);
    assert_eq!(finished.update().emissions().len(), 2);
    assert_eq!(finished.provider_results().len(), 1);
    let mut published = finished.after_publish();
    assert_eq!(published.receipt().identity(), &identity());
    assert_eq!(published.pending_commits(), &vec![7, 8]);
    assert_eq!(published.take_pending_commits(), [7, 8]);
    assert!(published.take_pending_commits().is_empty());
}

#[test]
fn commits_are_released_by_a_publication_alone() {
    let failure = finished(true).publication_ended(Err("store is down")).err().unwrap();
    assert_eq!(failure.source_error(), &"store is down");
    assert_eq!(failure.identity(), &identity());
    assert_eq!(failure.provider_results().len(), 1);
    let kept = failure.into_attempt();
    let published = kept.publication_ended::<&str>(Ok(())).ok().unwrap();
    assert_eq!(published.pending_commits(), &vec![7, 8]);
}

#[test]
fn a_failed_attempt_cannot_be_finished() {
    let mut attempt = attempt();
    attempt.tool_answered(Err("down")).unwrap_err();
    let failure: FinishFailure = attempt.finish_stream().err().unwrap();
    assert!(matches!(failure.error(), StreamingAttemptError::Terminal));
    assert_eq!(failure.identity(), &identity());
}

#[test]
fn a_binding_that_fails_to_finish_ends_the_attempt() {
    let finishing = attempt().finish_stream::<&str, &str, &str>().ok().unwrap();
    let finishing = finishing.parser_finalized::<&str, &str, &str>(Ok(())).ok().unwrap();
    let failure: FinishFailure = finishing
        .binding_finished(Err(BindingFailure::new("late")))
        .err()
        .unwrap();
    let (attempt, error) = failure.into_parts();
    assert!(attempt.is_terminal());
    assert!(matches!(
        error,
        StreamingAttemptError::Binding(fault)
            if fault.phase() == BindingPhase::Finish
                && fault.origin().binding_id().key().as_str() == "note"
    ));
}

struct Stager;

impl CommitStager<Lanes> for Stager {
    type Payload = u32;
    type Error = &'static str;

    fn stage(
        &self,
        _context: CommitStagingContext<'_>,
        commit: &u32,
    ) -> Result<StagedCommit<u32>, &'static str> {
        Ok(StagedCommit::new(
            CommitContract::new("number", 1).unwrap(),
            *commit * 10,
        ))
    }
}

struct Fingerprints(bool);

impl PublicationFingerprintFactory<&'static str, u32, u64> for Fingerprints {
    type Error = &'static str;

    fn fingerprint(
        &self,
        context: PublicationFingerprintContext<'_, &'static str, u32, u64>,
    ) -> Result<PublicationCandidateFingerprint, &'static str> {
        if !self.0 {
            return Err("no fingerprint");
        }
        Ok(PublicationCandidateFingerprint::new(&format!(
            "{}/{}/{}/{}/{}",
            context.request_id().as_str(),
            context.expected_revision(),
            context.mutation().value(),
            context.raw_output(),
            context.outbox().len()
        ))
        .unwrap())
    }
}

fn request() -> PublicationRequestId {
    PublicationRequestId::new("request").unwrap()
}

#[test]
fn a_finished_attempt_is_published_durably() {
    let mut staged = finished(true)
        .stage_durable_publication(
            request(),
            5u64,
            PreparedSessionMutation::new("change"),
            &Stager,
            &Fingerprints(true),
        )
        .ok()
        .unwrap();
    let candidate = staged.candidate().unwrap();
    assert_eq!(candidate.fingerprint().as_str(), "request/5/change/text/2");
    assert_eq!(candidate.outbox().items()[1].payload(), &80);
    assert_eq!(candidate.raw_output(), "text");
    assert_eq!(staged.phase(), PublicationPhase::Ready);

    let receipt = PublicationReceipt::new(
        candidate.request_id().clone(),
        candidate.fingerprint().clone(),
        PublicationId::new("p1").unwrap(),
        6u64,
        2,
    );
    let publication = staged.publication_mut();
    publication.begin_publish().unwrap();
    publication.finish_publish::<&str>(Ok(receipt)).ok().unwrap();
    let mut published = staged.into_published().ok().unwrap();
    assert_eq!(published.receipt().session_revision(), &6);
    assert_eq!(published.raw_output(), "text");
    assert_eq!(published.provider_results().len(), 1);
    assert_eq!(published.take_update().diagnostics(), ["seen", "last"]);
    assert!(published.update().is_empty());
}

#[test]
fn a_failed_fingerprint_keeps_the_attempt() {
    let failure = finished(true)
        .stage_durable_publication(
            request(),
            5u64,
            PreparedSessionMutation::new("change"),
            &Stager,
            &Fingerprints(false),
        )
        .err()
        .unwrap();
    assert_eq!(failure.plan().expected_revision(), &5);
    let (kept, _plan, source) = failure.into_parts();
    assert!(matches!(
        source,
        PublicationStagingFailure::Fingerprint("no fingerprint")
    ));
    assert_eq!(kept.after_publish().pending_commits(), &vec![7, 8]);
}

#[test]
fn a_staged_attempt_comes_back_while_it_is_ready() {
    let mut staged = finished(false)
        .stage_durable_publication(
            request(),
            5u64,
            PreparedSessionMutation::new("change"),
            &Stager,
            &Fingerprints(true),
        )
        .ok()
        .unwrap();
    staged.publication_mut().begin_publish().unwrap();
    let mut staged = staged.into_finished_if_ready().err().unwrap();
    staged
        .publication_mut()
        .finish_publish::<&str>(Err(
            agentview::component::publication::PublicationWriteError::Rejected("no"),
        ))
        .err()
        .unwrap();
    let finished = staged.into_finished_if_ready().ok().unwrap();
    assert_eq!(finished.raw_output(), "text");
}

fn provider_candidate() -> StagedPublication<(), u32, u64> {
    let outbox: StagedOutbox<u32> = agentview::component::publication::stage_commit_outbox::<
        Lanes,
        Stager,
    >(request(), &vec![1], &Stager)
    .ok()
    .unwrap();
    StagedPublication::new(
        request(),
        PublicationCandidateFingerprint::new("f").unwrap(),
        1u64,
        PreparedSessionMutation::new(()),
        identity(),
        "",
        vec![tool_result("a")],
        outbox,
    )
    .ok()
    .unwrap()
}

#[test]
fn a_provider_attempt_is_published_durably() {
    let finished: FinishedProviderAttempt<Lanes> = FinishedProviderAttempt::new(
        identity(),
        vec![tool_result("a")],
        StreamUpdate::from_diagnostic("kept"),
    );
    let staged = StagedProviderPublication::new(finished, provider_candidate());
    assert_eq!(staged.identity(), &identity());
    let mut staged = staged.into_published().err().unwrap();
    let receipt = PublicationReceipt::new(
        request(),
        PublicationCandidateFingerprint::new("f").unwrap(),
        PublicationId::new("p").unwrap(),
        2u64,
        1,
    );
    staged.publication_mut().begin_publish().unwrap();
    staged
        .publication_mut()
        .finish_publish::<&str>(Ok(receipt))
        .ok()
        .unwrap();
    let mut published = staged.into_published().ok().unwrap();
    assert_eq!(published.results().len(), 1);
    assert_eq!(published.receipt().outbox_count(), 1);
    assert_eq!(published.take_update().diagnostics(), ["kept"]);
}

#[test]
fn aborting_reports_who_cleaned_up() {
    let attempt = attempt();
    let context = attempt.begin_abort(BindingAbortReason::ProviderFailure);
    let acknowledgement = NoLiveEffects.abort(&context);
    assert_eq!(acknowledgement, LiveEffectAbortAck::NoEffectsApplied);
    let live: LiveAbortOutcome<&str> = finish_live_abort(context, Ok(acknowledgement));
    let report = attempt.abort(
        BindingAbortReason::ProviderFailure,
        live,
        vec![
            BindingAbortAck::NoCleanupNeeded,
            BindingAbortAck::LocalCleanupCompleted,
        ],
        vec![ProviderDispatcherAbort::<&str>::new(
            binding_id("search"),
            ProviderDispatcherAbortOutcome::Acknowledged(
                ProviderDispatcherAbortAck::CleanupCompleted,
            ),
        )],
    );
    assert!(report.cleanup_acknowledged());
    assert_eq!(report.bindings().len(), 2);
    assert_eq!(
        report.bindings()[1].acknowledgement(),
        BindingAbortAck::LocalCleanupCompleted
    );
    assert_eq!(report.dispatchers()[0].capability_id(), &binding_id("search"));
}

#[test]
fn a_failed_live_abort_is_not_acknowledged() {
    let attempt = attempt();
    let context = attempt.begin_abort(BindingAbortReason::Cancelled);
    let live = finish_live_abort(context, Err("stuck"));
    assert!(live.acknowledgement().is_none());
    assert_eq!(
        live.failure().unwrap().source_failure().source_error(),
        &"stuck"
    );
    let report = attempt.abort::<&str, &str>(
        BindingAbortReason::Cancelled,
        live,
        vec![
            BindingAbortAck::NoCleanupNeeded,
            BindingAbortAck::NoCleanupNeeded,
        ],
        Vec::new(),
    );
    assert!(!report.cleanup_acknowledged());
}

#[test]
fn turn_publications_show_what_was_made() {
    let finished = finished(false);
    let publication = TurnPublication::combined(
        finished.identity(),
        finished.raw_output(),
        finished.provider_results(),
    );
    assert_eq!(publication.raw_output(), "text");
    let provider = TurnPublication::provider(finished.identity(), finished.provider_results());
    assert_eq!(provider.raw_output(), "");
    assert_eq!(provider.provider_results().len(), 1);
}

struct Instance(&'static str);

impl BindingInstance<Lanes, (), String> for Instance {
    fn abort(&mut self, reason: BindingAbortReason) -> BindingAbortAck {
        assert_eq!(reason, BindingAbortReason::InitializationFailure);
        if self.0 == "first" {
            BindingAbortAck::LocalCleanupCompleted
        } else {
            BindingAbortAck::NoCleanupNeeded
        }
    }
}

type Maker = fn(TurnBindingCx<'_, u8>) -> Result<Instance, BindingFailure<String>>;

fn make_first(context: TurnBindingCx<'_, u8>) -> Result<Instance, BindingFailure<String>> {
    assert_eq!(context.props(), &9);
    Ok(Instance("first"))
}

fn make_second(_context: TurnBindingCx<'_, u8>) -> Result<Instance, BindingFailure<String>> {
    Ok(Instance("second"))
}

fn make_none(_context: TurnBindingCx<'_, u8>) -> Result<Instance, BindingFailure<String>> {
    Err(BindingFailure::new("cannot".to_owned()))
}

fn plan(makers: [(&str, Maker); 3]) -> MountPlan<Maker, ()> {
    let components: Vec<DurableComponent<Maker, ()>> = makers
        .into_iter()
        .map(|(tag, maker)| {
            durable_binding_factory(
                RuntimeContract::new(tag, "v1").unwrap(),
                Document::new(BlockChildren::new()),
                RuntimeRoute::xml(tag).unwrap(),
                Arc::new(maker),
            )
        })
        .collect();
    let mut system = DurableSystem::new(components).unwrap();
    compile_durable_mount_provided(
        compile_system_component(system.take_create_component().into_nodes()).unwrap(),
    )
    .unwrap()
}

#[test]
fn bindings_start_together_or_not_at_all() {
    let identity = identity();
    let good = plan([("a", make_first), ("b", make_second), ("c", make_second)]);
    let started = instantiate_bindings(good.binding_factories(), &9u8, &identity)
        .ok()
        .unwrap();
    assert_eq!(started.len(), 3);
    assert_eq!(started[0].instance.0, "first");
    assert_eq!(started[2].mounted.route().name(), "c");

    let bad = plan([("a", make_first), ("b", make_second), ("c", make_none)]);
    let failure = instantiate_bindings(bad.binding_factories(), &9u8, &identity)
        .err()
        .unwrap();
    assert_eq!(failure.created.len(), 2);
    assert_eq!(failure.fault.source_failure().source_error(), "cannot");
    assert_eq!(
        abort_started(failure.created, BindingAbortReason::InitializationFailure),
        [
            BindingAbortAck::LocalCleanupCompleted,
            BindingAbortAck::NoCleanupNeeded
        ]
    );
    let (fault, acknowledgements) = start_bindings::<u8, Lanes, (), _, _, _>(
        bad.binding_factories(),
        &9u8,
        &identity,
    )
    .err()
    .unwrap();
    assert_eq!(fault.phase(), BindingPhase::Initialize);
    assert_eq!(acknowledgements.len(), 2);
}

type StartError = StreamingAttemptStartError<String, &'static str>;

#[test]
fn attempts_start_as_a_whole() {
    let identity = identity();
    let good = plan([("a", make_first), ("b", make_second), ("c", make_second)]);
    let begun = start_attempt::<u8, Lanes, (), _, _, _, _, &'static str, _>(
        good.binding_factories(),
        &9u8,
        &identity,
        |asked: &ProviderAttemptIdentity| {
            assert_eq!(asked.call_label(), "call");
            Ok("providers")
        },
    )
    .ok()
    .unwrap();
    assert_eq!(begun.attempt.identity(), &identity);
    assert_eq!(begun.attempt.binding_count(), 3);
    assert_eq!(begun.instances[1].0, "second");
    assert_eq!(begun.providers, "providers");

    let (error, acknowledgements): (StartError, _) =
        start_attempt::<u8, Lanes, (), _, _, _, (), _, _>(
            good.binding_factories(),
            &9u8,
            &identity,
            |_: &ProviderAttemptIdentity| Err("no providers"),
        )
        .err()
        .unwrap();
    assert_eq!(error.provider_fault(), Some(&"no providers"));
    assert!(error.binding_fault().is_none());
    assert_eq!(acknowledgements.len(), 3);
    assert_eq!(acknowledgements[0], BindingAbortAck::LocalCleanupCompleted);

    let bad = plan([("a", make_first), ("b", make_none), ("c", make_second)]);
    let (error, acknowledgements): (StartError, _) =
        start_attempt::<u8, Lanes, (), _, _, _, (), _, _>(
            bad.binding_factories(),
            &9u8,
            &identity,
            |_: &ProviderAttemptIdentity| panic!("providers come after the bindings"),
        )
        .err()
        .unwrap();
    let fault = error.binding_fault().unwrap();
    assert_eq!(fault.source_failure().source_error(), "cannot");
    assert_eq!(fault.origin().route().name(), "b");
    assert!(error.provider_fault().is_none());
    assert_eq!(acknowledgements, [BindingAbortAck::LocalCleanupCompleted]);
}

#[test]
fn providers_answer_once_all_bindings_are_made() {
    let identity = identity();
    let good = plan([("a", make_first), ("b", make_second), ("c", make_second)]);
    let started = || {
        instantiate_bindings(good.binding_factories(), &9u8, &identity)
            .ok()
            .unwrap()
    };
    let begun = providers_answered::<Lanes, (), String, _, _, &'static str>(
        identity.clone(),
        started(),
        Ok(7),
    )
    .ok()
    .unwrap();
    assert_eq!(begun.providers, 7);
    assert_eq!(begun.instances.len(), 3);
    let (fault, acknowledgements) = providers_answered::<Lanes, (), String, _, u8, _>(
        identity.clone(),
        started(),
        Err("down"),
    )
    .err()
    .unwrap();
    assert_eq!(fault, "down");
    assert_eq!(acknowledgements.len(), 3);
}

struct Phases(Vec<&'static str>);

impl BindingInstance<Lanes, u8, &'static str> for Phases {
    fn on_open(&mut self, element: &u8) -> Result<LaneUpdate<Lanes>, BindingFailure<&'static str>> {
        self.0.push("open");
        Ok(StreamUpdate::new().with_emission(TurnEmission::Commit(u32::from(*element))))
    }

    fn on_stream(&mut self, _: &u8) -> Result<LaneUpdate<Lanes>, BindingFailure<&'static str>> {
        self.0.push("stream");
        Err(BindingFailure::new("streamed"))
    }

    fn on_complete(&mut self, _: &u8) -> Result<LaneUpdate<Lanes>, BindingFailure<&'static str>> {
        self.0.push("complete");
        Ok(StreamUpdate::from_diagnostic("completed"))
    }
}

#[test]
fn each_phase_runs_its_own_callback() {
    let attempt = attempt();
    let mut binding = Phases(Vec::new());
    let update = run_callback(&mut binding, CallbackPhase::Open, &5u8).ok().unwrap();
    assert!(matches!(update.emissions(), [TurnEmission::Commit(5)]));
    let failure = attempt
        .callback(1, &mut binding, CallbackPhase::Stream, &5u8)
        .err()
        .unwrap();
    assert_eq!(failure.source_error(), &"streamed");
    assert!(attempt
        .callback(1, &mut binding, CallbackPhase::Complete, &5u8)
        .is_ok());
    assert_eq!(binding.0, ["open", "stream", "complete"]);
}

#[test]
fn streams_listen_to_a_tag_or_a_tool() {
    assert_eq!(streaming_contract_tag(&xml("note")).unwrap(), "note");
    assert!(matches!(
        streaming_contract_tag(&xml("tool")),
        Err(ComponentError::InvalidBindingContract { message })
            if message == "a <tool> streaming contract requires a name attribute"
    ));
    let mut named = xml("tool");
    named
        .push_attribute(XmlName::try_from("name").unwrap(), "search")
        .unwrap();
    assert_eq!(streaming_contract_tag(&named).unwrap(), "search");
    let mut misnamed = xml("tool");
    misnamed
        .push_attribute(XmlName::try_from("name").unwrap(), "not a name")
        .unwrap();
    assert!(matches!(
        streaming_contract_tag(&misnamed),
        Err(ComponentError::InvalidBindingContract { message })
            if message == "invalid XML name: not a name"
    ));
}

#[test]
fn a_sink_collects_what_its_handlers_emit() {
    let view = StreamingXml::new(xml("note"))
        .init_state::<usize, String, &'static str>(0)
        .on_open(|state: &mut usize, element: &&str| {
            *state += 1;
            vec![format!("open {element} {state}")]
        })
        .on_complete(|state: &mut usize, element: &&str| {
            *state += 1;
            let answer: Result<Vec<String>, &'static str> = if element.is_empty() {
                Err("empty")
            } else {
                Ok(vec![format!("done {element} {state}")])
            };
            answer
        })
        .finish(|state: usize| vec![format!("finished {state}")])
        .into_view();
    let node = view.into_component_node().unwrap();
    let turn = compile_system_component(vec![node]).unwrap();
    assert_eq!(turn.system.children().len(), 1);
    let mut sink: StreamingComponentSink<_, String, &'static str, &str> =
        StreamingComponentSink::try_new(turn.bindings).ok().unwrap();
    assert_eq!(sink.on_event(delta("<note>")).unwrap(), "<note>");
    sink.open_element(0, &"x");
    sink.stream_element(0, &"x");
    sink.complete_element(0, &"x");
    sink.complete_element(0, &"");
    assert!(sink.on_event(complete("<note>x</note>")).is_none());
    let outcome = sink.finish();
    assert_eq!(outcome.raw_output(), "<note>x</note>");
    assert_eq!(outcome.effects(), ["open x 1", "done x 2", "finished 3"]);
    assert_eq!(outcome.diagnostics(), ["empty"]);
}

#[test]
fn one_tag_has_one_handler() {
    let make = || {
        StreamingXml::new(xml("note"))
            .init_state::<(), String, ()>(())
            .into_view()
            .into_component_node()
            .unwrap()
    };
    let turn = compile_system_component(vec![make(), make()]).unwrap();
    let error = StreamingComponentSink::<_, String, (), ()>::try_new(turn.bindings)
        .err()
        .unwrap();
    let StreamingComponentError::DuplicateTag { tag, first, second } = error;
    assert_eq!(tag, "note");
    assert_eq!(first, second);
    assert_eq!(first.key().as_str(), "stream");
}

#[derive(Debug, PartialEq)]
struct Wide;

impl TurnChannels for Wide {
    type Output = usize;
    type Live = u16;
    type Commit = u64;
    type Diagnostic = String;
}

#[test]
fn views_are_mapped_lane_by_lane() {
    let view = StreamingXml::new(xml("note"))
        .init_state::<(), String, &'static str>(())
        .on_open(|_: &mut (), element: &&str| vec![element.to_string()])
        .into_view()
        .map_output::<String, Lanes, _>(|text: String| format!("{text}!"))
        .into_view()
        .map_channels::<Lanes, Wide, _>(Arc::new(TurnChannelMap::new(
            |text: String| text.len(),
            u16::from,
            u64::from,
            |text: &'static str| text.to_owned(),
        )));
    let turn = compile_system_component(vec![view.into_component_node().unwrap()]).unwrap();
    assert_eq!(turn.bindings[0].id.component().as_str(), "/agentview::component::StreamingXml[note]");
    let mut sink: StreamingComponentSink<_, TurnEmission<Wide>, String, &str> =
        StreamingComponentSink::try_new(turn.bindings).ok().unwrap();
    sink.open_element(0, &"four");
    let outcome = sink.finish();
    assert!(matches!(outcome.effects(), [TurnEmission::Output(5)]));
    assert!(outcome.diagnostics().is_empty());
}

#[test]
fn mounted_bindings_keep_their_state() {
    let reducer = StreamingXml::new(xml("note"))
        .try_state_with::<Lanes, String, _>(|context: &TurnBindingCx<'_, u8>| {
            Ok::<usize, String>(usize::from(*context.props()))
        })
    .on_open::<usize, &str, Vec<TurnEmission<Lanes>>, String, _>(|state: &mut usize, _: &&str| {
        *state += 1;
        vec![TurnEmission::Commit(*state as u32)]
    })
    .try_on_complete::<usize, &str, Vec<TurnEmission<Lanes>>, String, _>(
        |state: &mut usize, element: &&str| {
            if element.is_empty() {
                return Err(format!("empty after {state}"));
            }
            Ok(Vec::new())
        },
    )
    .finish::<usize, Vec<TurnEmission<Lanes>>, String, _>(|state: &mut usize| {
        vec![TurnEmission::Live(*state as u8)]
    })
    .on_abort(|state: &mut usize, _: BindingAbortReason| {
        if *state > 5 {
            BindingAbortAck::LocalCleanupCompleted
        } else {
            BindingAbortAck::NoCleanupNeeded
        }
    });
    assert_eq!(reducer.route().unwrap().label(), "xml:note");
    let id = binding_id("note");
    let route = RuntimeRoute::xml("note").unwrap();
    let identity = identity();
    let context = TurnBindingCx::new(&5u8, &identity, &id, &route);
    let mut instance = reducer
        .instantiate::<_, usize, String>("note", &context)
        .ok()
        .unwrap();
    assert_eq!(instance.tag(), "note");
    let opened: LaneUpdate<Lanes> =
        BindingInstance::<Lanes, &str, String>::on_open(&mut instance, &"x").ok().unwrap();
    assert!(matches!(opened.emissions(), [TurnEmission::Commit(6)]));
    let streamed: LaneUpdate<Lanes> =
        BindingInstance::<Lanes, &str, String>::on_stream(&mut instance, &"x").ok().unwrap();
    assert!(streamed.is_empty());
    let failed = BindingInstance::<Lanes, &str, String>::on_complete(&mut instance, &"")
        .err()
        .unwrap();
    assert_eq!(failed.source_error(), "empty after 6");
    let mut mapped = MappedBindingInstance::new(
        instance,
        TurnChannelMap::<Lanes, Wide, _, _, _, _>::new(
            |text: String| text.len(),
            u16::from,
            u64::from,
            |text: &'static str| text.to_owned(),
        ),
    );
    let last: LaneUpdate<Wide> =
        BindingInstance::<Wide, &str, String>::on_finish(&mut mapped).ok().unwrap();
    assert!(matches!(last.emissions(), [TurnEmission::Live(6)]));
    assert_eq!(
        BindingInstance::<Wide, &str, String>::abort(&mut mapped, BindingAbortReason::Cancelled),
        BindingAbortAck::LocalCleanupCompleted
    );
}

#[test]
fn streaming_contracts_are_mounted() {
    let make = || {
        StreamingXml::new(xml("note")).state_with::<Lanes, String, fn() -> usize>(usize::default)
    };
    let component: Component<_, ()> = make().into_component();
    let turn = compile_system_component(component.into_nodes()).unwrap();
    assert_eq!(
        turn.bindings[0].id.component().as_str(),
        "/agentview::component::StreamingXml[note]"
    );
    let contract = RuntimeContract::new("notes", "v1").unwrap();
    let mut system: DurableSystem<_, ()> =
        DurableSystem::new(vec![make().into_durable_component(contract.clone())]).unwrap();
    let plan = compile_durable_mount_provided(
        compile_system_component(system.take_create_component().into_nodes()).unwrap(),
    )
    .unwrap();
    let factory = &plan.binding_factories().factories()[0];
    assert_eq!(factory.route().label(), "xml:note");
    assert_eq!(factory.declaration_id(), Some("notes"));
    let instance = factory
        .declaration()
        .handle()
        .instantiate::<_, usize, String>("note", &())
        .ok()
        .unwrap();
    assert_eq!(instance.tag(), "note");

    let keyed: DurableComponent<_, ()> =
        make().into_durable_component_with_key("", contract.clone());
    assert!(DurableSystem::new(vec![keyed]).is_err());
    let unnamed: DurableComponent<_, ()> = StreamingXml::new(xml("tool"))
        .state_with::<Lanes, String, fn() -> usize>(usize::default)
        .into_durable_component(contract);
    assert!(DurableSystem::new(vec![unnamed]).is_err());
}

#[test]
fn a_keyed_view_keeps_its_key() {
    let view = StreamingXml::new(xml("note"))
        .init_state::<(), TurnEmission<Lanes>, &'static str>(())
        .into_channels_view()
        .key("mine");
    assert!(matches!(
        view.into_component_node(),
        Err(ComponentError::ComponentAlreadyKeyed)
    ));
}

#[test]
fn contracts_may_hold_text() {
    let mut node = xml("note");
    node.push(MixedContent::text(TextNode::new("write a note")));
    let view = StreamingXml::new(node)
        .init_state::<(), String, ()>(())
        .into_view();
    let turn = compile_system_component(vec![view.into_component_node().unwrap()]).unwrap();
    let placed: &PlacedBinding<_> = &turn.bindings[0];
    assert_eq!(placed.binding.tag(), "note");
}
