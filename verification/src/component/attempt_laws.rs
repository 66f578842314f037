//! What an attempt makes of the course of its events.

use vstd::prelude::*;
use crate::component::attempt::{after_provider_event, after_provider_events, text_after};
use crate::component::attempt::{callback_phase, has_tag, listener, listens_to, text_after_all};
use crate::component::attempt::{text_fault, text_fed, tool_taken, MountedBindingModel};
use crate::component::attempt::ProviderEventModel;
use crate::component::attempt::{reports_parser_failure, CallbackPhase};
use crate::component::attempt::{ParserFailure, StreamingAttemptError};
use crate::component::attempt::{StreamingModel, TextEventModel, TextFault, TextState};
use crate::component::binding::{BindingErrorSource, BindingPhase};
use crate::component::channels::{TurnChannels, TurnEmission};
use crate::component::identity::AttemptModel;
use crate::component::live::{commits_of, first_live, lives_of, outputs_of};
use crate::component::tools::ToolResultModel;

verus! {

/// Whether an event is the answer of a tool that was run for it, and not a replay.
pub open spec fn is_fresh_answer(event: ProviderEventModel) -> bool {
    match event {
        ProviderEventModel::Tool(Some((_, replayed))) => !replayed,
        _ => false,
    }
}

/// The results of the tools that were run in a course of events, in order.
pub open spec fn fresh_results(events: Seq<ProviderEventModel>) -> Seq<ToolResultModel> {
    events.filter(|event: ProviderEventModel| is_fresh_answer(event)).map_values(
        |event: ProviderEventModel| event->Tool_0->Some_0.0,
    )
}

/// Every result counts, and each counts once: an attempt that has not failed holds, behind
/// what it held before, exactly the results of the calls that were answered and not
/// replayed, in the order in which they were answered.
pub proof fn law_tool_results_are_kept_in_order<C: TurnChannels>(
    attempt: StreamingModel<C>,
    events: Seq<ProviderEventModel>,
)
    requires
        !after_provider_events(attempt, events).text.terminal,
    ensures
        after_provider_events(attempt, events).provider_results == attempt.provider_results
            + fresh_results(events),
    decreases events.len(),
{
    reveal(Seq::filter);
    let keep = |event: ProviderEventModel| is_fresh_answer(event);
    if events.len() == 0 {
        assert(fresh_results(events) =~= Seq::empty());
        assert(attempt.provider_results + fresh_results(events) =~= attempt.provider_results);
    } else {
        let before = events.drop_last();
        assert(!after_provider_events(attempt, before).text.terminal);
        law_tool_results_are_kept_in_order(attempt, before);
        if is_fresh_answer(events.last()) {
            let added = events.last()->Tool_0->Some_0.0;
            assert(events.filter(keep) =~= before.filter(keep).push(events.last()));
            assert(fresh_results(events) =~= fresh_results(before).push(added));
            assert(attempt.provider_results + fresh_results(events) =~= (attempt.provider_results
                + fresh_results(before)).push(added));
        } else {
            assert(events.filter(keep) =~= before.filter(keep));
        }
    }
}

/// What the provider does leaves everything else of an attempt as it is: its identity,
/// its bindings, its updates, its commits and the numbers of its live effects.
pub proof fn law_events_touch_text_and_results_alone<C: TurnChannels>(
    attempt: StreamingModel<C>,
    event: ProviderEventModel,
)
    ensures
        ({
            let after = after_provider_event(attempt, event);
            &&& after.identity == attempt.identity
            &&& after.bindings == attempt.bindings
            &&& after.update == attempt.update
            &&& after.commits == attempt.commits
            &&& after.live == attempt.live
            &&& event is Text ==> after.provider_results == attempt.provider_results
            &&& event is Tool ==> after.text.raw_output == attempt.text.raw_output
                && after.text.text_complete == attempt.text.text_complete
        }),
{
}

/// Whatever an attempt that has not failed holds, the answer of a tool adds its result
/// behind that, a replay adds nothing, and a tool that could not be run ends the attempt.
pub proof fn law_each_answer_counts_once<C: TurnChannels>(
    attempt: StreamingModel<C>,
    answer: Option<(ToolResultModel, bool)>,
)
    requires
        !attempt.text.terminal,
    ensures
        ({
            let after = tool_taken(attempt, answer);
            &&& after.text.terminal <==> answer is None
            &&& answer is Some && !answer->Some_0.1 ==> after.provider_results.len()
                == attempt.provider_results.len() + 1 && after.provider_results.last()
                == answer->Some_0.0 && after.provider_results.drop_last()
                == attempt.provider_results
            &&& answer is None || answer->Some_0.1 ==> after.provider_results
                == attempt.provider_results
        }),
{
    if answer is Some && !answer->Some_0.1 {
        assert(tool_taken(attempt, answer).provider_results.drop_last()
            =~= attempt.provider_results);
    }
}

/// Failing an attempt changes nothing about it but that it has failed.
pub proof fn law_failing_keeps_the_rest<C: TurnChannels>(attempt: StreamingModel<C>)
    ensures
        attempt.failed().text.terminal,
        attempt.failed().text.raw_output == attempt.text.raw_output,
        attempt.failed().text.text_complete == attempt.text.text_complete,
        attempt.failed().identity == attempt.identity,
        attempt.failed().bindings == attempt.bindings,
        attempt.failed().update == attempt.update,
        attempt.failed().commits == attempt.commits,
        attempt.failed().live == attempt.live,
        attempt.failed().provider_results == attempt.provider_results,
{
}

/// The deltas of a course of text events, one behind the other.
pub open spec fn sent_deltas(events: Seq<TextEventModel>) -> Seq<char>
    decreases events.len(),
{
    if events.len() == 0 {
        Seq::empty()
    } else {
        sent_deltas(events.drop_last()) + match events.last() {
            TextEventModel::Delta(chunk) => chunk,
            TextEventModel::Complete(_) => Seq::empty(),
        }
    }
}

/// Whether text events follow each other as they should: deltas, and then at most one
/// complete text, which begins with what the deltas said.
pub open spec fn is_text_course(events: Seq<TextEventModel>) -> bool {
    &&& forall|i: int| 0 <= i < events.len() - 1 ==> (#[trigger] events[i]) is Delta
    &&& events.len() > 0 && events.last() is Complete ==> sent_deltas(
        events.drop_last(),
    ).is_prefix_of(events.last()->Complete_0)
}

/// The text of an attempt of which nothing has happened.
pub open spec fn no_text() -> TextState {
    TextState { raw_output: Seq::empty(), text_complete: false, terminal: false }
}

/// An attempt takes a course of text events exactly where they follow each other as they
/// should. Its raw output is then the complete text, or, while that is due, all deltas.
pub proof fn law_raw_output_is_what_was_sent(events: Seq<TextEventModel>)
    ensures
        ({
            let text = text_after_all(no_text(), events);
            let complete = events.len() > 0 && events.last() is Complete;
            &&& !text.terminal <==> is_text_course(events)
            &&& !text.terminal ==> text.text_complete == complete
            &&& !text.terminal ==> text.raw_output == if complete {
                events.last()->Complete_0
            } else {
                sent_deltas(events)
            }
        }),
    decreases events.len(),
{
    if events.len() > 0 {
        let before = events.drop_last();
        let text = text_after_all(no_text(), before);
        law_raw_output_is_what_was_sent(before);
        if is_text_course(events) {
            assert forall|i: int| 0 <= i < before.len() - 1 implies (#[trigger] before[i]) is Delta by {
                assert(events[i] is Delta);
            }
            if before.len() > 0 {
                assert(events[before.len() - 1] is Delta);
            }
            assert(is_text_course(before));
        }
        if !text_after_all(no_text(), events).terminal {
            assert(!text.terminal);
            assert forall|i: int| 0 <= i < events.len() - 1 implies (#[trigger] events[i]) is Delta by {
                if i < before.len() - 1 {
                    assert(before[i] is Delta);
                } else {
                    assert(events[i] == before.last());
                }
            }
        }
        if !text.terminal && !text.text_complete && events.last() is Complete {
            assert(text.raw_output == sent_deltas(before));
        }
        if events.last() is Delta {
            assert(sent_deltas(events) == sent_deltas(before) + events.last()->Delta_0);
        }
    }
}

/// What is wrong with the event behind a course that an attempt took: text after the
/// complete text, or a complete text that does not begin with the deltas, which is then
/// what the attempt shows.
pub proof fn law_text_faults_have_their_reasons(
    events: Seq<TextEventModel>,
    event: TextEventModel,
)
    requires
        is_text_course(events),
    ensures
        ({
            let text = text_after_all(no_text(), events);
            let complete = events.len() > 0 && events.last() is Complete;
            let fault = text_fault(text, event);
            &&& fault == Some(TextFault::AfterCompletion) <==> complete
            &&& fault == Some(TextFault::CompletionMismatch) <==> !complete && event is Complete
                && !sent_deltas(events).is_prefix_of(event->Complete_0)
            &&& fault != Some(TextFault::Terminal)
            &&& fault is Some <==> text_after(text, event).terminal
            &&& fault == Some(TextFault::CompletionMismatch) ==> text_after(text, event).raw_output
                == event->Complete_0 && text_after(text, event).text_complete
            &&& fault == Some(TextFault::AfterCompletion) ==> text_after(text, event).raw_output
                == text.raw_output
        }),
{
    law_raw_output_is_what_was_sent(events);
}

/// What the parser is fed for an event brings it from the raw output before to the raw
/// output after.
pub proof fn law_the_parser_follows_the_output(text: TextState, event: TextEventModel)
    requires
        text_fault(text, event) is None,
    ensures
        text.raw_output + text_fed(text, event) == text_after(text, event).raw_output,
{
    if event is Complete {
        let output = event->Complete_0;
        assert(text.raw_output.is_prefix_of(output));
        assert(text.raw_output + output.skip(text.raw_output.len() as int) =~= output);
    }
}

/// A tag belongs to the first binding with an XML route of that name.
pub proof fn law_tags_belong_to_the_first_listener(
    bindings: Seq<MountedBindingModel>,
    tag: Seq<char>,
    at: int,
)
    requires
        0 <= at < bindings.len(),
        bindings[at].route.namespace == "xml"@,
        bindings[at].route.name == tag,
        forall|i: int|
            0 <= i < at ==> !((#[trigger] bindings[i]).route.namespace == "xml"@
                && bindings[i].route.name == tag),
    ensures
        has_tag(bindings, tag),
        listener(bindings, tag) == bindings[at],
    decreases bindings.len(),
{
    assert(listens_to(bindings[at], tag));
    if at > 0 {
        let rest = bindings.drop_first();
        assert(!(bindings[0].route.namespace == "xml"@ && bindings[0].route.name == tag));
        assert forall|i: int| 0 <= i < at - 1 implies !((#[trigger] rest[i]).route.namespace
            == "xml"@ && rest[i].route.name == tag) by {
            assert(rest[i] == bindings[i + 1]);
        }
        law_tags_belong_to_the_first_listener(rest, tag, at - 1);
    }
}

/// No binding without an XML route of a name listens to the tag of that name.
pub proof fn law_other_tags_belong_to_nobody(bindings: Seq<MountedBindingModel>, tag: Seq<char>)
    requires
        forall|i: int|
            0 <= i < bindings.len() ==> !((#[trigger] bindings[i]).route.namespace == "xml"@
                && bindings[i].route.name == tag),
    ensures
        !has_tag(bindings, tag),
{
}

/// A failed callback is blamed on the first binding that listens to its tag, in the phase
/// in which it ran and with the author's error.
pub proof fn law_callback_failures_name_their_binding<E, L, P>(
    identity: AttemptModel,
    bindings: Seq<MountedBindingModel>,
    failure: ParserFailure<E, L>,
    error: StreamingAttemptError<E, L, P>,
    at: int,
)
    requires
        reports_parser_failure(identity, bindings, failure, error),
        failure is Callback || failure is IncompleteRegisteredTag,
        0 <= at < bindings.len(),
        ({
            let tag = if failure is Callback {
                failure->Callback_tag@
            } else {
                failure->IncompleteRegisteredTag_tag@
            };
            &&& bindings[at].route.namespace == "xml"@
            &&& bindings[at].route.name == tag
            &&& forall|i: int|
                0 <= i < at ==> !((#[trigger] bindings[i]).route.namespace == "xml"@
                    && bindings[i].route.name == tag)
        }),
    ensures
        failure is Callback && failure->source is Live ==> error == StreamingAttemptError::<
            E,
            L,
            P,
        >::Live(failure->source->Live_0),
        failure is Callback && failure->source is Binding ==> {
            &&& error is Binding
            &&& error->Binding_0@.origin.attempt == identity
            &&& error->Binding_0@.origin.binding_id == bindings[at].id
            &&& error->Binding_0@.origin.route == bindings[at].route
            &&& error->Binding_0@.error == BindingErrorSource::Author(
                failure->source->Binding_0.error(),
            )
            &&& failure->phase == CallbackPhase::Open ==> error->Binding_0@.phase
                == BindingPhase::Open
            &&& failure->phase == CallbackPhase::Stream ==> error->Binding_0@.phase
                == BindingPhase::Stream
            &&& failure->phase == CallbackPhase::Complete ==> error->Binding_0@.phase
                == BindingPhase::Complete
        },
        failure is IncompleteRegisteredTag ==> {
            &&& error is Binding
            &&& error->Binding_0@.origin.attempt == identity
            &&& error->Binding_0@.origin.binding_id == bindings[at].id
            &&& error->Binding_0@.origin.route == bindings[at].route
            &&& error->Binding_0@.phase == BindingPhase::Finalize
            &&& error->Binding_0@.error is IncompleteRegisteredXml
        },
{
    let tag = if failure is Callback {
        failure->Callback_tag@
    } else {
        failure->IncompleteRegisteredTag_tag@
    };
    law_tags_belong_to_the_first_listener(bindings, tag, at);
}

/// Effects are reported as those of the binding that they came from.
pub proof fn law_effects_come_from_their_binding<C: TurnChannels>(
    attempt: StreamingModel<C>,
    index: int,
)
    ensures
        attempt.origin(index).attempt == attempt.identity,
        attempt.origin(index).binding_id == attempt.bindings[index].id,
        attempt.origin(index).route == attempt.bindings[index].route,
        callback_phase(CallbackPhase::Open) == BindingPhase::Open,
        callback_phase(CallbackPhase::Stream) == BindingPhase::Stream,
        callback_phase(CallbackPhase::Complete) == BindingPhase::Complete,
{
}

/// Each lane holds exactly what was emitted on it, in order.
pub proof fn law_lanes_hold_what_was_emitted<C: TurnChannels>(emissions: Seq<TurnEmission<C>>)
    ensures
        outputs_of(emissions) == emissions.filter(|emission: TurnEmission<C>| emission is Output),
        commits_of(emissions) == emissions.filter(
            |emission: TurnEmission<C>| emission is Commit,
        ).map_values(|emission: TurnEmission<C>| emission->Commit_0),
        lives_of(emissions) == emissions.filter(
            |emission: TurnEmission<C>| emission is Live,
        ).map_values(|emission: TurnEmission<C>| emission->Live_0),
    decreases emissions.len(),
{
    reveal(Seq::filter);
    let commit = |emission: TurnEmission<C>| emission is Commit;
    let live = |emission: TurnEmission<C>| emission is Live;
    let the_commit = |emission: TurnEmission<C>| emission->Commit_0;
    let the_live = |emission: TurnEmission<C>| emission->Live_0;
    if emissions.len() == 0 {
        assert(commits_of(emissions) =~= emissions.filter(commit).map_values(the_commit));
        assert(lives_of(emissions) =~= emissions.filter(live).map_values(the_live));
    } else {
        let before = emissions.drop_last();
        law_lanes_hold_what_was_emitted(before);
        assert(commits_of(emissions) =~= emissions.filter(commit).map_values(the_commit));
        assert(lives_of(emissions) =~= emissions.filter(live).map_values(the_live));
    }
}

/// The first live effect is the one in front of which there is none.
pub proof fn law_first_live_effect_comes_first<C: TurnChannels>(
    emissions: Seq<TurnEmission<C>>,
    at: int,
)
    requires
        0 <= at <= emissions.len(),
        forall|i: int| 0 <= i < at ==> !((#[trigger] emissions[i]) is Live),
        at < emissions.len() ==> emissions[at] is Live,
    ensures
        first_live(emissions) == at,
    decreases emissions.len(),
{
    if at > 0 {
        let rest = emissions.drop_first();
        assert(!(emissions[0] is Live));
        assert forall|i: int| 0 <= i < at - 1 implies !((#[trigger] rest[i]) is Live) by {
            assert(rest[i] == emissions[i + 1]);
        }
        if at < emissions.len() {
            assert(rest[at - 1] == emissions[at]);
        }
        law_first_live_effect_comes_first(rest, at - 1);
    }
}

} // verus!
