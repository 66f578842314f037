//! The sink of a streaming component: it hands the elements of a stream to the handlers
//! of their tags, and collects what these emit.

use core::marker::PhantomData;
use vstd::prelude::*;
use crate::component::channels::{StreamUpdate, UpdateModel};
use crate::component::handlers::{StreamingBinding, StreamingBindingModel, StreamingHandler};
use crate::component::identity::BindingId;
use crate::component::mount::{placed_models, PlacedBinding, PlacedModel};
use crate::llm_call::TextTurnEvent;

verus! {

/// Model of [`StreamingOutcome`].
pub struct OutcomeModel<E, D> {
    pub raw_output: Seq<char>,
    pub effects: Seq<E>,
    pub diagnostics: Seq<D>,
}

/// What a stream came to.
#[derive(Debug)]
pub struct StreamingOutcome<E, D> {
    pub(crate) raw_output: String,
    pub(crate) effects: Vec<E>,
    pub(crate) diagnostics: Vec<D>,
}

impl<E, D> View for StreamingOutcome<E, D> {
    type V = OutcomeModel<E, D>;

    open(crate) spec fn view(&self) -> OutcomeModel<E, D> {
        OutcomeModel {
            raw_output: self.raw_output@,
            effects: self.effects@,
            diagnostics: self.diagnostics@,
        }
    }
}

impl<E, D> StreamingOutcome<E, D> {
    pub fn raw_output(&self) -> (text: &str)
        ensures
            text@ == self@.raw_output,
    {
        self.raw_output.as_str()
    }

    pub fn effects(&self) -> (effects: &[E])
        ensures
            effects@ == self@.effects,
    {
        self.effects.as_slice()
    }

    pub fn diagnostics(&self) -> (diagnostics: &[D])
        ensures
            diagnostics@ == self@.diagnostics,
    {
        self.diagnostics.as_slice()
    }

    pub fn into_parts(self) -> (parts: (String, Vec<E>, Vec<D>))
        ensures
            parts.0@ == self@.raw_output,
            parts.1@ == self@.effects,
            parts.2@ == self@.diagnostics,
    {
        (self.raw_output, self.effects, self.diagnostics)
    }
}

/// Why bindings cannot share a stream.
#[derive(Debug)]
pub enum StreamingComponentError {
    /// Two bindings listen to the same tag.
    DuplicateTag { tag: String, first: BindingId, second: BindingId },
}

/// Whether a binding listens to the tag of an earlier one.
pub open spec fn repeats_tag<H>(
    bindings: Seq<PlacedModel<StreamingBindingModel<H>>>,
    first: int,
    second: int,
) -> bool {
    0 <= first < second < bindings.len() && bindings[first].binding.tag
        == bindings[second].binding.tag
}

/// Whether no two bindings listen to the same tag.
pub open spec fn distinct_tags<H>(bindings: Seq<PlacedModel<StreamingBindingModel<H>>>) -> bool {
    forall|i: int, j: int| !#[trigger] repeats_tag(bindings, i, j)
}

/// The bindings themselves, without their places.
pub open spec fn bindings_of<H>(
    bindings: Seq<PlacedModel<StreamingBindingModel<H>>>,
) -> Seq<StreamingBindingModel<H>> {
    bindings.map_values(|placed: PlacedModel<StreamingBindingModel<H>>| placed.binding)
}

/// The models of several bindings.
pub open spec fn handler_models<H>(bindings: Seq<StreamingBinding<H>>) -> Seq<
    StreamingBindingModel<H>,
> {
    bindings.map_values(|binding: StreamingBinding<H>| binding@)
}

/// Model of [`StreamingComponentSink`].
pub struct SinkModel<H, E, D> {
    pub bindings: Seq<StreamingBindingModel<H>>,
    pub update: UpdateModel<E, D>,
    pub raw_output: Seq<char>,
}

/// Takes the events of a stream. `X` is what the parser hands over.
#[verifier::reject_recursive_types(X)]
pub struct StreamingComponentSink<H, E, D, X> {
    pub(crate) bindings: Vec<StreamingBinding<H>>,
    pub(crate) accumulator: StreamUpdate<E, D>,
    pub(crate) raw_output: String,
    pub(crate) elements: PhantomData<X>,
}

impl<H, E, D, X> View for StreamingComponentSink<H, E, D, X> {
    type V = SinkModel<H, E, D>;

    open(crate) spec fn view(&self) -> SinkModel<H, E, D> {
        SinkModel {
            bindings: handler_models(self.bindings@),
            update: self.accumulator@,
            raw_output: self.raw_output@,
        }
    }
}

/// Whether all handlers still take elements.
pub open spec fn all_open<H: StreamingHandler<E, D, X>, E, D, X>(
    bindings: Seq<StreamingBindingModel<H>>,
) -> bool {
    forall|i: int| 0 <= i < bindings.len() ==> (#[trigger] bindings[i]).handler.is_open()
}

/// Several updates in a row.
pub open spec fn all_updates<E, D>(updates: Seq<UpdateModel<E, D>>) -> UpdateModel<E, D>
    decreases updates.len(),
{
    if updates.len() == 0 {
        UpdateModel::empty()
    } else {
        all_updates(updates.drop_last()).followed_by(updates.last())
    }
}

/// Whether a handler may give an update when it is finished.
pub open spec fn may_finish_with<H: StreamingHandler<E, D, X>, E, D, X>(
    handler: H,
    update: UpdateModel<E, D>,
) -> bool {
    exists|open: &mut H, given: StreamUpdate<E, D>|
        *open == handler && given@ == update && #[trigger] call_ensures(H::finish, (open,), given)
}

impl<E, D, X, H: StreamingHandler<E, D, X>> StreamingComponentSink<H, E, D, X> {
    /// A sink for bindings with tags of their own. Where two share one, the later one
    /// and the first to have the tag are the error.
    pub fn try_new(bindings: Vec<PlacedBinding<StreamingBinding<H>>>) -> (result: Result<
        Self,
        StreamingComponentError,
    >)
        ensures
            match result {
                Ok(sink) => {
                    &&& distinct_tags(placed_models(bindings@))
                    &&& sink@ == (SinkModel::<H, E, D> {
                        bindings: bindings_of(placed_models(bindings@)),
                        update: UpdateModel::empty(),
                        raw_output: Seq::empty(),
                    })
                },
                Err(StreamingComponentError::DuplicateTag { tag, first, second }) => exists|
                    i: int,
                    j: int,
                | #[trigger]
                    repeats_tag(placed_models(bindings@), i, j) && distinct_tags(
                        placed_models(bindings@).take(j),
                    ) && tag@ == placed_models(bindings@)[j].binding.tag && first@ == placed_models(
                        bindings@,
                    )[i].id && second@ == placed_models(bindings@)[j].id,
            },
    {
        let ghost all = bindings@;
        let ghost models = placed_models(bindings@);
        let mut ids: Vec<BindingId> = Vec::new();
        let mut handlers: Vec<StreamingBinding<H>> = Vec::new();
        for placed in iter: bindings
            invariant
                iter.seq() == all,
                models == placed_models(all),
                models == placed_models(bindings@),
                ids@.len() == iter.index(),
                handlers@.len() == iter.index(),
                forall|i: int| 0 <= i < ids@.len() ==> (#[trigger] ids@[i])@ == models[i].id,
                forall|i: int|
                    0 <= i < handlers@.len() ==> (#[trigger] handlers@[i])@ == models[i].binding,
                distinct_tags(models.take(iter.index() as int)),
        {
            let ghost at = iter.index() as int;
            let PlacedBinding { id, role: _, binding } = placed;
            proof {
                assert(models[at] == placed@);
            }
            let count: usize = handlers.len();
            for i in 0..count
                invariant
                    count == handlers@.len(),
                    count == ids@.len(),
                    count == at,
                    0 <= at < models.len(),
                    models == placed_models(bindings@),
                    binding@ == models[at].binding,
                    id@ == models[at].id,
                    forall|k: int| 0 <= k < ids@.len() ==> (#[trigger] ids@[k])@ == models[k].id,
                    forall|k: int|
                        0 <= k < handlers@.len() ==> (#[trigger] handlers@[k])@
                            == models[k].binding,
                    forall|k: int|
                        0 <= k < i ==> (#[trigger] models[k]).binding.tag != models[at].binding.tag,
                    distinct_tags(models.take(at)),
            {
                if handlers[i].tag == binding.tag {
                    assert(repeats_tag(models, i as int, at));
                    return Err(
                        StreamingComponentError::DuplicateTag {
                            tag: binding.tag,
                            first: ids[i].clone(),
                            second: id,
                        },
                    );
                }
            }
            proof {
                let before = models.take(at);
                let after = models.take(at + 1);
                assert forall|i: int, j: int| !#[trigger] repeats_tag(after, i, j) by {
                    if repeats_tag(after, i, j) {
                        if j < at {
                            assert(repeats_tag(before, i, j));
                        }
                    }
                }
            }
            ids.push(id);
            handlers.push(binding);
        }
        assert(models.take(models.len() as int) =~= models);
        assert(handler_models(handlers@) =~= bindings_of(models));
        let sink = Self {
            bindings: handlers,
            accumulator: StreamUpdate::new(),
            raw_output: String::new(),
            elements: PhantomData,
        };
        assert(sink@.raw_output =~= Seq::<char>::empty());
        Ok(sink)
    }

    /// Takes a text event, and says what to feed the parser for it. Deltas are fed;
    /// the complete text is kept as the raw output.
    pub fn on_event(&mut self, event: TextTurnEvent) -> (fed: Option<String>)
        ensures
            match event {
                TextTurnEvent::TextDelta(chunk) => fed == Some(chunk) && final(self)@ == old(self)@,
                TextTurnEvent::TextComplete(output) => fed is None && final(self)@ == (
                SinkModel::<H, E, D> { raw_output: output@, ..old(self)@ }),
            },
    {
        match event {
            TextTurnEvent::TextDelta(chunk) => Some(chunk),
            TextTurnEvent::TextComplete(output) => {
                self.raw_output = output;
                None
            },
        }
    }

    /// Tells the handler at an index that an element opens, and keeps what it
    /// emits.
    pub fn open_element(&mut self, index: usize, element: &X)
        requires
            index < old(self)@.bindings.len(),
            old(self)@.bindings[index as int].handler.is_open(),
        ensures
            final(self)@.raw_output == old(self)@.raw_output,
            final(self)@.bindings == old(self)@.bindings.update(
                index as int,
                StreamingBindingModel {
                    handler: final(self)@.bindings[index as int].handler,
                    ..old(self)@.bindings[index as int]
                },
            ),
            final(self)@.bindings[index as int].handler.is_open(),
            exists|open: &mut H, given: StreamUpdate<E, D>|
                *open == old(self)@.bindings[index as int].handler && *final(open)
                    == final(self)@.bindings[index as int].handler && #[trigger] call_ensures(
                    H::on_open,
                    (open, element),
                    given,
                ) && final(self)@.update == old(self)@.update.followed_by(given@),
    {
        let ghost before = handler_models(self.bindings@);
        assert(before[index as int] == self.bindings@[index as int]@);
        let handler = &mut self.bindings[index].handler;
        let update = handler.on_open(element);
        self.accumulator.append(update);
        proof {
            let after = handler_models(self.bindings@);
            assert(after[index as int] == self.bindings@[index as int]@);
            assert(after =~= before.update(
                index as int,
                StreamingBindingModel {
                    handler: after[index as int].handler,
                    ..before[index as int]
                },
            ));
        }
    }

    /// Tells the handler at an index that an element streams in, and keeps what it
    /// emits.
    pub fn stream_element(&mut self, index: usize, element: &X)
        requires
            index < old(self)@.bindings.len(),
            old(self)@.bindings[index as int].handler.is_open(),
        ensures
            final(self)@.raw_output == old(self)@.raw_output,
            final(self)@.bindings == old(self)@.bindings.update(
                index as int,
                StreamingBindingModel {
                    handler: final(self)@.bindings[index as int].handler,
                    ..old(self)@.bindings[index as int]
                },
            ),
            final(self)@.bindings[index as int].handler.is_open(),
            exists|open: &mut H, given: StreamUpdate<E, D>|
                *open == old(self)@.bindings[index as int].handler && *final(open)
                    == final(self)@.bindings[index as int].handler && #[trigger] call_ensures(
                    H::on_stream,
                    (open, element),
                    given,
                ) && final(self)@.update == old(self)@.update.followed_by(given@),
    {
        let ghost before = handler_models(self.bindings@);
        assert(before[index as int] == self.bindings@[index as int]@);
        let handler = &mut self.bindings[index].handler;
        let update = handler.on_stream(element);
        self.accumulator.append(update);
        proof {
            let after = handler_models(self.bindings@);
            assert(after[index as int] == self.bindings@[index as int]@);
            assert(after =~= before.update(
                index as int,
                StreamingBindingModel {
                    handler: after[index as int].handler,
                    ..before[index as int]
                },
            ));
        }
    }

    /// Tells the handler at an index that an element is complete, and keeps what it
    /// emits.
    pub fn complete_element(&mut self, index: usize, element: &X)
        requires
            index < old(self)@.bindings.len(),
            old(self)@.bindings[index as int].handler.is_open(),
        ensures
            final(self)@.raw_output == old(self)@.raw_output,
            final(self)@.bindings == old(self)@.bindings.update(
                index as int,
                StreamingBindingModel {
                    handler: final(self)@.bindings[index as int].handler,
                    ..old(self)@.bindings[index as int]
                },
            ),
            final(self)@.bindings[index as int].handler.is_open(),
            exists|open: &mut H, given: StreamUpdate<E, D>|
                *open == old(self)@.bindings[index as int].handler && *final(open)
                    == final(self)@.bindings[index as int].handler && #[trigger] call_ensures(
                    H::on_complete,
                    (open, element),
                    given,
                ) && final(self)@.update == old(self)@.update.followed_by(given@),
    {
        let ghost before = handler_models(self.bindings@);
        assert(before[index as int] == self.bindings@[index as int]@);
        let handler = &mut self.bindings[index].handler;
        let update = handler.on_complete(element);
        self.accumulator.append(update);
        proof {
            let after = handler_models(self.bindings@);
            assert(after[index as int] == self.bindings@[index as int]@);
            assert(after =~= before.update(
                index as int,
                StreamingBindingModel {
                    handler: after[index as int].handler,
                    ..before[index as int]
                },
            ));
        }
    }

    /// Finishes the handlers in order, and hands out everything that was emitted.
    pub fn finish(self) -> (outcome: StreamingOutcome<E, D>)
        requires
            all_open::<H, E, D, X>(self@.bindings),
        ensures
            outcome@.raw_output == self@.raw_output,
            exists|updates: Seq<UpdateModel<E, D>>|
                updates.len() == self@.bindings.len() && (forall|i: int|
                    0 <= i < updates.len() ==> may_finish_with::<H, E, D, X>(
                        self@.bindings[i].handler,
                        #[trigger] updates[i],
                    )) && self@.update.followed_by(#[trigger] all_updates(updates)) == (
                UpdateModel { emissions: outcome@.effects, diagnostics: outcome@.diagnostics }),
    {
        let ghost models = self@.bindings;
        let ghost all = self.bindings@;
        let ghost start = self@.update;
        let ghost mut updates: Seq<UpdateModel<E, D>> = Seq::empty();
        let mut accumulator = self.accumulator;
        assert(start.followed_by(all_updates(updates)).emissions =~= start.emissions);
        assert(start.followed_by(all_updates(updates)).diagnostics =~= start.diagnostics);
        for binding in iter: self.bindings
            invariant
                iter.seq() == all,
                models == handler_models(all),
                models == self@.bindings,
                all_open::<H, E, D, X>(models),
                updates.len() == iter.index(),
                forall|i: int|
                    0 <= i < updates.len() ==> may_finish_with::<H, E, D, X>(
                        models[i].handler,
                        #[trigger] updates[i],
                    ),
                accumulator@ == start.followed_by(all_updates(updates)),
        {
            proof {
                assert(models[iter.index() as int] == binding@);
            }
            let mut handler = binding.handler;
            let given = handler.finish();
            proof {
                let update = given@;
                assert(may_finish_with::<H, E, D, X>(
                    models[iter.index() as int].handler,
                    update,
                ));
                let more = updates.push(update);
                assert(more.drop_last() =~= updates);
                assert(start.followed_by(all_updates(updates)).followed_by(update).emissions
                    =~= start.followed_by(all_updates(more)).emissions);
                assert(start.followed_by(all_updates(updates)).followed_by(update).diagnostics
                    =~= start.followed_by(all_updates(more)).diagnostics);
                updates = more;
            }
            accumulator.append(given);
        }
        let (effects, diagnostics) = accumulator.into_parts();
        let outcome = StreamingOutcome { raw_output: self.raw_output, effects, diagnostics };
        assert(start.followed_by(all_updates(updates)) == (UpdateModel {
            emissions: outcome@.effects,
            diagnostics: outcome@.diagnostics,
        }));
        outcome
    }
}

} // verus!
