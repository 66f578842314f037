//! The lanes of a turn and the updates that travel on them.

use vstd::prelude::*;

verus! {

/// The four lanes of a turn.
pub trait TurnChannels {
    /// Values for the host, handed out while the turn runs.
    type Output;

    /// Effects applied at once, compensated on abort.
    type Live;

    /// Effects kept until the turn is published.
    type Commit;

    /// Remarks that never change the course of a turn.
    type Diagnostic;
}

/// One value on one of the effect lanes.
#[derive(Debug)]
pub enum TurnEmission<C: TurnChannels> {
    Output(C::Output),
    Live(C::Live),
    Commit(C::Commit),
}

/// Model of [`StreamUpdate`].
pub struct UpdateModel<E, D> {
    pub emissions: Seq<E>,
    pub diagnostics: Seq<D>,
}

impl<E, D> UpdateModel<E, D> {
    /// Nothing.
    pub open spec fn empty() -> Self {
        UpdateModel { emissions: Seq::empty(), diagnostics: Seq::empty() }
    }

    /// One update behind another.
    pub open spec fn followed_by(self, other: Self) -> Self {
        UpdateModel {
            emissions: self.emissions + other.emissions,
            diagnostics: self.diagnostics + other.diagnostics,
        }
    }
}

/// Effects and diagnostics produced by one stream event, in order.
#[derive(Debug, Clone, PartialEq, Eq)]
#[must_use]
pub struct StreamUpdate<E, D> {
    pub(crate) emissions: Vec<E>,
    pub(crate) diagnostics: Vec<D>,
}

/// An update on the lanes of a component.
pub type LaneUpdate<C> = StreamUpdate<TurnEmission<C>, <C as TurnChannels>::Diagnostic>;

impl<E, D> View for StreamUpdate<E, D> {
    type V = UpdateModel<E, D>;

    open(crate) spec fn view(&self) -> UpdateModel<E, D> {
        UpdateModel { emissions: self.emissions@, diagnostics: self.diagnostics@ }
    }
}

impl<E, D> Default for StreamUpdate<E, D> {
    fn default() -> (update: Self)
        ensures
            update@ == UpdateModel::<E, D>::empty(),
    {
        Self::new()
    }
}

impl<E, D> StreamUpdate<E, D> {
    /// An update without anything.
    pub fn new() -> (update: Self)
        ensures
            update@ == UpdateModel::<E, D>::empty(),
    {
        Self { emissions: Vec::new(), diagnostics: Vec::new() }
    }

    /// An update with one effect.
    pub fn from_emission(emission: E) -> (update: Self)
        ensures
            update@ == (UpdateModel::<E, D> {
                emissions: seq![emission],
                diagnostics: Seq::empty(),
            }),
    {
        Self::new().with_emission(emission)
    }

    /// An update with one diagnostic.
    pub fn from_diagnostic(diagnostic: D) -> (update: Self)
        ensures
            update@ == (UpdateModel::<E, D> {
                emissions: Seq::empty(),
                diagnostics: seq![diagnostic],
            }),
    {
        Self::new().with_diagnostic(diagnostic)
    }

    /// The update with an effect at its end.
    pub fn with_emission(self, emission: E) -> (update: Self)
        ensures
            update@ == (UpdateModel { emissions: self@.emissions.push(emission), ..self@ }),
    {
        let mut emissions = self.emissions;
        emissions.push(emission);
        Self { emissions, diagnostics: self.diagnostics }
    }

    /// The update with a diagnostic at its end.
    pub fn with_diagnostic(self, diagnostic: D) -> (update: Self)
        ensures
            update@ == (UpdateModel { diagnostics: self@.diagnostics.push(diagnostic), ..self@ }),
    {
        let mut diagnostics = self.diagnostics;
        diagnostics.push(diagnostic);
        Self { emissions: self.emissions, diagnostics }
    }

    /// The effects, in the order they were produced.
    pub fn emissions(&self) -> (emissions: &[E])
        ensures
            emissions@ == self@.emissions,
    {
        self.emissions.as_slice()
    }

    /// The diagnostics, in the order they were produced.
    pub fn diagnostics(&self) -> (diagnostics: &[D])
        ensures
            diagnostics@ == self@.diagnostics,
    {
        self.diagnostics.as_slice()
    }

    /// Whether the update holds neither effects nor diagnostics.
    pub fn is_empty(&self) -> (empty: bool)
        ensures
            empty == (self@ == UpdateModel::<E, D>::empty()),
    {
        let empty = self.emissions.is_empty() && self.diagnostics.is_empty();
        proof {
            if empty {
                assert(self@.emissions =~= Seq::empty());
                assert(self@.diagnostics =~= Seq::empty());
            }
        }
        empty
    }

    /// Maps each effect, keeping the order and the diagnostics.
    pub fn map_emissions<T, F: Fn(E) -> T>(self, map: F) -> (update: StreamUpdate<T, D>)
        requires
            accepts(map, self@.emissions),
        ensures
            update@.diagnostics == self@.diagnostics,
            mapped_by(map, self@.emissions, update@.emissions),
    {
        StreamUpdate { emissions: map_values(self.emissions, map), diagnostics: self.diagnostics }
    }

    /// Maps each diagnostic, keeping the order and the effects.
    pub fn map_diagnostics<T, F: Fn(D) -> T>(self, map: F) -> (update: StreamUpdate<E, T>)
        requires
            accepts(map, self@.diagnostics),
        ensures
            update@.emissions == self@.emissions,
            mapped_by(map, self@.diagnostics, update@.diagnostics),
    {
        StreamUpdate { emissions: self.emissions, diagnostics: map_values(self.diagnostics, map) }
    }

    /// The effects and the diagnostics.
    pub fn into_parts(self) -> (parts: (Vec<E>, Vec<D>))
        ensures
            parts.0@ == self@.emissions,
            parts.1@ == self@.diagnostics,
    {
        (self.emissions, self.diagnostics)
    }

    /// Puts another update behind this one.
    pub fn append(&mut self, other: Self)
        ensures
            final(self)@ == old(self)@.followed_by(other@),
    {
        let mut other = other;
        self.emissions.append(&mut other.emissions);
        self.diagnostics.append(&mut other.diagnostics);
    }

    /// Takes everything out.
    pub fn take(&mut self) -> (update: Self)
        ensures
            update@ == old(self)@,
            final(self)@ == UpdateModel::<E, D>::empty(),
    {
        let mut update: Self = Self::new();
        std::mem::swap(&mut update, self);
        update
    }
}

/// Whether `map` may be called on each of the values.
pub open spec fn accepts<A, B, F: Fn(A) -> B>(map: F, values: Seq<A>) -> bool {
    forall|i: int| 0 <= i < values.len() ==> map.requires((#[trigger] values[i],))
}

/// Whether each value of `to` is what `map` gives for the value of `from` in the
/// same place.
pub open spec fn mapped_by<A, B, F: Fn(A) -> B>(map: F, from: Seq<A>, to: Seq<B>) -> bool {
    &&& to.len() == from.len()
    &&& forall|i: int| 0 <= i < from.len() ==> map.ensures((from[i],), #[trigger] to[i])
}

pub(crate) fn map_values<A, B, F: Fn(A) -> B>(values: Vec<A>, map: F) -> (mapped: Vec<B>)
    requires
        accepts(map, values@),
    ensures
        mapped_by(map, values@, mapped@),
{
    let ghost all = values@;
    let mut mapped: Vec<B> = Vec::new();
    for value in iter: values
        invariant
            iter.seq() == all,
            accepts(map, all),
            mapped@.len() == iter.index(),
            forall|i: int|
                0 <= i < mapped@.len() ==> map.ensures((all[i],), #[trigger] mapped@[i]),
    {
        assert(map.requires((all[iter.index() as int],)));
        mapped.push(map(value));
    }
    mapped
}

/// What reducers may return.
pub trait IntoStreamUpdate<E, D>: Sized {
    /// The update that the value stands for.
    spec fn stream_update(self) -> UpdateModel<E, D>;

    fn into_stream_update(self) -> (update: StreamUpdate<E, D>)
        ensures
            update@ == self.stream_update(),
    ;
}

impl<E, D> IntoStreamUpdate<E, D> for StreamUpdate<E, D> {
    open spec fn stream_update(self) -> UpdateModel<E, D> {
        self@
    }

    fn into_stream_update(self) -> StreamUpdate<E, D> {
        self
    }
}

impl<E, D> IntoStreamUpdate<E, D> for Vec<E> {
    open spec fn stream_update(self) -> UpdateModel<E, D> {
        UpdateModel { emissions: self@, diagnostics: Seq::empty() }
    }

    fn into_stream_update(self) -> StreamUpdate<E, D> {
        StreamUpdate { emissions: self, diagnostics: Vec::new() }
    }
}

impl<E, D> IntoStreamUpdate<E, D> for Result<Vec<E>, D> {
    open spec fn stream_update(self) -> UpdateModel<E, D> {
        match self {
            Ok(emissions) => UpdateModel { emissions: emissions@, diagnostics: Seq::empty() },
            Err(diagnostic) => UpdateModel {
                emissions: Seq::empty(),
                diagnostics: seq![diagnostic],
            },
        }
    }

    fn into_stream_update(self) -> StreamUpdate<E, D> {
        match self {
            Ok(emissions) => StreamUpdate { emissions, diagnostics: Vec::new() },
            Err(diagnostic) => StreamUpdate::from_diagnostic(diagnostic),
        }
    }
}

} // verus!
