//! Maps from the lanes of one component to the lanes of the one around it.

use core::marker::PhantomData;
use std::sync::Arc;
use vstd::prelude::*;
use crate::component::channels::{StreamUpdate, TurnChannels, TurnEmission, UpdateModel};

verus! {

/// A map from local lanes to root lanes: one function per lane.
pub trait ChannelMap<Local: TurnChannels, Root: TurnChannels> {
    fn output(&self, output: Local::Output) -> Root::Output;

    fn live(&self, live: Local::Live) -> Root::Live;

    fn commit(&self, commit: Local::Commit) -> Root::Commit;

    fn diagnostic(&self, diagnostic: Local::Diagnostic) -> Root::Diagnostic;
}

impl<Local: TurnChannels, Root: TurnChannels, M: ChannelMap<Local, Root>> ChannelMap<
    Local,
    Root,
> for Arc<M> {
    fn output(&self, output: Local::Output) -> (mapped: Root::Output)
        ensures
            call_ensures(M::output, (&**self, output), mapped),
    {
        (**self).output(output)
    }

    fn live(&self, live: Local::Live) -> (mapped: Root::Live)
        ensures
            call_ensures(M::live, (&**self, live), mapped),
    {
        (**self).live(live)
    }

    fn commit(&self, commit: Local::Commit) -> (mapped: Root::Commit)
        ensures
            call_ensures(M::commit, (&**self, commit), mapped),
    {
        (**self).commit(commit)
    }

    fn diagnostic(&self, diagnostic: Local::Diagnostic) -> (mapped: Root::Diagnostic)
        ensures
            call_ensures(M::diagnostic, (&**self, diagnostic), mapped),
    {
        (**self).diagnostic(diagnostic)
    }
}

/// Whether an emission stays on its lane and is what `map` gives there.
pub open spec fn emission_mapped<
    Local: TurnChannels,
    Root: TurnChannels,
    M: ChannelMap<Local, Root>,
>(map: &M, from: TurnEmission<Local>, to: TurnEmission<Root>) -> bool {
    match (from, to) {
        (TurnEmission::Output(from), TurnEmission::Output(to)) => call_ensures(
            M::output,
            (map, from),
            to,
        ),
        (TurnEmission::Live(from), TurnEmission::Live(to)) => call_ensures(
            M::live,
            (map, from),
            to,
        ),
        (TurnEmission::Commit(from), TurnEmission::Commit(to)) => call_ensures(
            M::commit,
            (map, from),
            to,
        ),
        _ => false,
    }
}

/// Whether an update was mapped lane by lane, in order.
pub open spec fn update_mapped<
    Local: TurnChannels,
    Root: TurnChannels,
    M: ChannelMap<Local, Root>,
>(
    map: &M,
    from: UpdateModel<TurnEmission<Local>, Local::Diagnostic>,
    to: UpdateModel<TurnEmission<Root>, Root::Diagnostic>,
) -> bool {
    &&& to.emissions.len() == from.emissions.len()
    &&& forall|i: int|
        0 <= i < from.emissions.len() ==> emission_mapped(
            map,
            from.emissions[i],
            #[trigger] to.emissions[i],
        )
    &&& to.diagnostics.len() == from.diagnostics.len()
    &&& forall|i: int|
        0 <= i < from.diagnostics.len() ==> call_ensures(
            M::diagnostic,
            (map, from.diagnostics[i]),
            #[trigger] to.diagnostics[i],
        )
}

/// Maps one emission on its own lane.
pub fn map_channel_emission<Local: TurnChannels, Root: TurnChannels, M: ChannelMap<Local, Root>>(
    map: &M,
    emission: TurnEmission<Local>,
) -> (mapped: TurnEmission<Root>)
    ensures
        emission_mapped(map, emission, mapped),
{
    match emission {
        TurnEmission::Output(output) => TurnEmission::Output(map.output(output)),
        TurnEmission::Live(live) => TurnEmission::Live(map.live(live)),
        TurnEmission::Commit(commit) => TurnEmission::Commit(map.commit(commit)),
    }
}

/// Maps an update to the lanes of the surrounding component.
pub fn map_provider_update<Local: TurnChannels, Root: TurnChannels, M: ChannelMap<Local, Root>>(
    update: StreamUpdate<TurnEmission<Local>, Local::Diagnostic>,
    map: &M,
) -> (mapped: StreamUpdate<TurnEmission<Root>, Root::Diagnostic>)
    ensures
        update_mapped(map, update@, mapped@),
{
    let emission_map = |emission: TurnEmission<Local>| -> (mapped: TurnEmission<Root>)
        ensures
            emission_mapped(map, emission, mapped),
        { map_channel_emission(map, emission) };
    let diagnostic_map = |diagnostic: Local::Diagnostic| -> (mapped: Root::Diagnostic)
        ensures
            call_ensures(M::diagnostic, (map, diagnostic), mapped),
        { map.diagnostic(diagnostic) };
    update.map_emissions(emission_map).map_diagnostics(diagnostic_map)
}

/// The function of one lane. It takes every value of the lane.
#[verifier::reject_recursive_types(B)]
pub struct Lane<A, B, F: Fn(A) -> B> {
    pub(crate) function: F,
    pub(crate) values: PhantomData<(A, B)>,
}

impl<A, B, F: Fn(A) -> B> Lane<A, B, F> {
    #[verifier::type_invariant]
    pub(crate) open(crate) spec fn inv(self) -> bool {
        forall|value: A| #[trigger] self.function.requires((value,))
    }

    /// The function itself.
    pub open(crate) spec fn function(self) -> F {
        self.function
    }

    pub fn new(function: F) -> (lane: Self)
        requires
            forall|value: A| #[trigger] function.requires((value,)),
        ensures
            lane.function() == function,
    {
        Self { function, values: PhantomData }
    }

    pub fn call(&self, value: A) -> (mapped: B)
        ensures
            self.function().ensures((value,), mapped),
    {
        proof {
            use_type_invariant(self);
        }
        (self.function)(value)
    }
}

/// A lane that has no function yet.
pub struct MissingChannelMapLane;

/// A map made of one function per lane.
pub struct TurnChannelMap<
    Local,
    Root,
    Output = MissingChannelMapLane,
    Live = MissingChannelMapLane,
    Commit = MissingChannelMapLane,
    Diagnostic = MissingChannelMapLane,
> {
    pub(crate) output: Output,
    pub(crate) live: Live,
    pub(crate) commit: Commit,
    pub(crate) diagnostic: Diagnostic,
    pub(crate) channels: PhantomData<(Local, Root)>,
}

impl<Local, Root, Output, Live, Commit, Diagnostic> TurnChannelMap<
    Local,
    Root,
    Output,
    Live,
    Commit,
    Diagnostic,
> {
    /// The output lane.
    pub open(crate) spec fn output_lane(self) -> Output {
        self.output
    }

    /// The live lane.
    pub open(crate) spec fn live_lane(self) -> Live {
        self.live
    }

    /// The commit lane.
    pub open(crate) spec fn commit_lane(self) -> Commit {
        self.commit
    }

    /// The diagnostic lane.
    pub open(crate) spec fn diagnostic_lane(self) -> Diagnostic {
        self.diagnostic
    }
}

impl<Local: TurnChannels, Root: TurnChannels> TurnChannelMap<Local, Root> {
    /// A map in the making, without any lane.
    pub fn builder() -> (builder: TurnChannelMapBuilder<Local, Root>)
        ensures
            builder.output_lane() == MissingChannelMapLane,
            builder.live_lane() == MissingChannelMapLane,
            builder.commit_lane() == MissingChannelMapLane,
            builder.diagnostic_lane() == MissingChannelMapLane,
    {
        TurnChannelMapBuilder {
            output: MissingChannelMapLane,
            live: MissingChannelMapLane,
            commit: MissingChannelMapLane,
            diagnostic: MissingChannelMapLane,
            channels: PhantomData,
        }
    }
}

impl<
    Local: TurnChannels,
    Root: TurnChannels,
    Output: Fn(Local::Output) -> Root::Output,
    Live: Fn(Local::Live) -> Root::Live,
    Commit: Fn(Local::Commit) -> Root::Commit,
    Diagnostic: Fn(Local::Diagnostic) -> Root::Diagnostic,
> TurnChannelMap<
    Local,
    Root,
    Lane<Local::Output, Root::Output, Output>,
    Lane<Local::Live, Root::Live, Live>,
    Lane<Local::Commit, Root::Commit, Commit>,
    Lane<Local::Diagnostic, Root::Diagnostic, Diagnostic>,
> {
    /// The map with these four functions.
    pub fn new(output: Output, live: Live, commit: Commit, diagnostic: Diagnostic) -> (map: Self)
        requires
            forall|value: Local::Output| #[trigger] output.requires((value,)),
            forall|value: Local::Live| #[trigger] live.requires((value,)),
            forall|value: Local::Commit| #[trigger] commit.requires((value,)),
            forall|value: Local::Diagnostic| #[trigger] diagnostic.requires((value,)),
        ensures
            map.output_lane().function() == output,
            map.live_lane().function() == live,
            map.commit_lane().function() == commit,
            map.diagnostic_lane().function() == diagnostic,
    {
        Self {
            output: Lane::new(output),
            live: Lane::new(live),
            commit: Lane::new(commit),
            diagnostic: Lane::new(diagnostic),
            channels: PhantomData,
        }
    }
}

impl<
    Local: TurnChannels,
    Root: TurnChannels,
    Output: Fn(Local::Output) -> Root::Output,
    Live: Fn(Local::Live) -> Root::Live,
    Commit: Fn(Local::Commit) -> Root::Commit,
    Diagnostic: Fn(Local::Diagnostic) -> Root::Diagnostic,
> ChannelMap<Local, Root> for TurnChannelMap<
    Local,
    Root,
    Lane<Local::Output, Root::Output, Output>,
    Lane<Local::Live, Root::Live, Live>,
    Lane<Local::Commit, Root::Commit, Commit>,
    Lane<Local::Diagnostic, Root::Diagnostic, Diagnostic>,
> {
    fn output(&self, output: Local::Output) -> (mapped: Root::Output)
        ensures
            self.output_lane().function().ensures((output,), mapped),
    {
        self.output.call(output)
    }

    fn live(&self, live: Local::Live) -> (mapped: Root::Live)
        ensures
            self.live_lane().function().ensures((live,), mapped),
    {
        self.live.call(live)
    }

    fn commit(&self, commit: Local::Commit) -> (mapped: Root::Commit)
        ensures
            self.commit_lane().function().ensures((commit,), mapped),
    {
        self.commit.call(commit)
    }

    fn diagnostic(&self, diagnostic: Local::Diagnostic) -> (mapped: Root::Diagnostic)
        ensures
            self.diagnostic_lane().function().ensures((diagnostic,), mapped),
    {
        self.diagnostic.call(diagnostic)
    }
}

/// A map in the making. Each lane is given once, in any order.
#[must_use]
pub struct TurnChannelMapBuilder<
    Local,
    Root,
    Output = MissingChannelMapLane,
    Live = MissingChannelMapLane,
    Commit = MissingChannelMapLane,
    Diagnostic = MissingChannelMapLane,
> {
    pub(crate) output: Output,
    pub(crate) live: Live,
    pub(crate) commit: Commit,
    pub(crate) diagnostic: Diagnostic,
    pub(crate) channels: PhantomData<(Local, Root)>,
}

impl<Local, Root, Output, Live, Commit, Diagnostic> TurnChannelMapBuilder<
    Local,
    Root,
    Output,
    Live,
    Commit,
    Diagnostic,
> {
    /// The output lane.
    pub open(crate) spec fn output_lane(self) -> Output {
        self.output
    }

    /// The live lane.
    pub open(crate) spec fn live_lane(self) -> Live {
        self.live
    }

    /// The commit lane.
    pub open(crate) spec fn commit_lane(self) -> Commit {
        self.commit
    }

    /// The diagnostic lane.
    pub open(crate) spec fn diagnostic_lane(self) -> Diagnostic {
        self.diagnostic
    }
}

impl<Local: TurnChannels, Root: TurnChannels, Live, Commit, Diagnostic> TurnChannelMapBuilder<
    Local,
    Root,
    MissingChannelMapLane,
    Live,
    Commit,
    Diagnostic,
> {
    /// Gives the output lane its function.
    pub fn output<F: Fn(Local::Output) -> Root::Output>(self, output: F) -> (builder: TurnChannelMapBuilder<
        Local,
        Root,
        Lane<Local::Output, Root::Output, F>,
        Live,
        Commit,
        Diagnostic,
    >)
        requires
            forall|value: Local::Output| #[trigger] output.requires((value,)),
        ensures
            builder.output_lane().function() == output,
            builder.live_lane() == self.live_lane(),
            builder.commit_lane() == self.commit_lane(),
            builder.diagnostic_lane() == self.diagnostic_lane(),
    {
        TurnChannelMapBuilder {
            output: Lane::new(output),
            live: self.live,
            commit: self.commit,
            diagnostic: self.diagnostic,
            channels: PhantomData,
        }
    }
}

impl<Local: TurnChannels, Root: TurnChannels, Output, Commit, Diagnostic> TurnChannelMapBuilder<
    Local,
    Root,
    Output,
    MissingChannelMapLane,
    Commit,
    Diagnostic,
> {
    /// Gives the live lane its function.
    pub fn live<F: Fn(Local::Live) -> Root::Live>(self, live: F) -> (builder: TurnChannelMapBuilder<
        Local,
        Root,
        Output,
        Lane<Local::Live, Root::Live, F>,
        Commit,
        Diagnostic,
    >)
        requires
            forall|value: Local::Live| #[trigger] live.requires((value,)),
        ensures
            builder.output_lane() == self.output_lane(),
            builder.live_lane().function() == live,
            builder.commit_lane() == self.commit_lane(),
            builder.diagnostic_lane() == self.diagnostic_lane(),
    {
        TurnChannelMapBuilder {
            output: self.output,
            live: Lane::new(live),
            commit: self.commit,
            diagnostic: self.diagnostic,
            channels: PhantomData,
        }
    }
}

impl<Local: TurnChannels, Root: TurnChannels, Output, Live, Diagnostic> TurnChannelMapBuilder<
    Local,
    Root,
    Output,
    Live,
    MissingChannelMapLane,
    Diagnostic,
> {
    /// Gives the commit lane its function.
    pub fn commit<F: Fn(Local::Commit) -> Root::Commit>(self, commit: F) -> (builder: TurnChannelMapBuilder<
        Local,
        Root,
        Output,
        Live,
        Lane<Local::Commit, Root::Commit, F>,
        Diagnostic,
    >)
        requires
            forall|value: Local::Commit| #[trigger] commit.requires((value,)),
        ensures
            builder.output_lane() == self.output_lane(),
            builder.live_lane() == self.live_lane(),
            builder.commit_lane().function() == commit,
            builder.diagnostic_lane() == self.diagnostic_lane(),
    {
        TurnChannelMapBuilder {
            output: self.output,
            live: self.live,
            commit: Lane::new(commit),
            diagnostic: self.diagnostic,
            channels: PhantomData,
        }
    }
}

impl<Local: TurnChannels, Root: TurnChannels, Output, Live, Commit> TurnChannelMapBuilder<
    Local,
    Root,
    Output,
    Live,
    Commit,
    MissingChannelMapLane,
> {
    /// Gives the diagnostic lane its function.
    pub fn diagnostic<F: Fn(Local::Diagnostic) -> Root::Diagnostic>(self, diagnostic: F) -> (builder: TurnChannelMapBuilder<
        Local,
        Root,
        Output,
        Live,
        Commit,
        Lane<Local::Diagnostic, Root::Diagnostic, F>,
    >)
        requires
            forall|value: Local::Diagnostic| #[trigger] diagnostic.requires((value,)),
        ensures
            builder.output_lane() == self.output_lane(),
            builder.live_lane() == self.live_lane(),
            builder.commit_lane() == self.commit_lane(),
            builder.diagnostic_lane().function() == diagnostic,
    {
        TurnChannelMapBuilder {
            output: self.output,
            live: self.live,
            commit: self.commit,
            diagnostic: Lane::new(diagnostic),
            channels: PhantomData,
        }
    }
}

impl<
    Local: TurnChannels,
    Root: TurnChannels,
    Output: Fn(Local::Output) -> Root::Output,
    Live: Fn(Local::Live) -> Root::Live,
    Commit: Fn(Local::Commit) -> Root::Commit,
    Diagnostic: Fn(Local::Diagnostic) -> Root::Diagnostic,
> TurnChannelMapBuilder<
    Local,
    Root,
    Lane<Local::Output, Root::Output, Output>,
    Lane<Local::Live, Root::Live, Live>,
    Lane<Local::Commit, Root::Commit, Commit>,
    Lane<Local::Diagnostic, Root::Diagnostic, Diagnostic>,
> {
    /// The map, once all four lanes are given.
    pub fn build(self) -> (map: TurnChannelMap<
        Local,
        Root,
        Lane<Local::Output, Root::Output, Output>,
        Lane<Local::Live, Root::Live, Live>,
        Lane<Local::Commit, Root::Commit, Commit>,
        Lane<Local::Diagnostic, Root::Diagnostic, Diagnostic>,
    >)
        ensures
            map.output_lane() == self.output_lane(),
            map.live_lane() == self.live_lane(),
            map.commit_lane() == self.commit_lane(),
            map.diagnostic_lane() == self.diagnostic_lane(),
    {
        TurnChannelMap {
            output: self.output,
            live: self.live,
            commit: self.commit,
            diagnostic: self.diagnostic,
            channels: PhantomData,
        }
    }
}

} // verus!
