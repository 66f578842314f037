//! The host's dispatchers for durable provider capabilities.

use std::sync::Arc;
use vstd::prelude::*;
use crate::component::contract::{is_durable_text, validate_runtime_implementation_version};
use crate::component::contract::{version_error, CapabilityContractModel};
use crate::component::contract::ProviderCapabilityContract;
use crate::component::declaration::{CapabilityModel, DispatcherModel};
use crate::component::declaration::{ProviderCapabilityDeclaration, ProviderDispatcherBinding};
use crate::component::identity::ComponentError;
use crate::component::mount::{capability_models, BindingFactoryPlan, MountedCapabilityModel};
use crate::component::mount::{MountedFactoryModel, MountedProviderCapability};
use crate::component::mount::ProviderCapabilityPlan;
use crate::component::tools::same_specs;

verus! {

/// Model of one entry of a [`ProviderDispatcherRegistry`].
pub struct RegistryEntryModel<H> {
    pub contract: CapabilityContractModel,
    pub binding: DispatcherModel<H>,
}

/// One dispatcher and the contract it answers to.
#[derive(Debug)]
pub(crate) struct ProviderDispatcherRegistryEntry<H> {
    pub(crate) contract: ProviderCapabilityContract,
    pub(crate) binding: ProviderDispatcherBinding<H>,
}

impl<H> View for ProviderDispatcherRegistryEntry<H> {
    type V = RegistryEntryModel<H>;

    open(crate) spec fn view(&self) -> RegistryEntryModel<H> {
        RegistryEntryModel { contract: self.contract@, binding: self.binding@ }
    }
}

/// The dispatchers that a host brings, one for each durable capability.
#[derive(Debug)]
pub struct ProviderDispatcherRegistry<H> {
    pub(crate) entries: Vec<ProviderDispatcherRegistryEntry<H>>,
}

pub(crate) open(crate) spec fn entry_ids<H>(
    entries: Seq<ProviderDispatcherRegistryEntry<H>>,
) -> Seq<Seq<char>> {
    entries.map_values(|entry: ProviderDispatcherRegistryEntry<H>| entry.contract@.declaration_id)
}

pub(crate) open(crate) spec fn entries_by_id<H>(
    entries: Seq<ProviderDispatcherRegistryEntry<H>>,
) -> Map<Seq<char>, RegistryEntryModel<H>> {
    Map::new(
        |id: Seq<char>| entry_ids(entries).contains(id),
        |id: Seq<char>| entries[entry_ids(entries).index_of(id)]@,
    )
}

impl<H> View for ProviderDispatcherRegistry<H> {
    type V = Map<Seq<char>, RegistryEntryModel<H>>;

    open(crate) spec fn view(&self) -> Map<Seq<char>, RegistryEntryModel<H>> {
        entries_by_id(self.entries@)
    }
}

/// Model of [`ProviderDispatcherRegistryError`].
#[allow(inconsistent_fields)]
pub enum RegistryErrorModel {
    InvalidHostImplementationVersion { message: Seq<char> },
    DuplicateBinding { declaration_id: Seq<char> },
    MissingBinding { declaration_id: Seq<char> },
    ConflictingEmbeddedBinding { declaration_id: Seq<char> },
    ContractVersionMismatch {
        declaration_id: Seq<char>,
        component_version: Seq<char>,
        host_version: Seq<char>,
    },
    ToolSchemaMismatch { declaration_id: Seq<char> },
}

/// Why a capability and the host's dispatchers do not fit.
#[derive(Debug)]
#[non_exhaustive]
#[allow(inconsistent_fields)]
pub enum ProviderDispatcherRegistryError {
    /// The host's version is no valid version.
    InvalidHostImplementationVersion { message: String },
    /// The capability has a dispatcher already.
    DuplicateBinding { declaration_id: String },
    /// Nobody answers the calls of the capability.
    MissingBinding { declaration_id: String },
    /// The capability brings its own dispatcher, and the host has one too.
    ConflictingEmbeddedBinding { declaration_id: String },
    /// The host's dispatcher is for another version of the contract.
    ContractVersionMismatch {
        declaration_id: String,
        component_version: String,
        host_version: String,
    },
    /// The host's dispatcher is for other tools, or for another order of them.
    ToolSchemaMismatch { declaration_id: String },
}

impl View for ProviderDispatcherRegistryError {
    type V = RegistryErrorModel;

    open spec fn view(&self) -> RegistryErrorModel {
        match *self {
            ProviderDispatcherRegistryError::InvalidHostImplementationVersion { message } => {
                RegistryErrorModel::InvalidHostImplementationVersion { message: message@ }
            },
            ProviderDispatcherRegistryError::DuplicateBinding { declaration_id } => {
                RegistryErrorModel::DuplicateBinding { declaration_id: declaration_id@ }
            },
            ProviderDispatcherRegistryError::MissingBinding { declaration_id } => {
                RegistryErrorModel::MissingBinding { declaration_id: declaration_id@ }
            },
            ProviderDispatcherRegistryError::ConflictingEmbeddedBinding { declaration_id } => {
                RegistryErrorModel::ConflictingEmbeddedBinding { declaration_id: declaration_id@ }
            },
            ProviderDispatcherRegistryError::ContractVersionMismatch {
                declaration_id,
                component_version,
                host_version,
            } => {
                RegistryErrorModel::ContractVersionMismatch {
                    declaration_id: declaration_id@,
                    component_version: component_version@,
                    host_version: host_version@,
                }
            },
            ProviderDispatcherRegistryError::ToolSchemaMismatch { declaration_id } => {
                RegistryErrorModel::ToolSchemaMismatch { declaration_id: declaration_id@ }
            },
        }
    }
}

proof fn lemma_entry_at<H>(entries: Seq<ProviderDispatcherRegistryEntry<H>>, at: int)
    requires
        entry_ids(entries).no_duplicates(),
        0 <= at < entries.len(),
    ensures
        entries_by_id(entries).contains_key(entries[at].contract@.declaration_id),
        entries_by_id(entries)[entries[at].contract@.declaration_id] == entries[at]@,
{
    let id = entries[at].contract@.declaration_id;
    assert(entry_ids(entries)[at] == id);
    assert(entry_ids(entries)[entry_ids(entries).index_of(id)] == id);
}

proof fn lemma_push_entry<H>(
    entries: Seq<ProviderDispatcherRegistryEntry<H>>,
    entry: ProviderDispatcherRegistryEntry<H>,
)
    requires
        entry_ids(entries).no_duplicates(),
        !entries_by_id(entries).contains_key(entry.contract@.declaration_id),
    ensures
        entry_ids(entries.push(entry)).no_duplicates(),
        entries_by_id(entries.push(entry)) == entries_by_id(entries).insert(
            entry.contract@.declaration_id,
            entry@,
        ),
{
    let more = entries.push(entry);
    let id = entry.contract@.declaration_id;
    assert forall|i: int| 0 <= i < entries.len() implies entry_ids(more)[i] == entry_ids(entries)[i]
        && entry_ids(more)[i] != id by {
        assert(entry_ids(entries).contains(entry_ids(entries)[i]));
    }
    assert(entry_ids(more)[entries.len() as int] == id);
    assert(entry_ids(more).no_duplicates());
    lemma_entry_at(more, entries.len() as int);
    assert forall|key: Seq<char>| #[trigger]
        entries_by_id(more).contains_key(key) implies entries_by_id(entries).insert(
        id,
        entry@,
    ).contains_key(key) && entries_by_id(more)[key] == entries_by_id(entries).insert(
        id,
        entry@,
    )[key] by {
        if key != id {
            let i = entry_ids(more).index_of(key);
            assert(entry_ids(more)[i] == key);
            assert(entry_ids(entries)[i] == key);
            lemma_entry_at(more, i);
            lemma_entry_at(entries, i);
        }
    }
    assert forall|key: Seq<char>| #[trigger]
        entries_by_id(entries).insert(id, entry@).contains_key(key) implies entries_by_id(
        more,
    ).contains_key(key) by {
        if key != id {
            let i = entry_ids(entries).index_of(key);
            assert(entry_ids(entries)[i] == key);
            assert(entry_ids(more)[i] == key);
        }
    }
    assert(entries_by_id(more) =~= entries_by_id(entries).insert(id, entry@));
}

/// What a registry is once a dispatcher was registered, or why it was not.
pub open spec fn registered<H>(
    registry: Map<Seq<char>, RegistryEntryModel<H>>,
    contract: CapabilityContractModel,
    host_version: Seq<char>,
    instantiate: H,
) -> Result<Map<Seq<char>, RegistryEntryModel<H>>, RegistryErrorModel> {
    if registry.contains_key(contract.declaration_id) {
        Err(RegistryErrorModel::DuplicateBinding { declaration_id: contract.declaration_id })
    } else if !is_durable_text(host_version) {
        Err(
            RegistryErrorModel::InvalidHostImplementationVersion {
                message: version_error()->message,
            },
        )
    } else {
        Ok(
            registry.insert(
                contract.declaration_id,
                RegistryEntryModel {
                    contract,
                    binding: DispatcherModel { host_version: Some(host_version), instantiate },
                },
            ),
        )
    }
}

impl<H> ProviderDispatcherRegistry<H> {
    #[verifier::type_invariant]
    pub(crate) open(crate) spec fn inv(self) -> bool {
        entry_ids(self.entries@).no_duplicates()
    }

    /// A host without dispatchers.
    pub fn new() -> (registry: Self)
        ensures
            registry@ == Map::<Seq<char>, RegistryEntryModel<H>>::empty(),
    {
        let registry = Self { entries: Vec::new() };
        assert(registry@ =~= Map::<Seq<char>, RegistryEntryModel<H>>::empty());
        registry
    }

    pub(crate) fn entry(&self, declaration_id: &str) -> (entry: Option<
        &ProviderDispatcherRegistryEntry<H>,
    >)
        ensures
            match entry {
                Some(entry) => self@.contains_key(declaration_id@) && self@[declaration_id@]
                    == entry@ && entry@.contract.declaration_id == declaration_id@,
                None => !self@.contains_key(declaration_id@),
            },
    {
        proof {
            use_type_invariant(self);
        }
        let wanted: String = declaration_id.to_owned();
        let count: usize = self.entries.len();
        for i in 0..count
            invariant
                count == self.entries@.len(),
                wanted@ == declaration_id@,
                entry_ids(self.entries@).no_duplicates(),
                forall|j: int| 0 <= j < i ==> entry_ids(self.entries@)[j] != declaration_id@,
        {
            if self.entries[i].contract.declaration_id == wanted {
                proof {
                    lemma_entry_at(self.entries@, i as int);
                }
                return Some(&self.entries[i]);
            }
        }
        assert(!entry_ids(self.entries@).contains(declaration_id@));
        None
    }

    /// Registers the maker of a dispatcher. A capability has at most one, and the host's
    /// version must be valid.
    pub fn register_with_context(
        &mut self,
        contract: ProviderCapabilityContract,
        host_implementation_version: &str,
        instantiate_dispatcher: Arc<H>,
    ) -> (result: Result<(), ProviderDispatcherRegistryError>)
        ensures
            match result {
                Ok(_) => registered(
                    old(self)@,
                    contract@,
                    host_implementation_version@,
                    *instantiate_dispatcher,
                ) == Ok::<_, RegistryErrorModel>(final(self)@),
                Err(error) => final(self)@ == old(self)@ && registered(
                    old(self)@,
                    contract@,
                    host_implementation_version@,
                    *instantiate_dispatcher,
                ) == Err::<Map<Seq<char>, RegistryEntryModel<H>>, _>(error@),
            },
    {
        proof {
            use_type_invariant(&*self);
        }
        if self.entry(contract.declaration_id()).is_some() {
            return Err(
                ProviderDispatcherRegistryError::DuplicateBinding {
                    declaration_id: contract.declaration_id,
                },
            );
        }
        let version: String = match validate_runtime_implementation_version(
            host_implementation_version,
        ) {
            Ok(version) => version,
            Err(ComponentError::InvalidBindingContract { message }) => {
                return Err(
                    ProviderDispatcherRegistryError::InvalidHostImplementationVersion { message },
                );
            },
            Err(_) => vstd::pervasive::unreached(),
        };
        let entry = ProviderDispatcherRegistryEntry {
            contract,
            binding: ProviderDispatcherBinding {
                host_implementation_version: Some(version),
                instantiate_dispatcher,
            },
        };
        proof {
            lemma_push_entry(self.entries@, entry);
        }
        let mut entries: Vec<ProviderDispatcherRegistryEntry<H>> = Vec::new();
        std::mem::swap(&mut entries, &mut self.entries);
        entries.push(entry);
        self.entries = entries;
        Ok(())
    }

    /// Registers a maker that reads nothing of its context. Makers are the host's
    /// handles, so nothing else differs.
    pub fn register(
        &mut self,
        contract: ProviderCapabilityContract,
        host_implementation_version: &str,
        instantiate_dispatcher: Arc<H>,
    ) -> (result: Result<(), ProviderDispatcherRegistryError>)
        ensures
            match result {
                Ok(_) => registered(
                    old(self)@,
                    contract@,
                    host_implementation_version@,
                    *instantiate_dispatcher,
                ) == Ok::<_, RegistryErrorModel>(final(self)@),
                Err(error) => final(self)@ == old(self)@ && registered(
                    old(self)@,
                    contract@,
                    host_implementation_version@,
                    *instantiate_dispatcher,
                ) == Err::<Map<Seq<char>, RegistryEntryModel<H>>, _>(error@),
            },
    {
        self.register_with_context(contract, host_implementation_version, instantiate_dispatcher)
    }

    /// The registry with one more maker.
    pub fn with_context(
        self,
        contract: ProviderCapabilityContract,
        host_implementation_version: &str,
        instantiate_dispatcher: Arc<H>,
    ) -> (result: Result<Self, ProviderDispatcherRegistryError>)
        ensures
            registered(
                self@,
                contract@,
                host_implementation_version@,
                *instantiate_dispatcher,
            ) == match result {
                Ok(registry) => Ok(registry@),
                Err(error) => Err(error@),
            },
    {
        let mut registry = self;
        match registry.register_with_context(
            contract,
            host_implementation_version,
            instantiate_dispatcher,
        ) {
            Ok(_) => Ok(registry),
            Err(error) => Err(error),
        }
    }

    /// The registry with one more maker, which reads nothing of its context.
    pub fn with_dispatcher(
        self,
        contract: ProviderCapabilityContract,
        host_implementation_version: &str,
        instantiate_dispatcher: Arc<H>,
    ) -> (result: Result<Self, ProviderDispatcherRegistryError>)
        ensures
            registered(
                self@,
                contract@,
                host_implementation_version@,
                *instantiate_dispatcher,
            ) == match result {
                Ok(registry) => Ok(registry@),
                Err(error) => Err(error@),
            },
    {
        let mut registry = self;
        match registry.register(contract, host_implementation_version, instantiate_dispatcher) {
            Ok(_) => Ok(registry),
            Err(error) => Err(error),
        }
    }
}

impl<H> Default for ProviderDispatcherRegistry<H> {
    fn default() -> (registry: Self)
        ensures
            registry@ == Map::<Seq<char>, RegistryEntryModel<H>>::empty(),
    {
        Self::new()
    }
}

/// What becomes of one capability on a host. One that brings its own dispatcher keeps
/// it, unless the host has one too. Another takes the host's, which must be for the
/// same version and the same tools in the same order.
pub open spec fn bound_capability<H>(
    capability: CapabilityModel<H>,
    registry: Map<Seq<char>, RegistryEntryModel<H>>,
) -> Result<CapabilityModel<H>, RegistryErrorModel> {
    if capability.dispatcher is Some {
        if capability.contract is Some && registry.contains_key(
            capability.contract->Some_0.declaration_id,
        ) {
            Err(
                RegistryErrorModel::ConflictingEmbeddedBinding {
                    declaration_id: capability.contract->Some_0.declaration_id,
                },
            )
        } else {
            Ok(capability)
        }
    } else {
        match capability.contract {
            None => Err(
                RegistryErrorModel::MissingBinding {
                    declaration_id: "<non-durable-provider-capability>"@,
                },
            ),
            Some(contract) => {
                let entry = registry[contract.declaration_id];
                if !registry.contains_key(contract.declaration_id) {
                    Err(
                        RegistryErrorModel::MissingBinding {
                            declaration_id: contract.declaration_id,
                        },
                    )
                } else if entry.contract.contract_version != contract.contract_version {
                    Err(
                        RegistryErrorModel::ContractVersionMismatch {
                            declaration_id: contract.declaration_id,
                            component_version: contract.contract_version,
                            host_version: entry.contract.contract_version,
                        },
                    )
                } else if entry.contract.specs != contract.specs {
                    Err(
                        RegistryErrorModel::ToolSchemaMismatch {
                            declaration_id: contract.declaration_id,
                        },
                    )
                } else {
                    Ok(CapabilityModel { dispatcher: Some(entry.binding), ..capability })
                }
            },
        }
    }
}

/// What becomes of the capabilities of a plan: each is bound, in order, or the first
/// that cannot be bound is the error.
pub open spec fn bound_capabilities<H>(
    capabilities: Seq<MountedCapabilityModel<H>>,
    registry: Map<Seq<char>, RegistryEntryModel<H>>,
) -> Result<Seq<MountedCapabilityModel<H>>, RegistryErrorModel>
    decreases capabilities.len(),
{
    if capabilities.len() == 0 {
        Ok(Seq::empty())
    } else {
        match bound_capabilities(capabilities.drop_last(), registry) {
            Err(error) => Err(error),
            Ok(bound) => match bound_capability(capabilities.last().declaration, registry) {
                Err(error) => Err(error),
                Ok(declaration) => Ok(
                    bound.push(MountedCapabilityModel { declaration, ..capabilities.last() }),
                ),
            },
        }
    }
}

proof fn lemma_bound_error_stays<H>(
    capabilities: Seq<MountedCapabilityModel<H>>,
    registry: Map<Seq<char>, RegistryEntryModel<H>>,
    at: int,
)
    requires
        0 <= at <= capabilities.len(),
        bound_capabilities(capabilities.take(at), registry) is Err,
    ensures
        bound_capabilities(capabilities, registry) == bound_capabilities(
            capabilities.take(at),
            registry,
        ),
    decreases capabilities.len(),
{
    if at < capabilities.len() {
        assert(capabilities.drop_last().take(at) =~= capabilities.take(at));
        lemma_bound_error_stays(capabilities.drop_last(), registry, at);
    } else {
        assert(capabilities.take(at) =~= capabilities);
    }
}

fn bind_dispatcher<H>(
    declaration: ProviderCapabilityDeclaration<H>,
    registry: &ProviderDispatcherRegistry<H>,
) -> (result: Result<ProviderCapabilityDeclaration<H>, ProviderDispatcherRegistryError>)
    ensures
        match result {
            Ok(bound) => bound_capability(declaration@, registry@) == Ok::<
                CapabilityModel<H>,
                RegistryErrorModel,
            >(bound@),
            Err(error) => bound_capability(declaration@, registry@) == Err::<
                CapabilityModel<H>,
                RegistryErrorModel,
            >(error@),
        },
{
    let entry = match &declaration.contract {
        Some(contract) => registry.entry(contract.declaration_id()),
        None => None,
    };
    if declaration.is_dispatcher_bound() {
        match (&declaration.contract, entry) {
            (Some(contract), Some(_)) => {
                return Err(
                    ProviderDispatcherRegistryError::ConflictingEmbeddedBinding {
                        declaration_id: contract.declaration_id.clone(),
                    },
                );
            },
            _ => {},
        }
        return Ok(declaration);
    }
    let contract = match &declaration.contract {
        Some(contract) => contract,
        None => {
            return Err(
                ProviderDispatcherRegistryError::MissingBinding {
                    declaration_id: "<non-durable-provider-capability>".to_owned(),
                },
            );
        },
    };
    let entry = match entry {
        Some(entry) => entry,
        None => {
            return Err(
                ProviderDispatcherRegistryError::MissingBinding {
                    declaration_id: contract.declaration_id.clone(),
                },
            );
        },
    };
    if entry.contract.contract_version != contract.contract_version {
        return Err(
            ProviderDispatcherRegistryError::ContractVersionMismatch {
                declaration_id: contract.declaration_id.clone(),
                component_version: contract.contract_version.clone(),
                host_version: entry.contract.contract_version.clone(),
            },
        );
    }
    if !same_specs(&entry.contract.specs, &contract.specs) {
        return Err(
            ProviderDispatcherRegistryError::ToolSchemaMismatch {
                declaration_id: contract.declaration_id.clone(),
            },
        );
    }
    let binding = entry.binding.clone();
    Ok(declaration.with_dispatcher_binding(binding))
}

impl<H> ProviderCapabilityPlan<H> {
    /// Binds the dispatchers of a host.
    pub fn bind_dispatchers(self, registry: &ProviderDispatcherRegistry<H>) -> (result: Result<
        Self,
        ProviderDispatcherRegistryError,
    >)
        ensures
            match result {
                Ok(plan) => bound_capabilities(self@, registry@) == Ok::<
                    Seq<MountedCapabilityModel<H>>,
                    RegistryErrorModel,
                >(plan@),
                Err(error) => bound_capabilities(self@, registry@) == Err::<
                    Seq<MountedCapabilityModel<H>>,
                    RegistryErrorModel,
                >(error@),
            },
    {
        let ghost models = self@;
        let mut bound: Vec<MountedProviderCapability<H>> = Vec::new();
        let capabilities = self.capabilities;
        let ghost all = capabilities@;
        assert(models.take(0) =~= Seq::empty());
        assert(capability_models(bound@) =~= Seq::empty());
        for capability in iter: capabilities
            invariant
                iter.seq() == all,
                models == capability_models(all),
                models == self@,
                bound_capabilities(models.take(iter.index() as int), registry@) == Ok::<
                    Seq<MountedCapabilityModel<H>>,
                    RegistryErrorModel,
                >(capability_models(bound@)),
        {
            let ghost at = iter.index() as int;
            let ghost before = capability_models(bound@);
            proof {
                assert(models.take(at + 1).drop_last() =~= models.take(at));
                assert(models.take(at + 1).last() == capability@);
            }
            let MountedProviderCapability { id, declaration } = capability;
            match bind_dispatcher(declaration, registry) {
                Ok(declaration) => {
                    let mounted = MountedProviderCapability { id, declaration };
                    let ghost added = mounted@;
                    bound.push(mounted);
                    assert(capability_models(bound@) =~= before.push(added));
                },
                Err(error) => {
                    proof {
                        lemma_bound_error_stays(models, registry@, at + 1);
                    }
                    return Err(error);
                },
            }
        }
        assert(models.take(models.len() as int) =~= models);
        Ok(Self { capabilities: bound })
    }
}

/// Model of [`RuntimeBindingRegistry`].
pub struct BindingRegistryModel<F, D> {
    pub factories: Seq<MountedFactoryModel<F>>,
    pub capabilities: Seq<MountedCapabilityModel<D>>,
}

/// The runtime half of a mounted component.
#[derive(Debug)]
pub struct RuntimeBindingRegistry<F, D> {
    pub(crate) binding_factories: BindingFactoryPlan<F>,
    pub(crate) provider_capabilities: ProviderCapabilityPlan<D>,
}

impl<F, D> View for RuntimeBindingRegistry<F, D> {
    type V = BindingRegistryModel<F, D>;

    open(crate) spec fn view(&self) -> BindingRegistryModel<F, D> {
        BindingRegistryModel {
            factories: self.binding_factories@,
            capabilities: self.provider_capabilities@,
        }
    }
}

impl<F, D> RuntimeBindingRegistry<F, D> {
    pub fn new() -> (registry: Self)
        ensures
            registry@ == (BindingRegistryModel::<F, D> {
                factories: Seq::empty(),
                capabilities: Seq::empty(),
            }),
    {
        Self {
            binding_factories: BindingFactoryPlan::empty(),
            provider_capabilities: ProviderCapabilityPlan::empty(),
        }
    }

    pub fn from_compiled_plans(
        binding_factories: BindingFactoryPlan<F>,
        provider_capabilities: ProviderCapabilityPlan<D>,
    ) -> (registry: Self)
        ensures
            registry@ == (BindingRegistryModel {
                factories: binding_factories@,
                capabilities: provider_capabilities@,
            }),
    {
        Self { binding_factories, provider_capabilities }
    }

    pub fn binding_factories(&self) -> (plan: &BindingFactoryPlan<F>)
        ensures
            plan@ == self@.factories,
    {
        &self.binding_factories
    }

    pub fn provider_capabilities(&self) -> (plan: &ProviderCapabilityPlan<D>)
        ensures
            plan@ == self@.capabilities,
    {
        &self.provider_capabilities
    }

    pub fn into_plans(self) -> (plans: (BindingFactoryPlan<F>, ProviderCapabilityPlan<D>))
        ensures
            plans.0@ == self@.factories,
            plans.1@ == self@.capabilities,
    {
        (self.binding_factories, self.provider_capabilities)
    }

    /// Binds the dispatchers of a host; the factories stay as they are.
    pub fn bind_provider_dispatchers(self, registry: &ProviderDispatcherRegistry<D>) -> (result:
        Result<Self, ProviderDispatcherRegistryError>)
        ensures
            match result {
                Ok(bound) => bound@.factories == self@.factories && bound_capabilities(
                    self@.capabilities,
                    registry@,
                ) == Ok::<Seq<MountedCapabilityModel<D>>, RegistryErrorModel>(bound@.capabilities),
                Err(error) => bound_capabilities(self@.capabilities, registry@) == Err::<
                    Seq<MountedCapabilityModel<D>>,
                    RegistryErrorModel,
                >(error@),
            },
    {
        match self.provider_capabilities.bind_dispatchers(registry) {
            Ok(provider_capabilities) => Ok(
                Self { binding_factories: self.binding_factories, provider_capabilities },
            ),
            Err(error) => Err(error),
        }
    }
}

impl<F, D> Default for RuntimeBindingRegistry<F, D> {
    fn default() -> (registry: Self)
        ensures
            registry@ == (BindingRegistryModel::<F, D> {
                factories: Seq::empty(),
                capabilities: Seq::empty(),
            }),
    {
        Self::new()
    }
}

} // verus!
