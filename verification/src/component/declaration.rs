//! Runtime declarations: binding factories and provider capabilities.
//!
//! How a binding or a dispatcher is made is the host's affair. A declaration
//! carries that as a handle, which the library never looks into.

use std::sync::Arc;
use vstd::prelude::*;
use crate::component::contract::{is_first_repeat, is_tool_group, no_specs_error};
use crate::component::contract::{repeated_spec_error, validate_provider_specs};
use crate::component::contract::{CapabilityContractModel, ProviderCapabilityContract};
use crate::component::contract::{RuntimeContract, RuntimeContractModel};
use crate::component::identity::ComponentError;
use crate::component::tools::{duplicate_specs, spec_models, ProviderToolSpec, RouteModel};
use crate::component::tools::{RuntimeRoute, ToolSpecModel};
use crate::text_chars::{borrowed_text, duplicate_text, optional_str, optional_text};

verus! {

/// `Arc::clone` makes another pointer to the same value.
#[verifier::external_body]
pub(crate) fn share<H>(handle: &Arc<H>) -> (shared: Arc<H>)
    ensures
        shared == *handle,
{
    Arc::clone(handle)
}

/// Model of [`FactoryDeclaration`].
pub struct FactoryModel<H> {
    pub route: RouteModel,
    pub contract: Option<RuntimeContractModel>,
    pub instantiate: H,
}

/// A declaration of a binding that is made anew for each attempt.
#[derive(Debug)]
pub struct FactoryDeclaration<H> {
    pub(crate) route: RuntimeRoute,
    pub(crate) runtime_contract: Option<RuntimeContract>,
    pub(crate) instantiate: Arc<H>,
}

/// The model of an optional contract.
pub open spec fn optional_contract(contract: Option<RuntimeContract>) -> Option<
    RuntimeContractModel,
> {
    match contract {
        Some(contract) => Some(contract@),
        None => None,
    }
}

impl<H> View for FactoryDeclaration<H> {
    type V = FactoryModel<H>;

    open(crate) spec fn view(&self) -> FactoryModel<H> {
        FactoryModel {
            route: self.route@,
            contract: optional_contract(self.runtime_contract),
            instantiate: *self.instantiate,
        }
    }
}

impl<H> FactoryModel<H> {
    /// The durable id.
    pub open spec fn declaration_id(self) -> Option<Seq<char>> {
        match self.contract {
            Some(contract) => Some(contract.id),
            None => None,
        }
    }

    /// The durable version.
    pub open spec fn implementation_version(self) -> Option<Seq<char>> {
        match self.contract {
            Some(contract) => Some(contract.implementation_version),
            None => None,
        }
    }
}

impl<H> FactoryDeclaration<H> {
    /// A declaration that is not durable.
    pub fn with_context(route: RuntimeRoute, instantiate: Arc<H>) -> (declaration: Self)
        ensures
            declaration@ == (FactoryModel {
                route: route@,
                contract: None,
                instantiate: *instantiate,
            }),
    {
        Self { route, runtime_contract: None, instantiate }
    }

    /// A declaration that is not durable, with a maker that reads nothing of its context.
    /// Makers are the host's handles, so nothing else differs.
    pub fn new(route: RuntimeRoute, instantiate: Arc<H>) -> (declaration: Self)
        ensures
            declaration@ == (FactoryModel {
                route: route@,
                contract: None,
                instantiate: *instantiate,
            }),
    {
        Self::with_context(route, instantiate)
    }

    pub fn route(&self) -> (route: &RuntimeRoute)
        ensures
            route@ == self@.route,
    {
        &self.route
    }

    /// How the host makes the binding.
    pub fn handle(&self) -> (handle: &H)
        ensures
            *handle == self@.instantiate,
    {
        &self.instantiate
    }

    pub fn implementation_version(&self) -> (version: Option<&str>)
        ensures
            optional_str(version) == self@.implementation_version(),
    {
        match &self.runtime_contract {
            Some(contract) => Some(contract.implementation_version()),
            None => None,
        }
    }

    pub fn declaration_id(&self) -> (id: Option<&str>)
        ensures
            optional_str(id) == self@.declaration_id(),
    {
        match &self.runtime_contract {
            Some(contract) => Some(contract.id()),
            None => None,
        }
    }

    /// Makes the declaration durable.
    pub fn with_runtime_contract(self, contract: RuntimeContract) -> (declaration: Self)
        ensures
            declaration@ == (FactoryModel { contract: Some(contract@), ..self@ }),
    {
        Self {
            route: self.route,
            runtime_contract: Some(contract),
            instantiate: self.instantiate,
        }
    }

    /// Puts another handle in place of this one's, and keeps the rest.
    pub fn map_handle<G, M: Fn(Arc<H>) -> Arc<G>>(self, map: &M) -> (declaration:
        FactoryDeclaration<G>)
        requires
            map.requires((Arc::new(self@.instantiate),)),
        ensures
            declaration@.route == self@.route,
            declaration@.contract == self@.contract,
            map.ensures((Arc::new(self@.instantiate),), Arc::new(declaration@.instantiate)),
    {
        FactoryDeclaration {
            route: self.route,
            runtime_contract: self.runtime_contract,
            instantiate: map(self.instantiate),
        }
    }
}

impl<H> Clone for FactoryDeclaration<H> {
    fn clone(&self) -> (copy: Self)
        ensures
            copy@ == self@,
    {
        Self {
            route: self.route.clone(),
            runtime_contract: match &self.runtime_contract {
                Some(contract) => Some(contract.clone()),
                None => None,
            },
            instantiate: share(&self.instantiate),
        }
    }
}

/// Model of [`ProviderDispatcherBinding`].
pub struct DispatcherModel<H> {
    pub host_version: Option<Seq<char>>,
    pub instantiate: H,
}

/// A dispatcher of the host for a capability.
#[derive(Debug)]
pub struct ProviderDispatcherBinding<H> {
    pub(crate) host_implementation_version: Option<String>,
    pub(crate) instantiate_dispatcher: Arc<H>,
}

impl<H> View for ProviderDispatcherBinding<H> {
    type V = DispatcherModel<H>;

    open(crate) spec fn view(&self) -> DispatcherModel<H> {
        DispatcherModel {
            host_version: optional_text(self.host_implementation_version),
            instantiate: *self.instantiate_dispatcher,
        }
    }
}

impl<H> Clone for ProviderDispatcherBinding<H> {
    fn clone(&self) -> (copy: Self)
        ensures
            copy@ == self@,
    {
        Self {
            host_implementation_version: duplicate_text(&self.host_implementation_version),
            instantiate_dispatcher: share(&self.instantiate_dispatcher),
        }
    }
}

/// Model of [`ProviderCapabilityDeclaration`].
pub struct CapabilityModel<H> {
    pub specs: Seq<ToolSpecModel>,
    pub contract: Option<CapabilityContractModel>,
    pub dispatcher: Option<DispatcherModel<H>>,
}

/// A declaration of a group of provider tools and of who answers their calls.
#[derive(Debug)]
pub struct ProviderCapabilityDeclaration<H> {
    pub(crate) specs: Vec<ProviderToolSpec>,
    pub(crate) contract: Option<ProviderCapabilityContract>,
    pub(crate) dispatcher_binding: Option<ProviderDispatcherBinding<H>>,
}

/// The model of an optional contract.
pub open spec fn optional_capability_contract(
    contract: Option<ProviderCapabilityContract>,
) -> Option<CapabilityContractModel> {
    match contract {
        Some(contract) => Some(contract@),
        None => None,
    }
}

/// The model of an optional dispatcher.
pub open spec fn optional_dispatcher<H>(binding: Option<ProviderDispatcherBinding<H>>) -> Option<
    DispatcherModel<H>,
> {
    match binding {
        Some(binding) => Some(binding@),
        None => None,
    }
}

impl<H> View for ProviderCapabilityDeclaration<H> {
    type V = CapabilityModel<H>;

    open(crate) spec fn view(&self) -> CapabilityModel<H> {
        CapabilityModel {
            specs: spec_models(self.specs@),
            contract: optional_capability_contract(self.contract),
            dispatcher: optional_dispatcher(self.dispatcher_binding),
        }
    }
}

impl<H> CapabilityModel<H> {
    /// The durable id.
    pub open spec fn declaration_id(self) -> Option<Seq<char>> {
        match self.contract {
            Some(contract) => Some(contract.declaration_id),
            None => None,
        }
    }

    /// The version of the durable contract.
    pub open spec fn contract_version(self) -> Option<Seq<char>> {
        match self.contract {
            Some(contract) => Some(contract.contract_version),
            None => None,
        }
    }

    /// The version of the host's dispatcher.
    pub open spec fn host_version(self) -> Option<Seq<char>> {
        match self.dispatcher {
            Some(dispatcher) => dispatcher.host_version,
            None => None,
        }
    }

    /// The declaration made durable: its own tools, under the id and the version of
    /// the contract, which the dispatcher takes over.
    pub open spec fn with_contract(self, contract: RuntimeContractModel) -> Self {
        CapabilityModel {
            specs: self.specs,
            contract: Some(
                CapabilityContractModel {
                    declaration_id: contract.id,
                    contract_version: contract.implementation_version,
                    specs: self.specs,
                },
            ),
            dispatcher: match self.dispatcher {
                Some(dispatcher) => Some(
                    DispatcherModel {
                        host_version: Some(contract.implementation_version),
                        instantiate: dispatcher.instantiate,
                    },
                ),
                None => None,
            },
        }
    }
}

impl<H> ProviderCapabilityDeclaration<H> {
    /// A declaration that brings its own dispatcher and is not durable.
    pub fn with_context(
        specs: Vec<ProviderToolSpec>,
        instantiate_dispatcher: Arc<H>,
    ) -> (result: Result<Self, ComponentError>)
        ensures
            result is Ok <==> is_tool_group(spec_models(specs@)),
            result is Ok ==> result->Ok_0@ == (CapabilityModel {
                specs: spec_models(specs@),
                contract: None,
                dispatcher: Some(
                    DispatcherModel { host_version: None, instantiate: *instantiate_dispatcher },
                ),
            }),
            specs@.len() == 0 ==> result->Err_0@ == no_specs_error(),
            specs@.len() > 0 && result is Err ==> exists|at: int| #[trigger]
                is_first_repeat(spec_models(specs@), at) && result->Err_0@ == repeated_spec_error(
                    spec_models(specs@)[at].name,
                ),
    {
        match validate_provider_specs(specs) {
            Ok(specs) => Ok(
                Self {
                    specs,
                    contract: None,
                    dispatcher_binding: Some(
                        ProviderDispatcherBinding {
                            host_implementation_version: None,
                            instantiate_dispatcher,
                        },
                    ),
                },
            ),
            Err(error) => Err(error),
        }
    }

    /// A declaration that brings its own dispatcher and is not durable, with a maker that
    /// reads nothing of its context. Makers are the host's handles, so nothing else
    /// differs.
    pub fn new(specs: Vec<ProviderToolSpec>, instantiate_dispatcher: Arc<H>) -> (result: Result<
        Self,
        ComponentError,
    >)
        ensures
            result is Ok <==> is_tool_group(spec_models(specs@)),
            result is Ok ==> result->Ok_0@ == (CapabilityModel {
                specs: spec_models(specs@),
                contract: None,
                dispatcher: Some(
                    DispatcherModel { host_version: None, instantiate: *instantiate_dispatcher },
                ),
            }),
            specs@.len() == 0 ==> result->Err_0@ == no_specs_error(),
            specs@.len() > 0 && result is Err ==> exists|at: int| #[trigger]
                is_first_repeat(spec_models(specs@), at) && result->Err_0@ == repeated_spec_error(
                    spec_models(specs@)[at].name,
                ),
    {
        Self::with_context(specs, instantiate_dispatcher)
    }

    /// A durable declaration whose dispatcher the host still has to bring.
    pub fn from_contract(contract: ProviderCapabilityContract) -> (declaration: Self)
        ensures
            declaration@ == (CapabilityModel::<H> {
                specs: contract@.specs,
                contract: Some(contract@),
                dispatcher: None,
            }),
    {
        Self {
            specs: duplicate_specs(&contract.specs),
            contract: Some(contract),
            dispatcher_binding: None,
        }
    }

    pub fn specs(&self) -> (specs: &Vec<ProviderToolSpec>)
        ensures
            spec_models(specs@) == self@.specs,
    {
        &self.specs
    }

    pub fn contract_version(&self) -> (version: Option<&str>)
        ensures
            optional_str(version) == self@.contract_version(),
    {
        match &self.contract {
            Some(contract) => Some(contract.contract_version()),
            None => None,
        }
    }

    pub fn host_implementation_version(&self) -> (version: Option<&str>)
        ensures
            optional_str(version) == self@.host_version(),
    {
        match &self.dispatcher_binding {
            Some(binding) => borrowed_text(&binding.host_implementation_version),
            None => None,
        }
    }

    /// The version that a durable declaration is stored under.
    pub fn implementation_version(&self) -> (version: Option<&str>)
        ensures
            optional_str(version) == self@.contract_version(),
    {
        self.contract_version()
    }

    pub fn declaration_id(&self) -> (id: Option<&str>)
        ensures
            optional_str(id) == self@.declaration_id(),
    {
        match &self.contract {
            Some(contract) => Some(contract.declaration_id()),
            None => None,
        }
    }

    /// Makes the declaration durable.
    pub fn with_runtime_contract(self, contract: RuntimeContract) -> (declaration: Self)
        ensures
            declaration@ == self@.with_contract(contract@),
    {
        let host_version: String = contract.implementation_version.clone();
        let specs = duplicate_specs(&self.specs);
        Self {
            specs: self.specs,
            contract: Some(ProviderCapabilityContract::from_legacy(contract, specs)),
            dispatcher_binding: match self.dispatcher_binding {
                Some(binding) => Some(
                    ProviderDispatcherBinding {
                        host_implementation_version: Some(host_version),
                        instantiate_dispatcher: binding.instantiate_dispatcher,
                    },
                ),
                None => None,
            },
        }
    }

    pub(crate) fn with_dispatcher_binding(
        self,
        binding: ProviderDispatcherBinding<H>,
    ) -> (declaration: Self)
        ensures
            declaration@ == (CapabilityModel { dispatcher: Some(binding@), ..self@ }),
    {
        Self {
            specs: self.specs,
            contract: self.contract,
            dispatcher_binding: Some(binding),
        }
    }

    /// Whether somebody answers the calls.
    pub fn is_dispatcher_bound(&self) -> (bound: bool)
        ensures
            bound == (self@.dispatcher is Some),
    {
        self.dispatcher_binding.is_some()
    }

    /// How the host makes the dispatcher.
    pub fn handle(&self) -> (handle: Option<&H>)
        ensures
            match handle {
                Some(handle) => self@.dispatcher is Some && *handle
                    == self@.dispatcher->Some_0.instantiate,
                None => self@.dispatcher is None,
            },
    {
        match &self.dispatcher_binding {
            Some(binding) => Some(&binding.instantiate_dispatcher),
            None => None,
        }
    }

    /// Puts another handle in place of this one's, and keeps the rest.
    pub fn map_handle<G, M: Fn(Arc<H>) -> Arc<G>>(self, map: &M) -> (declaration:
        ProviderCapabilityDeclaration<G>)
        requires
            self@.dispatcher is Some ==> map.requires(
                (Arc::new(self@.dispatcher->Some_0.instantiate),),
            ),
        ensures
            declaration@.specs == self@.specs,
            declaration@.contract == self@.contract,
            match (self@.dispatcher, declaration@.dispatcher) {
                (Some(from), Some(to)) => to.host_version == from.host_version && map.ensures(
                    (Arc::new(from.instantiate),),
                    Arc::new(to.instantiate),
                ),
                (None, None) => true,
                _ => false,
            },
    {
        ProviderCapabilityDeclaration {
            specs: self.specs,
            contract: self.contract,
            dispatcher_binding: match self.dispatcher_binding {
                Some(binding) => Some(
                    ProviderDispatcherBinding {
                        host_implementation_version: binding.host_implementation_version,
                        instantiate_dispatcher: map(binding.instantiate_dispatcher),
                    },
                ),
                None => None,
            },
        }
    }
}

impl<H> Clone for ProviderCapabilityDeclaration<H> {
    fn clone(&self) -> (copy: Self)
        ensures
            copy@ == self@,
    {
        Self {
            specs: duplicate_specs(&self.specs),
            contract: match &self.contract {
                Some(contract) => Some(contract.clone()),
                None => None,
            },
            dispatcher_binding: match &self.dispatcher_binding {
                Some(binding) => Some(binding.clone()),
                None => None,
            },
        }
    }
}

/// Model of [`RuntimeDeclaration`].
pub enum DeclarationModel<F, D> {
    BindingFactory(FactoryModel<F>),
    ProviderCapability(CapabilityModel<D>),
}

/// What a component mounts besides text: a binding factory or a capability.
#[derive(Debug)]
pub enum RuntimeDeclaration<F, D> {
    BindingFactory(FactoryDeclaration<F>),
    ProviderCapability(ProviderCapabilityDeclaration<D>),
}

impl<F, D> View for RuntimeDeclaration<F, D> {
    type V = DeclarationModel<F, D>;

    open spec fn view(&self) -> DeclarationModel<F, D> {
        match *self {
            RuntimeDeclaration::BindingFactory(factory) => DeclarationModel::BindingFactory(
                factory@,
            ),
            RuntimeDeclaration::ProviderCapability(capability) => {
                DeclarationModel::ProviderCapability(capability@)
            },
        }
    }
}

impl<F, D> DeclarationModel<F, D> {
    /// The durable id.
    pub open spec fn declaration_id(self) -> Option<Seq<char>> {
        match self {
            DeclarationModel::BindingFactory(factory) => factory.declaration_id(),
            DeclarationModel::ProviderCapability(capability) => capability.declaration_id(),
        }
    }
}

impl<F, D> RuntimeDeclaration<F, D> {
    pub fn declaration_id(&self) -> (id: Option<&str>)
        ensures
            optional_str(id) == self@.declaration_id(),
    {
        match self {
            RuntimeDeclaration::BindingFactory(factory) => factory.declaration_id(),
            RuntimeDeclaration::ProviderCapability(capability) => capability.declaration_id(),
        }
    }
}

/// What a function may make of a handle.
pub open spec fn by_function<A, B, M: Fn(Arc<A>) -> Arc<B>>(map: M) -> spec_fn(A, B) -> bool {
    |from: A, to: B| map.ensures((Arc::new(from),), Arc::new(to))
}

/// Whether a declaration was carried over with its handle replaced and all else kept.
pub open spec fn declaration_mapped<F, D, G, E>(
    factories: spec_fn(F, G) -> bool,
    dispatchers: spec_fn(D, E) -> bool,
    from: DeclarationModel<F, D>,
    to: DeclarationModel<G, E>,
) -> bool {
    match (from, to) {
        (DeclarationModel::BindingFactory(from), DeclarationModel::BindingFactory(to)) => {
            &&& to.route == from.route
            &&& to.contract == from.contract
            &&& factories(from.instantiate, to.instantiate)
        },
        (DeclarationModel::ProviderCapability(from), DeclarationModel::ProviderCapability(to)) => {
            &&& to.specs == from.specs
            &&& to.contract == from.contract
            &&& match (from.dispatcher, to.dispatcher) {
                (Some(from), Some(to)) => to.host_version == from.host_version
                    && dispatchers(from.instantiate, to.instantiate),
                (None, None) => true,
                _ => false,
            }
        },
        _ => false,
    }
}

impl<F, D> RuntimeDeclaration<F, D> {
    /// Puts other handles in place of the host's, and keeps the rest.
    pub fn map_handles<G, E, M: Fn(Arc<F>) -> Arc<G>, N: Fn(Arc<D>) -> Arc<E>>(
        self,
        factories: &M,
        dispatchers: &N,
    ) -> (mapped: RuntimeDeclaration<G, E>)
        requires
            forall|handle: Arc<F>| #[trigger] factories.requires((handle,)),
            forall|handle: Arc<D>| #[trigger] dispatchers.requires((handle,)),
        ensures
            declaration_mapped(by_function(*factories), by_function(*dispatchers), self@, mapped@),
    {
        match self {
            RuntimeDeclaration::BindingFactory(factory) => RuntimeDeclaration::BindingFactory(
                factory.map_handle(factories),
            ),
            RuntimeDeclaration::ProviderCapability(capability) => {
                RuntimeDeclaration::ProviderCapability(capability.map_handle(dispatchers))
            },
        }
    }
}

impl<F, D> Clone for RuntimeDeclaration<F, D> {
    fn clone(&self) -> (copy: Self)
        ensures
            copy@ == self@,
    {
        match self {
            RuntimeDeclaration::BindingFactory(factory) => RuntimeDeclaration::BindingFactory(
                factory.clone(),
            ),
            RuntimeDeclaration::ProviderCapability(capability) => {
                RuntimeDeclaration::ProviderCapability(capability.clone())
            },
        }
    }
}

} // verus!
