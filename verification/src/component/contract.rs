//! Durable contracts of runtime declarations.
//!
//! A durable declaration survives a restart: its id and version are part of what
//! is stored, and its place in the component tree is derived from its id.

use vstd::prelude::*;
use vstd::string::*;
use vstd::utf8::encode_utf8;
use crate::component::identity::{contract_error, ComponentError, ComponentErrorModel};
use crate::component::tools::{duplicate_specs, same_specs, spec_models};
use crate::component::tools::{ProviderToolSpec, ToolSpecModel};
use crate::hex::{hex, hex_text, law_hex_is_injective};
use crate::text_chars::{has_control, joined, with_control};

verus! {

/// Durable names are non-empty and hold no control characters.
pub open spec fn is_durable_text(text: Seq<char>) -> bool {
    text.len() > 0 && !has_control(text)
}

/// The error for an implementation version.
pub open spec fn version_error() -> ComponentErrorModel {
    contract_error(
        "a runtime implementation version must be non-empty and contain no control characters"@,
    )
}

/// The error for a declaration id.
pub open spec fn declaration_id_error() -> ComponentErrorModel {
    contract_error(
        "a durable runtime declaration id must be non-empty and contain no control characters"@,
    )
}

pub(crate) fn durable_text(text: &str) -> (valid: bool)
    ensures
        valid == is_durable_text(text@),
{
    !text.is_empty() && !with_control(text)
}

/// Accepts an implementation version.
pub(crate) fn validate_runtime_implementation_version(version: &str) -> (result: Result<
    String,
    ComponentError,
>)
    ensures
        result is Ok <==> is_durable_text(version@),
        result is Ok ==> result->Ok_0@ == version@,
        result is Err ==> result->Err_0@ == version_error(),
{
    if !durable_text(version) {
        return Err(
            ComponentError::contract(
                "a runtime implementation version must be non-empty and contain no control characters".to_owned(),
            ),
        );
    }
    Ok(version.to_owned())
}

/// Accepts a declaration id.
pub(crate) fn validate_runtime_declaration_id(declaration_id: &str) -> (result: Result<
    String,
    ComponentError,
>)
    ensures
        result is Ok <==> is_durable_text(declaration_id@),
        result is Ok ==> result->Ok_0@ == declaration_id@,
        result is Err ==> result->Err_0@ == declaration_id_error(),
{
    if !durable_text(declaration_id) {
        return Err(
            ComponentError::contract(
                "a durable runtime declaration id must be non-empty and contain no control characters".to_owned(),
            ),
        );
    }
    Ok(declaration_id.to_owned())
}

/// The component key of a durable declaration, derived from its id alone.
pub open spec fn structural_key(declaration_id: Seq<char>) -> Seq<char> {
    "contract-"@ + hex_text(encode_utf8(declaration_id))
}

/// The component key of a durable declaration.
pub fn structural_component_key_for_declaration(declaration_id: &str) -> (key: String)
    ensures
        key@ == structural_key(declaration_id@),
{
    let digits: String = hex(declaration_id.as_bytes());
    joined("contract-", digits.as_str())
}

/// Different declarations have different component keys.
pub proof fn law_structural_keys_are_distinct(first: Seq<char>, second: Seq<char>)
    requires
        structural_key(first) == structural_key(second),
    ensures
        first == second,
{
    let prefix = "contract-"@;
    let a = hex_text(encode_utf8(first));
    let b = hex_text(encode_utf8(second));
    assert((prefix + a).skip(prefix.len() as int) =~= a);
    assert((prefix + b).skip(prefix.len() as int) =~= b);
    law_hex_is_injective(encode_utf8(first), encode_utf8(second));
    vstd::utf8::encode_utf8_decode_utf8(first);
    vstd::utf8::encode_utf8_decode_utf8(second);
}

/// Model of [`RuntimeContract`].
pub struct RuntimeContractModel {
    pub id: Seq<char>,
    pub implementation_version: Seq<char>,
}

/// The id and the version of a durable binding.
#[derive(Debug)]
pub struct RuntimeContract {
    pub(crate) id: String,
    pub(crate) implementation_version: String,
}

impl View for RuntimeContract {
    type V = RuntimeContractModel;

    open(crate) spec fn view(&self) -> RuntimeContractModel {
        RuntimeContractModel { id: self.id@, implementation_version: self.implementation_version@ }
    }
}

impl RuntimeContract {
    pub fn new(id: &str, implementation_version: &str) -> (result: Result<Self, ComponentError>)
        ensures
            result is Ok <==> is_durable_text(id@) && is_durable_text(implementation_version@),
            result is Ok ==> result->Ok_0@ == (RuntimeContractModel {
                id: id@,
                implementation_version: implementation_version@,
            }),
            !is_durable_text(id@) ==> result->Err_0@ == declaration_id_error(),
            is_durable_text(id@) && result is Err ==> result->Err_0@ == version_error(),
    {
        let id = match validate_runtime_declaration_id(id) {
            Ok(id) => id,
            Err(error) => return Err(error),
        };
        match validate_runtime_implementation_version(implementation_version) {
            Ok(implementation_version) => Ok(Self { id, implementation_version }),
            Err(error) => Err(error),
        }
    }

    pub(crate) fn structural_component_key(&self) -> (key: String)
        ensures
            key@ == structural_key(self@.id),
    {
        structural_component_key_for_declaration(self.id.as_str())
    }

    pub fn id(&self) -> (text: &str)
        ensures
            text@ == self@.id,
    {
        self.id.as_str()
    }

    pub fn implementation_version(&self) -> (text: &str)
        ensures
            text@ == self@.implementation_version,
    {
        self.implementation_version.as_str()
    }
}

impl Clone for RuntimeContract {
    fn clone(&self) -> (copy: Self)
        ensures
            copy@ == self@,
    {
        Self {
            id: self.id.clone(),
            implementation_version: self.implementation_version.clone(),
        }
    }
}

impl PartialEq for RuntimeContract {
    fn eq(&self, other: &Self) -> (equal: bool) {
        self.id == other.id && self.implementation_version == other.implementation_version
    }
}

impl Eq for RuntimeContract {

}

impl vstd::std_specs::cmp::PartialEqSpecImpl for RuntimeContract {
    open spec fn obeys_eq_spec() -> bool {
        true
    }

    open spec fn eq_spec(&self, other: &Self) -> bool {
        self@ == other@
    }
}

/// The error for a tool group without tools.
pub open spec fn no_specs_error() -> ComponentErrorModel {
    contract_error("a provider tool group requires at least one tool spec"@)
}

/// The error for a name that occurs twice in a tool group.
pub open spec fn repeated_spec_error(name: Seq<char>) -> ComponentErrorModel {
    contract_error("provider tool group contains duplicate tool name `"@ + name + "`"@)
}

/// Whether the name of a tool occurs among earlier ones.
pub open spec fn repeats_earlier(specs: Seq<ToolSpecModel>, at: int) -> bool {
    exists|i: int| 0 <= i < at && (#[trigger] specs[i]).name == specs[at].name
}

/// The first tool whose name occurs before it.
pub open spec fn is_first_repeat(specs: Seq<ToolSpecModel>, at: int) -> bool {
    &&& 0 <= at < specs.len()
    &&& repeats_earlier(specs, at)
    &&& forall|i: int| 0 <= i < at ==> !#[trigger] repeats_earlier(specs, i)
}

/// Whether tools can be offered as a group: at least one, each under its own name.
pub open spec fn is_tool_group(specs: Seq<ToolSpecModel>) -> bool {
    specs.len() > 0 && forall|i: int| 0 <= i < specs.len() ==> !#[trigger] repeats_earlier(specs, i)
}

/// Accepts a tool group.
pub fn validate_provider_specs(specs: Vec<ProviderToolSpec>) -> (result: Result<
    Vec<ProviderToolSpec>,
    ComponentError,
>)
    ensures
        result is Ok <==> is_tool_group(spec_models(specs@)),
        result is Ok ==> result->Ok_0 == specs,
        specs@.len() == 0 ==> result->Err_0@ == no_specs_error(),
        specs@.len() > 0 && result is Err ==> exists|at: int| #[trigger]
            is_first_repeat(spec_models(specs@), at) && result->Err_0@ == repeated_spec_error(
                spec_models(specs@)[at].name,
            ),
{
    if specs.is_empty() {
        return Err(
            ComponentError::contract(
                "a provider tool group requires at least one tool spec".to_owned(),
            ),
        );
    }
    let ghost models = spec_models(specs@);
    let count: usize = specs.len();
    for i in 0..count
        invariant
            count == specs@.len(),
            models == spec_models(specs@),
            forall|j: int| 0 <= j < i ==> !#[trigger] repeats_earlier(models, j),
    {
        for j in 0..i
            invariant
                i < count,
                count == specs@.len(),
                models == spec_models(specs@),
                forall|k: int| 0 <= k < i ==> !#[trigger] repeats_earlier(models, k),
                forall|k: int| 0 <= k < j ==> (#[trigger] models[k]).name != models[i as int].name,
        {
            assert(models[j as int] == specs@[j as int]@);
            assert(models[i as int] == specs@[i as int]@);
            if specs[j].name == specs[i].name {
                let mut message: String = joined(
                    "provider tool group contains duplicate tool name `",
                    specs[i].name.as_str(),
                );
                message.append("`");
                assert(repeats_earlier(models, i as int));
                assert(is_first_repeat(models, i as int));
                return Err(ComponentError::contract(message));
            }
        }
    }
    Ok(specs)
}

/// Model of [`ProviderCapabilityContract`].
pub struct CapabilityContractModel {
    pub declaration_id: Seq<char>,
    pub contract_version: Seq<char>,
    pub specs: Seq<ToolSpecModel>,
}

/// The durable contract of a group of provider tools.
#[derive(Debug)]
pub struct ProviderCapabilityContract {
    pub(crate) declaration_id: String,
    pub(crate) contract_version: String,
    pub(crate) specs: Vec<ProviderToolSpec>,
}

impl View for ProviderCapabilityContract {
    type V = CapabilityContractModel;

    open(crate) spec fn view(&self) -> CapabilityContractModel {
        CapabilityContractModel {
            declaration_id: self.declaration_id@,
            contract_version: self.contract_version@,
            specs: spec_models(self.specs@),
        }
    }
}

impl ProviderCapabilityContract {
    pub fn new(
        declaration_id: &str,
        contract_version: &str,
        specs: Vec<ProviderToolSpec>,
    ) -> (result: Result<Self, ComponentError>)
        ensures
            result is Ok <==> is_durable_text(declaration_id@) && is_durable_text(
                contract_version@,
            ) && is_tool_group(spec_models(specs@)),
            result is Ok ==> result->Ok_0@ == (CapabilityContractModel {
                declaration_id: declaration_id@,
                contract_version: contract_version@,
                specs: spec_models(specs@),
            }),
            !is_durable_text(declaration_id@) ==> result->Err_0@ == declaration_id_error(),
            is_durable_text(declaration_id@) && !is_durable_text(contract_version@)
                ==> result->Err_0@ == version_error(),
            is_durable_text(declaration_id@) && is_durable_text(contract_version@) && specs@.len()
                == 0 ==> result->Err_0@ == no_specs_error(),
            is_durable_text(declaration_id@) && is_durable_text(contract_version@) && specs@.len()
                > 0 && result is Err ==> exists|at: int| #[trigger]
                is_first_repeat(spec_models(specs@), at) && result->Err_0@ == repeated_spec_error(
                    spec_models(specs@)[at].name,
                ),
    {
        let declaration_id = match validate_runtime_declaration_id(declaration_id) {
            Ok(declaration_id) => declaration_id,
            Err(error) => return Err(error),
        };
        let contract_version = match validate_runtime_implementation_version(contract_version) {
            Ok(contract_version) => contract_version,
            Err(error) => return Err(error),
        };
        match validate_provider_specs(specs) {
            Ok(specs) => Ok(Self { declaration_id, contract_version, specs }),
            Err(error) => Err(error),
        }
    }

    pub(crate) fn structural_component_key(&self) -> (key: String)
        ensures
            key@ == structural_key(self@.declaration_id),
    {
        structural_component_key_for_declaration(self.declaration_id.as_str())
    }

    /// The contract of a declaration that was made from a plain runtime contract.
    pub(crate) fn from_legacy(contract: RuntimeContract, specs: Vec<ProviderToolSpec>) -> (result:
        Self)
        ensures
            result@ == (CapabilityContractModel {
                declaration_id: contract@.id,
                contract_version: contract@.implementation_version,
                specs: spec_models(specs@),
            }),
    {
        Self {
            declaration_id: contract.id,
            contract_version: contract.implementation_version,
            specs,
        }
    }

    pub fn declaration_id(&self) -> (text: &str)
        ensures
            text@ == self@.declaration_id,
    {
        self.declaration_id.as_str()
    }

    pub fn contract_version(&self) -> (text: &str)
        ensures
            text@ == self@.contract_version,
    {
        self.contract_version.as_str()
    }

    pub fn specs(&self) -> (values: &Vec<ProviderToolSpec>)
        ensures
            spec_models(values@) == self@.specs,
    {
        &self.specs
    }
}

impl Clone for ProviderCapabilityContract {
    fn clone(&self) -> (copy: Self)
        ensures
            copy@ == self@,
    {
        Self {
            declaration_id: self.declaration_id.clone(),
            contract_version: self.contract_version.clone(),
            specs: duplicate_specs(&self.specs),
        }
    }
}

impl PartialEq for ProviderCapabilityContract {
    fn eq(&self, other: &Self) -> (equal: bool) {
        self.declaration_id == other.declaration_id && self.contract_version == other.contract_version && same_specs(&self.specs, &other.specs)
    }
}

impl Eq for ProviderCapabilityContract {

}

impl vstd::std_specs::cmp::PartialEqSpecImpl for ProviderCapabilityContract {
    open spec fn obeys_eq_spec() -> bool {
        true
    }

    open spec fn eq_spec(&self, other: &Self) -> bool {
        self@ == other@
    }
}

} // verus!
