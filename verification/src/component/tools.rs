//! Provider tools: what they are called, what they take and what they answer.

use vstd::prelude::*;
use crate::component::identity::{contract_error, is_key, BindingKey, ComponentError};
use crate::component::identity::ComponentErrorModel;
use crate::json::{JsonModel, JsonValue};
use crate::pom::model::is_xml_name;
use crate::pom::xml::XmlName;
use crate::text_chars::{borrowed_text, duplicate_text, joined, optional_str, optional_text};
use crate::text_chars::same_optional_text;

verus! {

/// The message for a tag that is no XML name.
pub open spec fn invalid_tag_message(tag: Seq<char>) -> Seq<char> {
    "invalid XML runtime route `"@ + tag + "`: invalid XML name: "@ + tag
}

/// Model of [`RuntimeRoute`].
pub struct RouteModel {
    pub namespace: Seq<char>,
    pub name: Seq<char>,
}

/// Where stream events go: a namespace, and a name within it.
#[derive(Debug)]
pub struct RuntimeRoute {
    pub(crate) namespace: String,
    pub(crate) name: String,
}

impl View for RuntimeRoute {
    type V = RouteModel;

    open(crate) spec fn view(&self) -> RouteModel {
        RouteModel { namespace: self.namespace@, name: self.name@ }
    }
}

impl RuntimeRoute {
    /// A route whose two parts are not empty.
    pub fn new(namespace: &str, name: &str) -> (result: Result<Self, ComponentError>)
        ensures
            result is Ok <==> namespace@.len() > 0 && name@.len() > 0,
            result is Ok ==> result->Ok_0@ == (RouteModel { namespace: namespace@, name: name@ }),
            result is Err ==> result->Err_0@ == contract_error(
                "a runtime route requires non-empty namespace and name"@,
            ),
    {
        if namespace.is_empty() || name.is_empty() {
            return Err(
                ComponentError::contract(
                    "a runtime route requires non-empty namespace and name".to_owned(),
                ),
            );
        }
        Ok(Self { namespace: namespace.to_owned(), name: name.to_owned() })
    }

    /// The route of an XML tag.
    pub fn xml(tag: &str) -> (result: Result<Self, ComponentError>)
        ensures
            result is Ok <==> is_xml_name(tag@),
            result is Ok ==> result->Ok_0@ == xml_route(tag@),
            result is Err ==> result->Err_0@ == contract_error(invalid_tag_message(tag@)),
    {
        match XmlName::new(tag) {
            Ok(_) => {
                proof {
                    reveal_strlit("xml");
                }
                Self::new("xml", tag)
            },
            Err(_) => {
                let mut message: String = joined("invalid XML runtime route `", tag);
                message.append("`: invalid XML name: ");
                message.append(tag);
                Err(ComponentError::contract(message))
            },
        }
    }

    /// The route as a text.
    pub fn label(&self) -> (label: String)
        ensures
            label@ == self@.namespace + ":"@ + self@.name,
    {
        let mut label: String = joined(self.namespace.as_str(), ":");
        label.append(self.name.as_str());
        label
    }

    pub fn namespace(&self) -> (text: &str)
        ensures
            text@ == self@.namespace,
    {
        self.namespace.as_str()
    }

    pub fn name(&self) -> (text: &str)
        ensures
            text@ == self@.name,
    {
        self.name.as_str()
    }
}

impl Clone for RuntimeRoute {
    fn clone(&self) -> (copy: Self)
        ensures
            copy@ == self@,
    {
        Self { namespace: self.namespace.clone(), name: self.name.clone() }
    }
}

impl PartialEq for RuntimeRoute {
    fn eq(&self, other: &Self) -> (equal: bool) {
        self.namespace == other.namespace && self.name == other.name
    }
}

impl Eq for RuntimeRoute {

}

impl vstd::std_specs::cmp::PartialEqSpecImpl for RuntimeRoute {
    open spec fn obeys_eq_spec() -> bool {
        true
    }

    open spec fn eq_spec(&self, other: &Self) -> bool {
        self@ == other@
    }
}

/// The route of an XML tag.
pub open spec fn xml_route(tag: Seq<char>) -> RouteModel {
    RouteModel { namespace: "xml"@, name: tag }
}

/// The message for a schema that is no object.
pub open spec fn schema_message(name: Seq<char>) -> Seq<char> {
    "provider tool `"@ + name + "` requires an object input schema"@
}

/// Model of [`ProviderToolSpec`].
pub struct ToolSpecModel {
    pub name: Seq<char>,
    pub description: Seq<char>,
    pub input_schema: JsonModel,
}

/// What a provider is told about one tool.
#[derive(Debug)]
pub struct ProviderToolSpec {
    pub(crate) name: String,
    pub(crate) description: String,
    pub(crate) input_schema: JsonValue,
}

impl View for ProviderToolSpec {
    type V = ToolSpecModel;

    open(crate) spec fn view(&self) -> ToolSpecModel {
        ToolSpecModel {
            name: self.name@,
            description: self.description@,
            input_schema: self.input_schema@,
        }
    }
}

impl ProviderToolSpec {
    /// A tool with a valid name and an object as its input schema.
    pub fn new(name: &str, description: &str, input_schema: JsonValue) -> (result: Result<
        Self,
        ComponentError,
    >)
        ensures
            result is Ok <==> is_key(name@) && input_schema@ is Object,
            result is Ok ==> result->Ok_0@ == (ToolSpecModel {
                name: name@,
                description: description@,
                input_schema: input_schema@,
            }),
            !is_key(name@) ==> result->Err_0@ == (ComponentErrorModel::InvalidKey {
                value: name@,
            }),
            is_key(name@) && !(input_schema@ is Object) ==> result->Err_0@ == contract_error(
                schema_message(name@),
            ),
    {
        match BindingKey::new(name) {
            Ok(_) => {},
            Err(error) => return Err(error),
        }
        if !input_schema.is_object() {
            let mut message: String = joined("provider tool `", name);
            message.append("` requires an object input schema");
            return Err(ComponentError::contract(message));
        }
        Ok(Self { name: name.to_owned(), description: description.to_owned(), input_schema })
    }

    pub fn name(&self) -> (text: &str)
        ensures
            text@ == self@.name,
    {
        self.name.as_str()
    }

    pub fn description(&self) -> (text: &str)
        ensures
            text@ == self@.description,
    {
        self.description.as_str()
    }

    pub fn input_schema(&self) -> (value: &JsonValue)
        ensures
            value@ == self@.input_schema,
    {
        &self.input_schema
    }
}

impl Clone for ProviderToolSpec {
    fn clone(&self) -> (copy: Self)
        ensures
            copy@ == self@,
    {
        Self {
            name: self.name.clone(),
            description: self.description.clone(),
            input_schema: self.input_schema.clone(),
        }
    }
}

impl PartialEq for ProviderToolSpec {
    fn eq(&self, other: &Self) -> (equal: bool) {
        self.name == other.name
            && self.description == other.description
            && self.input_schema == other.input_schema
    }
}

impl Eq for ProviderToolSpec {

}

impl vstd::std_specs::cmp::PartialEqSpecImpl for ProviderToolSpec {
    open spec fn obeys_eq_spec() -> bool {
        true
    }

    open spec fn eq_spec(&self, other: &Self) -> bool {
        self@ == other@
    }
}

/// The models of several tools.
pub open spec fn spec_models(specs: Seq<ProviderToolSpec>) -> Seq<ToolSpecModel> {
    specs.map_values(|spec: ProviderToolSpec| spec@)
}

pub(crate) fn duplicate_specs(specs: &Vec<ProviderToolSpec>) -> (copies: Vec<ProviderToolSpec>)
    ensures
        spec_models(copies@) == spec_models(specs@),
{
    let mut copies: Vec<ProviderToolSpec> = Vec::new();
    let count: usize = specs.len();
    for i in 0..count
        invariant
            count == specs@.len(),
            copies@.len() == i,
            forall|j: int| 0 <= j < i ==> (#[trigger] copies@[j])@ == specs@[j]@,
    {
        copies.push(specs[i].clone());
    }
    assert(spec_models(copies@) =~= spec_models(specs@));
    copies
}

/// Whether two lists hold the same tools in the same order.
pub(crate) fn same_specs(
    first: &Vec<ProviderToolSpec>,
    second: &Vec<ProviderToolSpec>,
) -> (same: bool)
    ensures
        same == (spec_models(first@) == spec_models(second@)),
{
    let count: usize = first.len();
    if count != second.len() {
        assert(spec_models(first@).len() != spec_models(second@).len());
        return false;
    }
    for i in 0..count
        invariant
            count == first@.len(),
            count == second@.len(),
            forall|j: int| 0 <= j < i ==> (#[trigger] first@[j])@ == second@[j]@,
    {
        if first[i] != second[i] {
            assert(spec_models(first@)[i as int] != spec_models(second@)[i as int]);
            return false;
        }
    }
    assert(spec_models(first@) =~= spec_models(second@));
    true
}

/// Model of [`ProviderCallIdentity`].
pub struct CallIdentityModel {
    pub invocation_id: Option<Seq<char>>,
    pub result_correlation_id: Option<Seq<char>>,
}

/// How a provider names a call, and how it finds the result again.
#[derive(Debug)]
pub struct ProviderCallIdentity {
    pub(crate) invocation_id: Option<String>,
    pub(crate) result_correlation_id: Option<String>,
}

impl View for ProviderCallIdentity {
    type V = CallIdentityModel;

    open(crate) spec fn view(&self) -> CallIdentityModel {
        CallIdentityModel {
            invocation_id: optional_text(self.invocation_id),
            result_correlation_id: optional_text(self.result_correlation_id),
        }
    }
}

impl ProviderCallIdentity {
    /// An empty invocation id is none.
    pub(crate) fn new(invocation_id: &str) -> (identity: Self)
        ensures
            identity@ == call_identity(invocation_id@),
    {
        Self {
            invocation_id: if invocation_id.is_empty() {
                None
            } else {
                Some(invocation_id.to_owned())
            },
            result_correlation_id: None,
        }
    }

    pub fn invocation_id(&self) -> (text: Option<&str>)
        ensures
            optional_str(text) == self@.invocation_id,
    {
        borrowed_text(&self.invocation_id)
    }

    pub fn result_correlation_id(&self) -> (text: Option<&str>)
        ensures
            optional_str(text) == self@.result_correlation_id,
    {
        borrowed_text(&self.result_correlation_id)
    }
}

impl Clone for ProviderCallIdentity {
    fn clone(&self) -> (copy: Self)
        ensures
            copy@ == self@,
    {
        Self {
            invocation_id: duplicate_text(&self.invocation_id),
            result_correlation_id: duplicate_text(&self.result_correlation_id),
        }
    }
}

impl PartialEq for ProviderCallIdentity {
    fn eq(&self, other: &Self) -> (equal: bool) {
        same_optional_text(&self.invocation_id, &other.invocation_id) && same_optional_text(&self.result_correlation_id, &other.result_correlation_id)
    }
}

impl Eq for ProviderCallIdentity {

}

impl vstd::std_specs::cmp::PartialEqSpecImpl for ProviderCallIdentity {
    open spec fn obeys_eq_spec() -> bool {
        true
    }

    open spec fn eq_spec(&self, other: &Self) -> bool {
        self@ == other@
    }
}

/// The identity of a call with an invocation id; an empty one is none.
pub open spec fn call_identity(invocation_id: Seq<char>) -> CallIdentityModel {
    CallIdentityModel {
        invocation_id: if invocation_id.len() == 0 {
            None
        } else {
            Some(invocation_id)
        },
        result_correlation_id: None,
    }
}

/// Model of [`ProviderToolCall`].
pub struct ToolCallModel {
    pub identity: CallIdentityModel,
    pub name: Seq<char>,
    pub arguments: JsonModel,
}

/// One call of a tool.
#[derive(Debug)]
pub struct ProviderToolCall {
    pub(crate) identity: ProviderCallIdentity,
    pub(crate) name: String,
    pub(crate) arguments: JsonValue,
}

impl View for ProviderToolCall {
    type V = ToolCallModel;

    open(crate) spec fn view(&self) -> ToolCallModel {
        ToolCallModel { identity: self.identity@, name: self.name@, arguments: self.arguments@ }
    }
}

impl ProviderToolCall {
    pub fn new(invocation_id: &str, name: &str, arguments: JsonValue) -> (call: Self)
        ensures
            call@ == (ToolCallModel {
                identity: call_identity(invocation_id@),
                name: name@,
                arguments: arguments@,
            }),
    {
        Self {
            identity: ProviderCallIdentity::new(invocation_id),
            name: name.to_owned(),
            arguments,
        }
    }

    /// The call with the id by which the provider finds its result.
    pub fn with_result_correlation_id(self, id: &str) -> (call: Self)
        ensures
            call@ == (ToolCallModel {
                identity: CallIdentityModel {
                    result_correlation_id: Some(id@),
                    ..self@.identity
                },
                ..self@
            }),
    {
        Self {
            identity: ProviderCallIdentity {
                invocation_id: self.identity.invocation_id,
                result_correlation_id: Some(id.to_owned()),
            },
            name: self.name,
            arguments: self.arguments,
        }
    }

    pub fn invocation_id(&self) -> (text: Option<&str>)
        ensures
            optional_str(text) == self@.identity.invocation_id,
    {
        self.identity.invocation_id()
    }

    pub fn result_correlation_id(&self) -> (text: Option<&str>)
        ensures
            optional_str(text) == self@.identity.result_correlation_id,
    {
        self.identity.result_correlation_id()
    }

    pub fn identity(&self) -> (value: &ProviderCallIdentity)
        ensures
            value@ == self@.identity,
    {
        &self.identity
    }

    pub fn name(&self) -> (text: &str)
        ensures
            text@ == self@.name,
    {
        self.name.as_str()
    }

    pub fn arguments(&self) -> (value: &JsonValue)
        ensures
            value@ == self@.arguments,
    {
        &self.arguments
    }
}

impl Clone for ProviderToolCall {
    fn clone(&self) -> (copy: Self)
        ensures
            copy@ == self@,
    {
        Self {
            identity: self.identity.clone(),
            name: self.name.clone(),
            arguments: self.arguments.clone(),
        }
    }
}

impl PartialEq for ProviderToolCall {
    fn eq(&self, other: &Self) -> (equal: bool) {
        self.identity == other.identity
            && self.name == other.name
            && self.arguments == other.arguments
    }
}

impl Eq for ProviderToolCall {

}

impl vstd::std_specs::cmp::PartialEqSpecImpl for ProviderToolCall {
    open spec fn obeys_eq_spec() -> bool {
        true
    }

    open spec fn eq_spec(&self, other: &Self) -> bool {
        self@ == other@
    }
}

/// Model of [`ProviderToolResponse`].
pub enum ResponseModel {
    Success { content: JsonModel },
    Error { code: Seq<char>, message: Seq<char>, details: Option<JsonModel> },
}

/// What a tool answers to the provider.
#[derive(Debug)]
pub enum ProviderToolResponse {
    Success { content: JsonValue },
    Error { code: String, message: String, details: Option<JsonValue> },
}

/// The model of an optional value.
pub open spec fn optional_json(value: Option<JsonValue>) -> Option<JsonModel> {
    match value {
        Some(value) => Some(value@),
        None => None,
    }
}

impl View for ProviderToolResponse {
    type V = ResponseModel;

    open spec fn view(&self) -> ResponseModel {
        match *self {
            ProviderToolResponse::Success { content } => ResponseModel::Success {
                content: content@,
            },
            ProviderToolResponse::Error { code, message, details } => ResponseModel::Error {
                code: code@,
                message: message@,
                details: optional_json(details),
            },
        }
    }
}

impl ProviderToolResponse {
    pub fn success(content: JsonValue) -> (response: Self)
        ensures
            response@ == (ResponseModel::Success { content: content@ }),
    {
        ProviderToolResponse::Success { content }
    }

    pub fn error(code: &str, message: &str) -> (response: Self)
        ensures
            response@ == (ResponseModel::Error {
                code: code@,
                message: message@,
                details: None,
            }),
    {
        ProviderToolResponse::Error {
            code: code.to_owned(),
            message: message.to_owned(),
            details: None,
        }
    }

    pub fn error_with_details(code: &str, message: &str, details: JsonValue) -> (response: Self)
        ensures
            response@ == (ResponseModel::Error {
                code: code@,
                message: message@,
                details: Some(details@),
            }),
    {
        ProviderToolResponse::Error {
            code: code.to_owned(),
            message: message.to_owned(),
            details: Some(details),
        }
    }

    pub fn is_error(&self) -> (error: bool)
        ensures
            error == (self@ is Error),
    {
        matches!(self, ProviderToolResponse::Error { .. })
    }

    fn equals(&self, other: &Self) -> (equal: bool)
        ensures
            equal == (self@ == other@),
    {
        match (self, other) {
            (
                ProviderToolResponse::Success { content },
                ProviderToolResponse::Success { content: second },
            ) => content.equals(second),
            (
                ProviderToolResponse::Error { code, message, details },
                ProviderToolResponse::Error { code: code2, message: message2, details: details2 },
            ) => *code == *code2 && *message == *message2 && match (details, details2) {
                (Some(details), Some(details2)) => details.equals(details2),
                (None, None) => true,
                _ => false,
            },
            _ => false,
        }
    }
}

impl Clone for ProviderToolResponse {
    fn clone(&self) -> (copy: Self)
        ensures
            copy@ == self@,
    {
        match self {
            ProviderToolResponse::Success { content } => ProviderToolResponse::Success {
                content: content.clone(),
            },
            ProviderToolResponse::Error { code, message, details } => ProviderToolResponse::Error {
                code: code.clone(),
                message: message.clone(),
                details: match details {
                    Some(details) => Some(details.clone()),
                    None => None,
                },
            },
        }
    }
}

impl PartialEq for ProviderToolResponse {
    fn eq(&self, other: &Self) -> (equal: bool) {
        self.equals(other)
    }
}

impl Eq for ProviderToolResponse {

}

impl vstd::std_specs::cmp::PartialEqSpecImpl for ProviderToolResponse {
    open spec fn obeys_eq_spec() -> bool {
        true
    }

    open spec fn eq_spec(&self, other: &Self) -> bool {
        self@ == other@
    }
}

/// Model of [`ProviderToolResult`].
pub struct ToolResultModel {
    pub identity: CallIdentityModel,
    pub name: Seq<char>,
    pub response: ResponseModel,
}

/// The answer to one call.
#[derive(Debug)]
pub struct ProviderToolResult {
    pub(crate) identity: ProviderCallIdentity,
    pub(crate) name: String,
    pub(crate) response: ProviderToolResponse,
}

impl View for ProviderToolResult {
    type V = ToolResultModel;

    open(crate) spec fn view(&self) -> ToolResultModel {
        ToolResultModel { identity: self.identity@, name: self.name@, response: self.response@ }
    }
}

impl ProviderToolResult {
    /// The result of a call carries the identity and the name of the call.
    pub fn new(call: &ProviderToolCall, response: ProviderToolResponse) -> (result: Self)
        ensures
            result@ == (ToolResultModel {
                identity: call@.identity,
                name: call@.name,
                response: response@,
            }),
    {
        Self { identity: call.identity.clone(), name: call.name.clone(), response }
    }

    pub fn invocation_id(&self) -> (text: Option<&str>)
        ensures
            optional_str(text) == self@.identity.invocation_id,
    {
        self.identity.invocation_id()
    }

    pub fn result_correlation_id(&self) -> (text: Option<&str>)
        ensures
            optional_str(text) == self@.identity.result_correlation_id,
    {
        self.identity.result_correlation_id()
    }

    pub fn is_error(&self) -> (error: bool)
        ensures
            error == (self@.response is Error),
    {
        self.response.is_error()
    }

    pub fn identity(&self) -> (value: &ProviderCallIdentity)
        ensures
            value@ == self@.identity,
    {
        &self.identity
    }

    pub fn name(&self) -> (text: &str)
        ensures
            text@ == self@.name,
    {
        self.name.as_str()
    }

    pub fn response(&self) -> (value: &ProviderToolResponse)
        ensures
            value@ == self@.response,
    {
        &self.response
    }
}

impl Clone for ProviderToolResult {
    fn clone(&self) -> (copy: Self)
        ensures
            copy@ == self@,
    {
        Self {
            identity: self.identity.clone(),
            name: self.name.clone(),
            response: self.response.clone(),
        }
    }
}

impl PartialEq for ProviderToolResult {
    fn eq(&self, other: &Self) -> (equal: bool) {
        self.identity == other.identity
            && self.name == other.name
            && self.response == other.response
    }
}

impl Eq for ProviderToolResult {

}

impl vstd::std_specs::cmp::PartialEqSpecImpl for ProviderToolResult {
    open spec fn obeys_eq_spec() -> bool {
        true
    }

    open spec fn eq_spec(&self, other: &Self) -> bool {
        self@ == other@
    }
}

/// The models of several results.
pub open spec fn result_models(results: Seq<ProviderToolResult>) -> Seq<ToolResultModel> {
    results.map_values(|result: ProviderToolResult| result@)
}

pub(crate) fn duplicate_results(
    results: &Vec<ProviderToolResult>,
) -> (copies: Vec<ProviderToolResult>)
    ensures
        result_models(copies@) == result_models(results@),
{
    let mut copies: Vec<ProviderToolResult> = Vec::new();
    let count: usize = results.len();
    for i in 0..count
        invariant
            count == results@.len(),
            copies@.len() == i,
            forall|j: int| 0 <= j < i ==> (#[trigger] copies@[j])@ == results@[j]@,
    {
        copies.push(results[i].clone());
    }
    assert(result_models(copies@) =~= result_models(results@));
    copies
}

} // verus!
