//! Replies of a control surface.

use vstd::prelude::*;
use crate::json::{JsonModel, JsonValue};

verus! {

/// Model of [`ControlReply`].
pub enum ReplyModel {
    Text(Seq<char>),
    Structured(JsonModel),
}

/// What a control surface answers: text, or a structured value.
#[derive(Debug)]
pub enum ControlReply {
    Text(String),
    Structured(JsonValue),
}

impl View for ControlReply {
    type V = ReplyModel;

    open spec fn view(&self) -> ReplyModel {
        match *self {
            ControlReply::Text(text) => ReplyModel::Text(text@),
            ControlReply::Structured(value) => ReplyModel::Structured(value@),
        }
    }
}

impl ControlReply {
    pub fn text(text: &str) -> (reply: Self)
        ensures
            reply@ == ReplyModel::Text(text@),
    {
        ControlReply::Text(text.to_owned())
    }

    pub fn structured(value: JsonValue) -> (reply: Self)
        ensures
            reply@ == ReplyModel::Structured(value@),
    {
        ControlReply::Structured(value)
    }

    /// The structured value, if the reply is one.
    pub fn as_structured(&self) -> (value: Option<&JsonValue>)
        ensures
            match value {
                Some(value) => self@ == ReplyModel::Structured(value@),
                None => self@ is Text,
            },
    {
        match self {
            ControlReply::Structured(value) => Some(value),
            ControlReply::Text(_) => None,
        }
    }

    fn equals(&self, other: &Self) -> (equal: bool)
        ensures
            equal == (self@ == other@),
    {
        match (self, other) {
            (ControlReply::Text(text), ControlReply::Text(second)) => *text == *second,
            (ControlReply::Structured(value), ControlReply::Structured(second)) => value.equals(
                second,
            ),
            _ => false,
        }
    }
}

impl Clone for ControlReply {
    fn clone(&self) -> (copy: Self)
        ensures
            copy@ == self@,
    {
        match self {
            ControlReply::Text(text) => ControlReply::Text(text.clone()),
            ControlReply::Structured(value) => ControlReply::Structured(value.clone()),
        }
    }
}

impl PartialEq for ControlReply {
    fn eq(&self, other: &Self) -> (equal: bool) {
        self.equals(other)
    }
}

impl Eq for ControlReply {

}

impl vstd::std_specs::cmp::PartialEqSpecImpl for ControlReply {
    open spec fn obeys_eq_spec() -> bool {
        true
    }

    open spec fn eq_spec(&self, other: &Self) -> bool {
        self@ == other@
    }
}

} // verus!
