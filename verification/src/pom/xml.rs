use vstd::prelude::*;
use crate::pom::error::PomError;
use crate::pom::children::MixedChildren;
use crate::pom::content::{ContentEdge, ContentNode, MixedContent};
use crate::pom::diff_slot::DiffSlot;
use crate::pom::model::{
    attributes_equiv, empty_xml, is_name_part, is_name_start, is_xml_name, metadata_equiv,
    push_normalized, well_formed_attributes, well_formed_xml, xml_equiv, AttributeModel, EdgeModel,
    MetadataModel, SlotModel, XmlModel,
};

verus! {

/// A valid XML name.
#[derive(Debug)]
pub struct XmlName {
    pub(crate) value: String,
}

impl View for XmlName {
    type V = Seq<char>;

    open(crate) spec fn view(&self) -> Seq<char> {
        self.value@
    }
}

impl XmlName {
    #[verifier::type_invariant]
    pub(crate) open(crate) spec fn inv(self) -> bool {
        is_xml_name(self.value@)
    }

    pub fn new(value: &str) -> (result: Result<Self, PomError>)
        ensures
            match result {
                Ok(name) => is_xml_name(value@) && name@ == value@,
                Err(PomError::InvalidXmlName { value: rejected }) => !is_xml_name(value@)
                    && rejected@ == value@,
                Err(_) => false,
            },
    {
        let mut valid = true;
        let mut first = true;
        for c in chars: value.chars()
            invariant
                first == (chars.index() == 0),
                valid == forall|i: int|
                    0 <= i < chars.index() ==> is_name_part(#[trigger] value@[i]) && (i == 0
                        ==> is_name_start(value@[i])),
                chars.seq() == value@,
        {
            let starts = (c >= 'a' && c <= 'z') || (c >= 'A' && c <= 'Z') || c == '_';
            let part = starts || (c >= '0' && c <= '9') || c == '-' || c == '.';
            if !part || (first && !starts) {
                valid = false;
            }
            first = false;
        }
        if valid && !first {
            Ok(Self { value: value.to_owned() })
        } else {
            Err(PomError::InvalidXmlName { value: value.to_owned() })
        }
    }

    /// Same as [`XmlName::new`].
    pub fn try_from(value: &str) -> (result: Result<Self, PomError>)
        ensures
            match result {
                Ok(name) => is_xml_name(value@) && name@ == value@,
                Err(PomError::InvalidXmlName { value: rejected }) => !is_xml_name(value@)
                    && rejected@ == value@,
                Err(_) => false,
            },
    {
        Self::new(value)
    }

    pub fn as_str(&self) -> (value: &str)
        ensures
            value@ == self@,
            is_xml_name(self@),
    {
        proof {
            use_type_invariant(self);
        }
        self.value.as_str()
    }
}

impl PartialEq for XmlName {
    fn eq(&self, other: &Self) -> (equal: bool) {
        self.value == other.value
    }
}

impl Eq for XmlName {

}

impl vstd::std_specs::cmp::PartialEqSpecImpl for XmlName {
    open spec fn obeys_eq_spec() -> bool {
        true
    }

    open spec fn eq_spec(&self, other: &Self) -> bool {
        self@ == other@
    }
}

impl Clone for XmlName {
    fn clone(&self) -> (copy: Self)
        ensures
            copy@ == self@,
    {
        proof {
            use_type_invariant(self);
        }
        Self { value: self.value.clone() }
    }
}

/// One attribute of an XML node.
#[derive(Debug)]
pub struct XmlAttribute {
    pub(crate) name: XmlName,
    pub(crate) value: String,
}

impl View for XmlAttribute {
    type V = AttributeModel;

    open(crate) spec fn view(&self) -> AttributeModel {
        AttributeModel { name: self.name@, value: self.value@ }
    }
}

impl XmlAttribute {
    pub fn new(name: XmlName, value: &str) -> (attribute: Self)
        ensures
            attribute@ == (AttributeModel { name: name@, value: value@ }),
    {
        Self { name, value: value.to_owned() }
    }

    pub fn name(&self) -> (name: &XmlName)
        ensures
            name@ == self@.name,
    {
        &self.name
    }

    pub fn value(&self) -> (value: &str)
        ensures
            value@ == self@.value,
    {
        self.value.as_str()
    }
}

impl Clone for XmlAttribute {
    fn clone(&self) -> (copy: Self)
        ensures
            copy@ == self@,
    {
        Self { name: self.name.clone(), value: self.value.clone() }
    }
}

impl PartialEq for XmlAttribute {
    fn eq(&self, other: &Self) -> (equal: bool) {
        self.name == other.name && self.value == other.value
    }
}

impl Eq for XmlAttribute {

}

impl vstd::std_specs::cmp::PartialEqSpecImpl for XmlAttribute {
    open spec fn obeys_eq_spec() -> bool {
        true
    }

    open spec fn eq_spec(&self, other: &Self) -> bool {
        self@ == other@
    }
}

/// The attributes of an XML node, in the order in which they were given.
///
/// Two attribute lists are equal when they hold the same attributes, in
/// whatever order.
#[derive(Debug)]
pub struct XmlAttributes(pub(crate) Vec<XmlAttribute>);

impl View for XmlAttributes {
    type V = Seq<AttributeModel>;

    open(crate) spec fn view(&self) -> Seq<AttributeModel> {
        self.0@.map_values(|attribute: XmlAttribute| attribute@)
    }
}

/// Whether an attribute of this name is present.
pub open spec fn has_attribute(attributes: Seq<AttributeModel>, name: Seq<char>) -> bool {
    exists|i: int| 0 <= i < attributes.len() && (#[trigger] attributes[i]).name == name
}

/// The value of the attribute of this name.
pub open spec fn attribute_value(attributes: Seq<AttributeModel>, name: Seq<char>) -> Seq<char> {
    let i = choose|i: int| 0 <= i < attributes.len() && (#[trigger] attributes[i]).name == name;
    attributes[i].value
}

impl XmlAttributes {
    #[verifier::type_invariant]
    pub(crate) open(crate) spec fn inv(self) -> bool {
        well_formed_attributes(self@)
    }

    pub fn new() -> (attributes: Self)
        ensures
            attributes@ == Seq::<AttributeModel>::empty(),
    {
        let attributes = Self(Vec::new());
        assert(attributes@ =~= Seq::<AttributeModel>::empty());
        attributes
    }

    /// Adds an attribute behind the others, unless its name is taken.
    pub fn insert(&mut self, name: XmlName, value: &str) -> (result: Result<(), PomError>)
        ensures
            match result {
                Ok(_) => !has_attribute(old(self)@, name@) && final(self)@ == old(self)@.push(
                    AttributeModel { name: name@, value: value@ },
                ),
                Err(PomError::DuplicateXmlAttribute { name: taken }) => taken@ == name@
                    && has_attribute(old(self)@, name@) && final(self)@ == old(self)@,
                Err(_) => false,
            },
    {
        proof {
            use_type_invariant(&*self);
            use_type_invariant(&name);
        }
        if self.get(&name).is_some() {
            return Err(PomError::DuplicateXmlAttribute { name });
        }
        let ghost before = self@;
        let ghost added = AttributeModel { name: name@, value: value@ };
        let mut attributes: Vec<XmlAttribute> = Vec::new();
        std::mem::swap(&mut attributes, &mut self.0);
        attributes.push(XmlAttribute::new(name, value));
        assert(attributes@.map_values(|attribute: XmlAttribute| attribute@) =~= before.push(added));
        self.0 = attributes;
        Ok(())
    }

    /// Adds an attribute whose name is still to be checked.
    pub fn try_insert(&mut self, name: &str, value: &str) -> (result: Result<(), PomError>)
        ensures
            match result {
                Ok(_) => is_xml_name(name@) && !has_attribute(old(self)@, name@) && final(self)@
                    == old(self)@.push(AttributeModel { name: name@, value: value@ }),
                Err(PomError::InvalidXmlName { value: rejected }) => rejected@ == name@
                    && !is_xml_name(name@) && final(self)@ == old(self)@,
                Err(PomError::DuplicateXmlAttribute { name: taken }) => taken@ == name@
                    && is_xml_name(name@) && has_attribute(old(self)@, name@) && final(self)@
                    == old(self)@,
                Err(_) => false,
            },
    {
        match XmlName::new(name) {
            Ok(name) => self.insert(name, value),
            Err(error) => Err(error),
        }
    }

    pub fn get(&self, name: &XmlName) -> (attribute: Option<&XmlAttribute>)
        ensures
            match attribute {
                Some(attribute) => has_attribute(self@, name@) && self@.contains(attribute@)
                    && attribute@.name == name@ && attribute@.value == attribute_value(
                    self@,
                    name@,
                ),
                None => !has_attribute(self@, name@),
            },
    {
        proof {
            use_type_invariant(self);
        }
        for i in 0..self.0.len()
            invariant
                well_formed_attributes(self@),
                forall|j: int| 0 <= j < i ==> (#[trigger] self@[j]).name != name@,
        {
            if self.0[i].name == *name {
                assert(self@[i as int].name == name@);
                return Some(&self.0[i]);
            }
            assert(self@[i as int].name != name@);
        }
        None
    }

    pub fn as_slice(&self) -> (attributes: &[XmlAttribute])
        ensures
            attributes@.map_values(|attribute: XmlAttribute| attribute@) == self@,
    {
        self.0.as_slice()
    }

    pub fn len(&self) -> (len: usize)
        ensures
            len == self@.len(),
    {
        self.0.len()
    }

    pub fn is_empty(&self) -> (empty: bool)
        ensures
            empty == (self@.len() == 0),
    {
        self.0.is_empty()
    }

    fn equals(&self, other: &Self) -> (equal: bool)
        ensures
            equal == attributes_equiv(self@, other@),
    {
        proof {
            use_type_invariant(self);
            use_type_invariant(other);
        }
        if self.0.len() != other.0.len() {
            return false;
        }
        for i in 0..self.0.len()
            invariant
                self@.len() == other@.len(),
                well_formed_attributes(other@),
                forall|j: int| 0 <= j < i ==> other@.contains(#[trigger] self@[j]),
        {
            let attribute = &self.0[i];
            match other.get(&attribute.name) {
                Some(found) => {
                    if found.value != attribute.value {
                        proof {
                            if other@.contains(self@[i as int]) {
                                let k = choose|k: int|
                                    0 <= k < other@.len() && other@[k] == self@[i as int];
                                assert(other@[k].name == found@.name);
                            }
                        }
                        return false;
                    }
                    assert(found@ == self@[i as int]);
                },
                None => {
                    assert(!other@.contains(self@[i as int]));
                    return false;
                },
            }
        }
        true
    }
}

impl Default for XmlAttributes {
    fn default() -> (attributes: Self)
        ensures
            attributes@ == Seq::<AttributeModel>::empty(),
    {
        Self::new()
    }
}

impl Clone for XmlAttributes {
    fn clone(&self) -> (copy: Self)
        ensures
            copy@ == self@,
    {
        proof {
            use_type_invariant(self);
        }
        let mut attributes: Vec<XmlAttribute> = Vec::new();
        for i in 0..self.0.len()
            invariant
                attributes@.len() == i,
                forall|j: int| 0 <= j < i ==> (#[trigger] attributes@[j])@ == self.0@[j]@,
        {
            attributes.push(self.0[i].clone());
        }
        assert(attributes@.map_values(|attribute: XmlAttribute| attribute@) =~= self@);
        Self(attributes)
    }
}

impl PartialEq for XmlAttributes {
    fn eq(&self, other: &Self) -> (equal: bool) {
        self.equals(other)
    }
}

impl Eq for XmlAttributes {

}

impl vstd::std_specs::cmp::PartialEqSpecImpl for XmlAttributes {
    open spec fn obeys_eq_spec() -> bool {
        true
    }

    open spec fn eq_spec(&self, other: &Self) -> bool {
        attributes_equiv(self@, other@)
    }
}

/// What an XML node knows about its role inside a collection.
#[derive(Debug)]
pub(crate) struct XmlMetadata {
    pub(crate) is_map: bool,
    pub(crate) identity: Option<Box<ContentNode>>,
}

impl View for XmlMetadata {
    type V = MetadataModel;

    open(crate) spec fn view(&self) -> MetadataModel {
        self.model()
    }
}

impl XmlMetadata {
    pub(crate) open(crate) spec fn model(&self) -> MetadataModel
        decreases self,
    {
        MetadataModel {
            is_map: self.is_map,
            identity: match self.identity {
                Some(identity) => Some(Box::new((*identity).model())),
                None => None,
            },
        }
    }
}

impl XmlMetadata {
    fn duplicate(&self) -> (copy: Self)
        ensures
            copy@ == self@,
        decreases self,
    {
        let identity = match &self.identity {
            Some(identity) => Some(Box::new((&**identity).duplicate())),
            None => None,
        };
        Self { is_map: self.is_map, identity }
    }

    pub(crate) fn equals(&self, other: &Self) -> (equal: bool)
        ensures
            equal == metadata_equiv(self@, other@),
        decreases self,
    {
        let same_identity = match (&self.identity, &other.identity) {
            (Some(a), Some(b)) => (&**a).equals(&**b),
            (None, None) => true,
            _ => false,
        };
        self.is_map == other.is_map && same_identity
    }
}

/// One XML node.
#[derive(Debug)]
pub struct XmlNode {
    pub(crate) name: XmlName,
    pub(crate) attributes: XmlAttributes,
    pub(crate) children: MixedChildren,
    pub(crate) metadata: XmlMetadata,
}

impl View for XmlNode {
    type V = XmlModel;

    open(crate) spec fn view(&self) -> XmlModel {
        self.model()
    }
}

impl XmlNode {
    pub(crate) open(crate) spec fn model(&self) -> XmlModel
        decreases self,
    {
        XmlModel {
            name: self.name.view(),
            attributes: self.attributes.view(),
            children: self.children.model(),
            metadata: self.metadata.model(),
        }
    }
}

/// The slots among a node's children, in their order.
pub open spec fn child_slots(children: Seq<EdgeModel>) -> Seq<SlotModel>
    decreases children.len(),
{
    if children.len() == 0 {
        Seq::empty()
    } else {
        let before = child_slots(children.drop_last());
        match children.last() {
            EdgeModel::Slot(slot) => before.push(slot),
            EdgeModel::Node(_) => before,
        }
    }
}

impl XmlNode {
    #[verifier::type_invariant]
    pub(crate) open(crate) spec fn inv(self) -> bool {
        well_formed_xml(self@)
    }

    pub fn new(name: XmlName) -> (node: Self)
        ensures
            node@ == empty_xml(name@),
    {
        proof {
            use_type_invariant(&name);
        }
        Self {
            name,
            attributes: XmlAttributes::new(),
            children: MixedChildren::new(),
            metadata: XmlMetadata { is_map: false, identity: None },
        }
    }

    pub fn name(&self) -> (name: &XmlName)
        ensures
            name@ == self@.name,
    {
        &self.name
    }

    pub fn attributes(&self) -> (attributes: &XmlAttributes)
        ensures
            attributes@ == self@.attributes,
    {
        &self.attributes
    }

    pub fn children(&self) -> (children: &MixedChildren)
        ensures
            children@ == self@.children,
    {
        &self.children
    }

    /// Adds an attribute behind the others, unless its name is taken.
    pub fn push_attribute(&mut self, name: XmlName, value: &str) -> (result: Result<(), PomError>)
        ensures
            match result {
                Ok(_) => !has_attribute(old(self)@.attributes, name@) && final(self)@ == (XmlModel {
                    attributes: old(self)@.attributes.push(
                        AttributeModel { name: name@, value: value@ },
                    ),
                    ..old(self)@
                }),
                Err(PomError::DuplicateXmlAttribute { name: taken }) => taken@ == name@
                    && has_attribute(old(self)@.attributes, name@) && final(self)@ == old(self)@,
                Err(_) => false,
            },
    {
        proof {
            use_type_invariant(&*self);
        }
        let mut attributes = XmlAttributes::new();
        std::mem::swap(&mut attributes, &mut self.attributes);
        let result = attributes.insert(name, value);
        proof {
            use_type_invariant(&attributes);
        }
        self.attributes = attributes;
        result
    }

    /// Adds a child behind the others, with text joined to text.
    pub fn push(&mut self, content: MixedContent)
        ensures
            final(self)@ == (XmlModel {
                children: push_normalized(old(self)@.children, content@),
                ..old(self)@
            }),
    {
        proof {
            use_type_invariant(&*self);
        }
        let mut children = MixedChildren::new();
        std::mem::swap(&mut children, &mut self.children);
        children.push(content);
        proof {
            use_type_invariant(&children);
        }
        self.children = children;
    }

    /// The same node with other children.
    pub(crate) fn with_children(self, children: MixedChildren) -> (node: Self)
        ensures
            node@ == (XmlModel { children: children@, ..self@ }),
    {
        proof {
            use_type_invariant(&self);
            use_type_invariant(&children);
        }
        Self {
            name: self.name,
            attributes: self.attributes,
            children,
            metadata: self.metadata,
        }
    }

    /// The same node, marked as a map whose entries carry their identity.
    pub fn into_map(self) -> (node: Self)
        ensures
            node@ == (XmlModel {
                metadata: MetadataModel { is_map: true, ..self@.metadata },
                ..self@
            }),
    {
        proof {
            use_type_invariant(&self);
        }
        Self {
            name: self.name,
            attributes: self.attributes,
            children: self.children,
            metadata: XmlMetadata { is_map: true, identity: self.metadata.identity },
        }
    }

    /// The same node, carrying the identity by which a map finds it again.
    pub fn with_identity(self, identity: ContentNode) -> (node: Self)
        ensures
            node@ == (XmlModel {
                metadata: MetadataModel {
                    identity: Some(Box::new(identity@)),
                    ..self@.metadata
                },
                ..self@
            }),
    {
        identity.assure();
        proof {
            use_type_invariant(&self);
        }
        Self {
            name: self.name,
            attributes: self.attributes,
            children: self.children,
            metadata: XmlMetadata {
                is_map: self.metadata.is_map,
                identity: Some(Box::new(identity)),
            },
        }
    }

    pub fn is_map(&self) -> (is_map: bool)
        ensures
            is_map == self@.metadata.is_map,
    {
        self.metadata.is_map
    }

    pub fn identity(&self) -> (identity: Option<&ContentNode>)
        ensures
            match identity {
                Some(identity) => self@.metadata.identity == Some(Box::new(identity@)),
                None => self@.metadata.identity is None,
            },
    {
        match &self.metadata.identity {
            Some(identity) => Some(&**identity),
            None => None,
        }
    }

    pub(crate) fn metadata(&self) -> (metadata: &XmlMetadata)
        ensures
            metadata@ == self@.metadata,
    {
        &self.metadata
    }

    /// The slots among the children, in their order.
    pub fn diff_slots(&self) -> (slots: Vec<&DiffSlot>)
        ensures
            slots@.len() == child_slots(self@.children).len(),
            forall|i: int|
                0 <= i < slots@.len() ==> (#[trigger] slots@[i])@ == child_slots(
                    self@.children,
                )[i],
    {
        let mut slots: Vec<&DiffSlot> = Vec::new();
        let ghost children = self@.children;
        for i in 0..self.children.0.len()
            invariant
                children == self@.children,
                slots@.len() == child_slots(children.take(i as int)).len(),
                forall|j: int|
                    0 <= j < slots@.len() ==> (#[trigger] slots@[j])@ == child_slots(
                        children.take(i as int),
                    )[j],
        {
            assert(children.take(i as int + 1).drop_last() =~= children.take(i as int));
            assert(children.take(i as int + 1).last() == self.children.0@[i as int]@);
            match &self.children.0[i].0 {
                ContentEdge::Diff(slot) => {
                    slots.push(slot);
                },
                ContentEdge::Node(_) => {},
            }
        }
        assert(children.take(children.len() as int) =~= children);
        slots
    }

    pub(crate) fn duplicate(&self) -> (copy: Self)
        ensures
            copy@ == self@,
        decreases self,
    {
        proof {
            use_type_invariant(self);
        }
        Self {
            name: self.name.clone(),
            attributes: self.attributes.clone(),
            children: self.children.duplicate(),
            metadata: self.metadata.duplicate(),
        }
    }

    pub(crate) fn equals(&self, other: &Self) -> (equal: bool)
        ensures
            equal == xml_equiv(self@, other@),
        decreases self,
    {
        self.name == other.name && self.attributes == other.attributes && self.metadata.equals(
            &other.metadata,
        ) && self.children.equals(&other.children)
    }
}

impl Clone for XmlNode {
    fn clone(&self) -> (copy: Self)
        ensures
            copy@ == self@,
    {
        self.duplicate()
    }
}

impl PartialEq for XmlNode {
    fn eq(&self, other: &Self) -> (equal: bool) {
        self.equals(other)
    }
}

impl Eq for XmlNode {

}

impl vstd::std_specs::cmp::PartialEqSpecImpl for XmlNode {
    open spec fn obeys_eq_spec() -> bool {
        true
    }

    open spec fn eq_spec(&self, other: &Self) -> bool {
        xml_equiv(self@, other@)
    }
}

} // verus!
