use vstd::prelude::*;
use crate::pom::children::BlockChildren;
use crate::pom::content::BlockContent;
use crate::pom::model::{edges_equiv, slot_free, xml_edge, EdgeModel, NodeModel};
use crate::pom::text::RawTextNode;
use crate::pom::xml::XmlNode;

verus! {

/// A complete, unresolved prompt document.
#[derive(Debug)]
pub struct Document {
    pub(crate) children: BlockChildren,
}

impl View for Document {
    type V = Seq<EdgeModel>;

    open(crate) spec fn view(&self) -> Seq<EdgeModel> {
        self.children@
    }
}

impl Document {
    pub fn new(children: BlockChildren) -> (document: Self)
        ensures
            document@ == children@,
    {
        Self { children }
    }

    pub fn children(&self) -> (children: &BlockChildren)
        ensures
            children@ == self@,
    {
        &self.children
    }

    pub fn into_children(self) -> (children: BlockChildren)
        ensures
            children@ == self@,
    {
        self.children
    }

    pub fn from_xml(node: XmlNode) -> (document: Self)
        ensures
            document@ == seq![xml_edge(node@)],
    {
        let mut children = BlockChildren::new();
        children.push(BlockContent::xml(node));
        assert(children@ =~= seq![xml_edge(node@)]);
        Self { children }
    }

    pub fn from_raw_text(value: &str) -> (document: Self)
        ensures
            document@ == seq![EdgeModel::Node(NodeModel::RawText(value@))],
    {
        let mut children = BlockChildren::new();
        children.push(BlockContent::raw_text(RawTextNode::new(value)));
        assert(children@ =~= seq![EdgeModel::Node(NodeModel::RawText(value@))]);
        Self { children }
    }
}

impl Clone for Document {
    fn clone(&self) -> (copy: Self)
        ensures
            copy@ == self@,
    {
        Self { children: self.children.clone() }
    }
}

impl PartialEq for Document {
    fn eq(&self, other: &Self) -> (equal: bool) {
        self.children.equals(&other.children)
    }
}

impl Eq for Document {

}

impl vstd::std_specs::cmp::PartialEqSpecImpl for Document {
    open spec fn obeys_eq_spec() -> bool {
        true
    }

    open spec fn eq_spec(&self, other: &Self) -> bool {
        edges_equiv(self@, other@)
    }
}

/// A complete prompt document with every diff slot resolved.
///
/// Resolved documents can only be produced by the system, user, or artifact
/// resolution boundaries. This keeps callers from accidentally treating an
/// unresolved [`Document`] as a complete prompt.
#[derive(Debug)]
pub struct ResolvedDocument {
    pub(crate) children: BlockChildren,
}

impl View for ResolvedDocument {
    type V = Seq<EdgeModel>;

    open(crate) spec fn view(&self) -> Seq<EdgeModel> {
        self.children@
    }
}

impl ResolvedDocument {
    #[verifier::type_invariant]
    pub(crate) open(crate) spec fn inv(self) -> bool {
        slot_free(self.children@)
    }

    pub(crate) fn new(children: BlockChildren) -> (document: Self)
        requires
            slot_free(children@),
        ensures
            document@ == children@,
    {
        Self { children }
    }

    pub fn children(&self) -> (children: &BlockChildren)
        ensures
            children@ == self@,
            slot_free(self@),
    {
        proof {
            use_type_invariant(self);
        }
        &self.children
    }
}

impl Clone for ResolvedDocument {
    fn clone(&self) -> (copy: Self)
        ensures
            copy@ == self@,
    {
        proof {
            use_type_invariant(self);
        }
        Self { children: self.children.clone() }
    }
}

impl PartialEq for ResolvedDocument {
    fn eq(&self, other: &Self) -> (equal: bool) {
        self.children.equals(&other.children)
    }
}

impl Eq for ResolvedDocument {

}

impl vstd::std_specs::cmp::PartialEqSpecImpl for ResolvedDocument {
    open spec fn obeys_eq_spec() -> bool {
        true
    }

    open spec fn eq_spec(&self, other: &Self) -> bool {
        edges_equiv(self@, other@)
    }
}

} // verus!
