use vstd::prelude::*;
use crate::pom::diff_slot::DiffSlot;
use crate::pom::error::PomError;
use crate::pom::markdown::{
    CodeBlockNode, CodeSpanNode, HeadingNode, ListNode, MarkdownNode, ParagraphNode, StrongNode,
};
use crate::pom::model::{
    edge_equiv, is_block_markdown, is_block_node, is_inline_node, markdown_edge, node_equiv,
    single_line, text_edge, well_formed_edge, well_formed_node, xml_edge, EdgeModel, MarkdownModel,
    NodeModel,
};
use crate::pom::text::{RawTextNode, TextNode};
use crate::pom::xml::XmlNode;

verus! {

/// Where a piece of content was meant to stand.
#[derive(Debug, Clone, Copy, PartialEq, Eq, Structural)]
pub enum ContentContext {
    Block,
    Inline,
    Mixed,
}

/// The kind of a Markdown node.
#[derive(Debug, Clone, Copy, PartialEq, Eq, Structural)]
pub enum MarkdownKind {
    Heading,
    Paragraph,
    List,
    CodeBlock,
    ThematicBreak,
    Strong,
    CodeSpan,
}

/// The kind of a content node.
#[derive(Debug, Clone, Copy, PartialEq, Eq, Structural)]
pub enum ContentKind {
    Markdown(MarkdownKind),
    Xml,
    Text,
    RawText,
}

/// The kind of a modelled Markdown node.
pub open spec fn markdown_kind(node: MarkdownModel) -> MarkdownKind {
    match node {
        MarkdownModel::Heading { .. } => MarkdownKind::Heading,
        MarkdownModel::Paragraph { .. } => MarkdownKind::Paragraph,
        MarkdownModel::List { .. } => MarkdownKind::List,
        MarkdownModel::CodeBlock { .. } => MarkdownKind::CodeBlock,
        MarkdownModel::ThematicBreak => MarkdownKind::ThematicBreak,
        MarkdownModel::Strong { .. } => MarkdownKind::Strong,
        MarkdownModel::CodeSpan { .. } => MarkdownKind::CodeSpan,
    }
}

/// The kind of a modelled content node.
pub open spec fn content_kind(node: NodeModel) -> ContentKind {
    match node {
        NodeModel::Markdown(node) => ContentKind::Markdown(markdown_kind(node)),
        NodeModel::Xml(_) => ContentKind::Xml,
        NodeModel::Text(_) => ContentKind::Text,
        NodeModel::RawText(_) => ContentKind::RawText,
    }
}

/// One node of a document.
#[derive(Debug)]
pub enum ContentNode {
    Markdown(MarkdownNode),
    Xml(XmlNode),
    Text(TextNode),
    RawText(RawTextNode),
}

impl View for ContentNode {
    type V = NodeModel;

    open(crate) spec fn view(&self) -> NodeModel {
        self.model()
    }
}

impl ContentNode {
    pub(crate) open(crate) spec fn model(&self) -> NodeModel
        decreases self,
    {
        match self {
            ContentNode::Markdown(node) => NodeModel::Markdown(node.model()),
            ContentNode::Xml(node) => NodeModel::Xml(node.model()),
            ContentNode::Text(node) => NodeModel::Text(node.view()),
            ContentNode::RawText(node) => NodeModel::RawText(node.view()),
        }
    }
}

impl ContentNode {
    pub fn kind(&self) -> (kind: ContentKind)
        ensures
            kind == content_kind(self@),
    {
        match self {
            ContentNode::Markdown(node) => ContentKind::Markdown(node.kind()),
            ContentNode::Xml(_) => ContentKind::Xml,
            ContentNode::Text(_) => ContentKind::Text,
            ContentNode::RawText(_) => ContentKind::RawText,
        }
    }

    /// Every node is well formed: its parts keep their invariants.
    pub(crate) fn assure(&self)
        ensures
            well_formed_node(self@),
    {
        match self {
            ContentNode::Markdown(node) => node.assure(),
            ContentNode::Xml(node) => proof {
                use_type_invariant(node);
            },
            ContentNode::Text(_) => {},
            ContentNode::RawText(_) => {},
        }
    }

    pub(crate) fn duplicate(&self) -> (copy: Self)
        ensures
            copy@ == self@,
        decreases self,
    {
        match self {
            ContentNode::Markdown(node) => ContentNode::Markdown(node.duplicate()),
            ContentNode::Xml(node) => ContentNode::Xml(node.duplicate()),
            ContentNode::Text(node) => ContentNode::Text(node.clone()),
            ContentNode::RawText(node) => ContentNode::RawText(node.clone()),
        }
    }

    pub(crate) fn equals(&self, other: &Self) -> (equal: bool)
        ensures
            equal == node_equiv(self@, other@),
        decreases self,
    {
        match (self, other) {
            (ContentNode::Markdown(a), ContentNode::Markdown(b)) => a.equals(b),
            (ContentNode::Xml(a), ContentNode::Xml(b)) => a.equals(b),
            (ContentNode::Text(a), ContentNode::Text(b)) => a.value == b.value,
            (ContentNode::RawText(a), ContentNode::RawText(b)) => a.value == b.value,
            _ => false,
        }
    }
}

impl Clone for ContentNode {
    fn clone(&self) -> (copy: Self)
        ensures
            copy@ == self@,
    {
        self.duplicate()
    }
}

impl PartialEq for ContentNode {
    fn eq(&self, other: &Self) -> (equal: bool) {
        self.equals(other)
    }
}

impl Eq for ContentNode {

}

impl vstd::std_specs::cmp::PartialEqSpecImpl for ContentNode {
    open spec fn obeys_eq_spec() -> bool {
        true
    }

    open spec fn eq_spec(&self, other: &Self) -> bool {
        node_equiv(self@, other@)
    }
}

/// One child position: a node, or a slot that is resolved later.
#[derive(Debug)]
pub(crate) enum ContentEdge {
    Node(ContentNode),
    Diff(DiffSlot),
}

impl View for ContentEdge {
    type V = EdgeModel;

    open(crate) spec fn view(&self) -> EdgeModel {
        self.model()
    }
}

impl ContentEdge {
    pub(crate) open(crate) spec fn model(&self) -> EdgeModel
        decreases self,
    {
        match self {
            ContentEdge::Node(node) => EdgeModel::Node(node.model()),
            ContentEdge::Diff(slot) => EdgeModel::Slot(slot.model()),
        }
    }
}

/// Borrowed access to one child position.
#[derive(Debug, Clone, Copy)]
pub enum ContentRef<'a> {
    Node(&'a ContentNode),
    DiffSlot(&'a DiffSlot),
}

impl<'a> View for ContentRef<'a> {
    type V = EdgeModel;

    open spec fn view(&self) -> EdgeModel {
        match self {
            ContentRef::Node(node) => EdgeModel::Node(node@),
            ContentRef::DiffSlot(slot) => EdgeModel::Slot(slot@),
        }
    }
}

impl ContentEdge {
    pub(crate) fn as_ref(&self) -> (content: ContentRef<'_>)
        ensures
            content@ == self@,
    {
        match self {
            ContentEdge::Node(node) => ContentRef::Node(node),
            ContentEdge::Diff(slot) => ContentRef::DiffSlot(slot),
        }
    }

    pub(crate) fn assure(&self)
        ensures
            well_formed_edge(self@),
    {
        match self {
            ContentEdge::Node(node) => node.assure(),
            ContentEdge::Diff(slot) => proof {
                use_type_invariant(slot);
            },
        }
    }

    pub(crate) fn duplicate(&self) -> (copy: Self)
        ensures
            copy@ == self@,
        decreases self,
    {
        match self {
            ContentEdge::Node(node) => ContentEdge::Node(node.duplicate()),
            ContentEdge::Diff(slot) => ContentEdge::Diff(slot.duplicate()),
        }
    }

    pub(crate) fn equals(&self, other: &Self) -> (equal: bool)
        ensures
            equal == edge_equiv(self@, other@),
        decreases self,
    {
        match (self, other) {
            (ContentEdge::Node(a), ContentEdge::Node(b)) => a.equals(b),
            (ContentEdge::Diff(a), ContentEdge::Diff(b)) => a.equals(b),
            _ => false,
        }
    }
}

/// Content that may stand in a block list.
#[derive(Debug)]
pub struct BlockContent(pub(crate) ContentEdge);

impl View for BlockContent {
    type V = EdgeModel;

    open(crate) spec fn view(&self) -> EdgeModel {
        self.model()
    }
}

impl BlockContent {
    pub(crate) open(crate) spec fn model(&self) -> EdgeModel
        decreases self,
    {
        self.0.model()
    }
}

impl BlockContent {
    #[verifier::type_invariant]
    pub(crate) open(crate) spec fn inv(self) -> bool {
        &&& well_formed_edge(self.0@)
        &&& self.0@ is Node ==> is_block_node(self.0@->Node_0)
    }

    pub(crate) fn as_ref(&self) -> (content: ContentRef<'_>)
        ensures
            content@ == self@,
    {
        self.0.as_ref()
    }

    pub(crate) fn duplicate(&self) -> (copy: Self)
        ensures
            copy@ == self@,
        decreases self,
    {
        proof {
            use_type_invariant(self);
        }
        Self(self.0.duplicate())
    }

    pub(crate) fn markdown(node: MarkdownNode) -> (content: Self)
        requires
            is_block_markdown(node@),
        ensures
            content@ == markdown_edge(node@),
    {
        node.assure();
        Self(ContentEdge::Node(ContentNode::Markdown(node)))
    }

    pub fn heading(node: HeadingNode) -> (content: Self)
        ensures
            content@ == markdown_edge(node@),
    {
        proof {
            use_type_invariant(&node);
        }
        Self::markdown(MarkdownNode::Heading(node))
    }

    pub fn paragraph(node: ParagraphNode) -> (content: Self)
        ensures
            content@ == markdown_edge(node@),
    {
        proof {
            use_type_invariant(&node);
        }
        Self::markdown(MarkdownNode::Paragraph(node))
    }

    pub fn list(node: ListNode) -> (content: Self)
        ensures
            content@ == markdown_edge(node@),
    {
        proof {
            use_type_invariant(&node);
        }
        Self::markdown(MarkdownNode::List(node))
    }

    pub fn code_block(node: CodeBlockNode) -> (content: Self)
        ensures
            content@ == markdown_edge(node@),
    {
        Self::markdown(MarkdownNode::CodeBlock(node))
    }

    pub fn thematic_break() -> (content: Self)
        ensures
            content@ == markdown_edge(MarkdownModel::ThematicBreak),
    {
        Self::markdown(MarkdownNode::ThematicBreak)
    }

    pub fn xml(node: XmlNode) -> (content: Self)
        ensures
            content@ == xml_edge(node@),
    {
        proof {
            use_type_invariant(&node);
        }
        Self(ContentEdge::Node(ContentNode::Xml(node)))
    }

    pub fn raw_text(node: RawTextNode) -> (content: Self)
        ensures
            content@ == EdgeModel::Node(NodeModel::RawText(node@)),
    {
        Self(ContentEdge::Node(ContentNode::RawText(node)))
    }

    pub fn xml_slot(slot: DiffSlot) -> (content: Self)
        ensures
            content@ == EdgeModel::Slot(slot@),
    {
        proof {
            use_type_invariant(&slot);
        }
        Self(ContentEdge::Diff(slot))
    }

    /// Accepts a node that may stand in a block list.
    pub fn try_from_node(node: ContentNode) -> (result: Result<Self, PomError>)
        ensures
            match result {
                Ok(content) => is_block_node(node@) && content@ == EdgeModel::Node(node@),
                Err(PomError::WrongContentContext { expected, actual }) => !is_block_node(node@)
                    && expected == ContentContext::Block && actual == content_kind(node@),
                Err(_) => false,
            },
    {
        node.assure();
        let kind = node.kind();
        match kind {
            ContentKind::Markdown(MarkdownKind::Strong)
            | ContentKind::Markdown(MarkdownKind::CodeSpan)
            | ContentKind::Text => Err(
                PomError::WrongContentContext { expected: ContentContext::Block, actual: kind },
            ),
            _ => Ok(Self(ContentEdge::Node(node))),
        }
    }
}

impl Clone for BlockContent {
    fn clone(&self) -> (copy: Self)
        ensures
            copy@ == self@,
    {
        self.duplicate()
    }
}

impl PartialEq for BlockContent {
    fn eq(&self, other: &Self) -> (equal: bool) {
        self.0.equals(&other.0)
    }
}

impl Eq for BlockContent {

}

impl vstd::std_specs::cmp::PartialEqSpecImpl for BlockContent {
    open spec fn obeys_eq_spec() -> bool {
        true
    }

    open spec fn eq_spec(&self, other: &Self) -> bool {
        edge_equiv(self@, other@)
    }
}

/// Content that may stand in an inline list.
#[derive(Debug)]
pub struct InlineContent(pub(crate) ContentEdge);

impl View for InlineContent {
    type V = EdgeModel;

    open(crate) spec fn view(&self) -> EdgeModel {
        self.model()
    }
}

impl InlineContent {
    pub(crate) open(crate) spec fn model(&self) -> EdgeModel
        decreases self,
    {
        self.0.model()
    }
}

impl InlineContent {
    #[verifier::type_invariant]
    pub(crate) open(crate) spec fn inv(self) -> bool {
        &&& well_formed_edge(self.0@)
        &&& self.0@ is Node ==> is_inline_node(self.0@->Node_0)
    }

    pub(crate) fn as_ref(&self) -> (content: ContentRef<'_>)
        ensures
            content@ == self@,
    {
        self.0.as_ref()
    }

    pub(crate) fn duplicate(&self) -> (copy: Self)
        ensures
            copy@ == self@,
        decreases self,
    {
        proof {
            use_type_invariant(self);
        }
        Self(self.0.duplicate())
    }

    /// Accepts text of one line.
    pub fn try_text(value: &str) -> (result: Result<Self, PomError>)
        ensures
            match result {
                Ok(content) => single_line(value@) && content@ == text_edge(value@),
                Err(PomError::InvalidInlineNewline { value: rejected }) => !single_line(value@)
                    && rejected@ == value@,
                Err(_) => false,
            },
    {
        Self::try_text_node(TextNode::new(value))
    }

    pub fn strong(node: StrongNode) -> (content: Self)
        ensures
            content@ == markdown_edge(node@),
    {
        proof {
            use_type_invariant(&node);
        }
        Self(ContentEdge::Node(ContentNode::Markdown(MarkdownNode::Strong(node))))
    }

    pub fn code_span(node: CodeSpanNode) -> (content: Self)
        ensures
            content@ == markdown_edge(node@),
    {
        Self(ContentEdge::Node(ContentNode::Markdown(MarkdownNode::CodeSpan(node))))
    }

    pub fn xml(node: XmlNode) -> (content: Self)
        ensures
            content@ == xml_edge(node@),
    {
        proof {
            use_type_invariant(&node);
        }
        Self(ContentEdge::Node(ContentNode::Xml(node)))
    }

    pub fn xml_slot(slot: DiffSlot) -> (content: Self)
        ensures
            content@ == EdgeModel::Slot(slot@),
    {
        proof {
            use_type_invariant(&slot);
        }
        Self(ContentEdge::Diff(slot))
    }

    /// Accepts a node that may stand in an inline list.
    pub fn try_from_node(node: ContentNode) -> (result: Result<Self, PomError>)
        ensures
            match result {
                Ok(content) => is_inline_node(node@) && content@ == EdgeModel::Node(node@),
                Err(PomError::InvalidInlineNewline { value }) => node@ is Text && !single_line(
                    node@->Text_0,
                ) && value@ == node@->Text_0,
                Err(PomError::WrongContentContext { expected, actual }) => !(node@ is Text)
                    && !is_inline_node(node@) && expected == ContentContext::Inline && actual
                    == content_kind(node@),
                Err(_) => false,
            },
    {
        node.assure();
        let kind = node.kind();
        match node {
            ContentNode::Text(text) => Self::try_text_node(text),
            other => match kind {
                ContentKind::Xml
                | ContentKind::Markdown(MarkdownKind::Strong)
                | ContentKind::Markdown(MarkdownKind::CodeSpan) => Ok(
                    Self(ContentEdge::Node(other)),
                ),
                _ => Err(
                    PomError::WrongContentContext {
                        expected: ContentContext::Inline,
                        actual: kind,
                    },
                ),
            },
        }
    }

    fn try_text_node(node: TextNode) -> (result: Result<Self, PomError>)
        ensures
            match result {
                Ok(content) => single_line(node@) && content@ == text_edge(node@),
                Err(PomError::InvalidInlineNewline { value }) => !single_line(node@) && value@
                    == node@,
                Err(_) => false,
            },
    {
        for c in chars: node.value.as_str().chars()
            invariant
                chars.seq() == node.value@,
                forall|i: int|
                    0 <= i < chars.index() ==> (#[trigger] node.value@[i]) != '\n' && node.value@[i]
                        != '\r',
        {
            if c == '\n' || c == '\r' {
                assert(node.value@.contains(c));
                return Err(PomError::InvalidInlineNewline { value: node.value });
            }
        }
        Ok(Self(ContentEdge::Node(ContentNode::Text(node))))
    }
}

impl Clone for InlineContent {
    fn clone(&self) -> (copy: Self)
        ensures
            copy@ == self@,
    {
        self.duplicate()
    }
}

impl PartialEq for InlineContent {
    fn eq(&self, other: &Self) -> (equal: bool) {
        self.0.equals(&other.0)
    }
}

impl Eq for InlineContent {

}

impl vstd::std_specs::cmp::PartialEqSpecImpl for InlineContent {
    open spec fn obeys_eq_spec() -> bool {
        true
    }

    open spec fn eq_spec(&self, other: &Self) -> bool {
        edge_equiv(self@, other@)
    }
}

/// Content that may stand in a mixed list.
#[derive(Debug)]
pub struct MixedContent(pub(crate) ContentEdge);

impl View for MixedContent {
    type V = EdgeModel;

    open(crate) spec fn view(&self) -> EdgeModel {
        self.model()
    }
}

impl MixedContent {
    pub(crate) open(crate) spec fn model(&self) -> EdgeModel
        decreases self,
    {
        self.0.model()
    }
}

impl MixedContent {
    #[verifier::type_invariant]
    pub(crate) open(crate) spec fn inv(self) -> bool {
        well_formed_edge(self.0@)
    }

    pub(crate) fn as_ref(&self) -> (content: ContentRef<'_>)
        ensures
            content@ == self@,
    {
        self.0.as_ref()
    }

    pub(crate) fn duplicate(&self) -> (copy: Self)
        ensures
            copy@ == self@,
        decreases self,
    {
        proof {
            use_type_invariant(self);
        }
        Self(self.0.duplicate())
    }

    pub fn node(node: ContentNode) -> (content: Self)
        ensures
            content@ == EdgeModel::Node(node@),
    {
        node.assure();
        Self(ContentEdge::Node(node))
    }

    pub fn text(node: TextNode) -> (content: Self)
        ensures
            content@ == text_edge(node@),
    {
        Self::node(ContentNode::Text(node))
    }

    pub fn raw_text(node: RawTextNode) -> (content: Self)
        ensures
            content@ == EdgeModel::Node(NodeModel::RawText(node@)),
    {
        Self::node(ContentNode::RawText(node))
    }

    pub fn markdown(node: MarkdownNode) -> (content: Self)
        ensures
            content@ == markdown_edge(node@),
    {
        Self::node(ContentNode::Markdown(node))
    }

    pub fn xml(node: XmlNode) -> (content: Self)
        ensures
            content@ == xml_edge(node@),
    {
        Self::node(ContentNode::Xml(node))
    }

    pub fn xml_slot(slot: DiffSlot) -> (content: Self)
        ensures
            content@ == EdgeModel::Slot(slot@),
    {
        proof {
            use_type_invariant(&slot);
        }
        Self(ContentEdge::Diff(slot))
    }
}

impl Clone for MixedContent {
    fn clone(&self) -> (copy: Self)
        ensures
            copy@ == self@,
    {
        self.duplicate()
    }
}

impl PartialEq for MixedContent {
    fn eq(&self, other: &Self) -> (equal: bool) {
        self.0.equals(&other.0)
    }
}

impl Eq for MixedContent {

}

impl vstd::std_specs::cmp::PartialEqSpecImpl for MixedContent {
    open spec fn obeys_eq_spec() -> bool {
        true
    }

    open spec fn eq_spec(&self, other: &Self) -> bool {
        edge_equiv(self@, other@)
    }
}

} // verus!

