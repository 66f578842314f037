//! Mathematical model of prompt documents.
//!
//! Every executable node type of this module tree has one of these types as its
//! view. Text is a sequence of characters, a child list is a sequence of edges,
//! and an edge is either a node or a diff slot. The three executable child lists
//! (block, inline and mixed) share one model: what tells them apart is which
//! edges they may hold, stated by [`well_formed_blocks`],
//! [`well_formed_inlines`] and [`well_formed_mixed`].

use vstd::prelude::*;
use crate::pom::markdown::{HeadingLevel, ListKind};

verus! {

/// Model of one content node.
pub enum NodeModel {
    Markdown(MarkdownModel),
    Xml(XmlModel),
    Text(Seq<char>),
    RawText(Seq<char>),
}

/// Model of one Markdown node.
pub enum MarkdownModel {
    Heading { level: HeadingLevel, children: Seq<EdgeModel> },
    Paragraph { children: Seq<EdgeModel> },
    List { kind: ListKind, items: Seq<Seq<EdgeModel>> },
    CodeBlock { language: Option<Seq<char>>, body: Seq<char> },
    ThematicBreak,
    Strong { children: Seq<EdgeModel> },
    CodeSpan { body: Seq<char> },
}

/// Model of one XML attribute.
pub struct AttributeModel {
    pub name: Seq<char>,
    pub value: Seq<char>,
}

/// Model of what an XML node knows about its role inside a collection.
pub struct MetadataModel {
    pub is_map: bool,
    pub identity: Option<Box<NodeModel>>,
}

/// Model of one XML node.
pub struct XmlModel {
    pub name: Seq<char>,
    pub attributes: Seq<AttributeModel>,
    pub children: Seq<EdgeModel>,
    pub metadata: MetadataModel,
}

/// Model of how a diff slot is compared with its baseline.
pub enum StrategyModel {
    Recursive,
    Replace,
    Append,
    Sequence,
    UnorderedSet,
    Keyed(Seq<char>),
}

/// Model of one diff slot.
pub struct SlotModel {
    pub role: Seq<char>,
    pub strategy: StrategyModel,
    pub value: Option<XmlModel>,
}

/// Model of one child position.
pub enum EdgeModel {
    Node(NodeModel),
    Slot(SlotModel),
}

/// An XML node with a name and nothing else.
pub open spec fn empty_xml(name: Seq<char>) -> XmlModel {
    XmlModel {
        name,
        attributes: Seq::empty(),
        children: Seq::empty(),
        metadata: MetadataModel { is_map: false, identity: None },
    }
}

/// The edge that holds an XML node.
pub open spec fn xml_edge(node: XmlModel) -> EdgeModel {
    EdgeModel::Node(NodeModel::Xml(node))
}

/// The edge that holds a Markdown node.
pub open spec fn markdown_edge(node: MarkdownModel) -> EdgeModel {
    EdgeModel::Node(NodeModel::Markdown(node))
}

/// The edge that holds text.
pub open spec fn text_edge(value: Seq<char>) -> EdgeModel {
    EdgeModel::Node(NodeModel::Text(value))
}

/// Whether an edge holds ordinary text.
pub open spec fn is_text(edge: EdgeModel) -> bool {
    edge is Node && edge->Node_0 is Text
}

/// The text that an edge holds.
pub open spec fn text_of(edge: EdgeModel) -> Seq<char> {
    edge->Node_0->Text_0
}

/// Appends an edge to a child list that keeps its text normalized: empty text
/// vanishes, and text that follows text is joined to it.
pub open spec fn push_normalized(children: Seq<EdgeModel>, edge: EdgeModel) -> Seq<EdgeModel> {
    if is_text(edge) && text_of(edge).len() == 0 {
        children
    } else if is_text(edge) && children.len() > 0 && is_text(children.last()) {
        children.drop_last().push(text_edge(text_of(children.last()) + text_of(edge)))
    } else {
        children.push(edge)
    }
}

/// No empty text and no two neighbouring text edges.
pub open spec fn normalized(children: Seq<EdgeModel>) -> bool {
    &&& forall|i: int|
        0 <= i < children.len() && is_text(#[trigger] children[i]) ==> text_of(children[i]).len() > 0
    &&& forall|i: int, j: int|
        0 <= i < children.len() && j == i + 1 && j < children.len() && is_text(
            #[trigger] children[i],
        ) ==> !is_text(#[trigger] children[j])
}

/// Whether a character may start an XML name.
pub open spec fn is_name_start(c: char) -> bool {
    ('a' <= c && c <= 'z') || ('A' <= c && c <= 'Z') || c == '_'
}

/// Whether a character may stand in an XML name after the first.
pub open spec fn is_name_part(c: char) -> bool {
    is_name_start(c) || ('0' <= c && c <= '9') || c == '-' || c == '.'
}

/// A valid XML name: a letter or underscore, then letters, digits, `_`, `-` or `.`.
pub open spec fn is_xml_name(name: Seq<char>) -> bool {
    &&& name.len() > 0
    &&& is_name_start(name[0])
    &&& forall|i: int| 0 <= i < name.len() ==> is_name_part(#[trigger] name[i])
}

/// No attribute name occurs twice.
pub open spec fn unique_attribute_names(attributes: Seq<AttributeModel>) -> bool {
    forall|i: int, j: int|
        0 <= i < j < attributes.len() ==> (#[trigger] attributes[i]).name != (
        #[trigger] attributes[j]).name
}

/// Attribute lists that an XML node may hold.
pub open spec fn well_formed_attributes(attributes: Seq<AttributeModel>) -> bool {
    &&& unique_attribute_names(attributes)
    &&& forall|i: int| 0 <= i < attributes.len() ==> is_xml_name((#[trigger] attributes[i]).name)
}

/// Text that may stand in one line of Markdown.
pub open spec fn single_line(text: Seq<char>) -> bool {
    !text.contains('\n') && !text.contains('\r')
}

/// Whether a Markdown node stands as a block of its own.
pub open spec fn is_block_markdown(node: MarkdownModel) -> bool {
    match node {
        MarkdownModel::Strong { .. } => false,
        MarkdownModel::CodeSpan { .. } => false,
        _ => true,
    }
}

/// Whether a node may be a child of a block list.
pub open spec fn is_block_node(node: NodeModel) -> bool {
    match node {
        NodeModel::Markdown(node) => is_block_markdown(node),
        NodeModel::Xml(_) => true,
        NodeModel::RawText(_) => true,
        NodeModel::Text(_) => false,
    }
}

/// Whether a node may be a child of an inline list.
pub open spec fn is_inline_node(node: NodeModel) -> bool {
    match node {
        NodeModel::Markdown(node) => !is_block_markdown(node),
        NodeModel::Xml(_) => true,
        NodeModel::RawText(_) => false,
        NodeModel::Text(text) => single_line(text),
    }
}

pub open spec fn well_formed_metadata(metadata: MetadataModel) -> bool
    decreases metadata,
{
    match metadata.identity {
        Some(identity) => well_formed_node(*identity),
        None => true,
    }
}

pub open spec fn well_formed_xml(node: XmlModel) -> bool
    decreases node,
{
    &&& is_xml_name(node.name)
    &&& well_formed_attributes(node.attributes)
    &&& well_formed_mixed(node.children)
    &&& well_formed_metadata(node.metadata)
}

pub open spec fn well_formed_markdown(node: MarkdownModel) -> bool
    decreases node,
{
    match node {
        MarkdownModel::Heading { level, children } => well_formed_inlines(children),
        MarkdownModel::Paragraph { children } => well_formed_inlines(children),
        MarkdownModel::List { kind, items } => forall|i: int|
            0 <= i < items.len() ==> well_formed_blocks(#[trigger] items[i]),
        MarkdownModel::CodeBlock { .. } => true,
        MarkdownModel::ThematicBreak => true,
        MarkdownModel::Strong { children } => well_formed_inlines(children),
        MarkdownModel::CodeSpan { .. } => true,
    }
}

pub open spec fn well_formed_node(node: NodeModel) -> bool
    decreases node,
{
    match node {
        NodeModel::Markdown(node) => well_formed_markdown(node),
        NodeModel::Xml(node) => well_formed_xml(node),
        NodeModel::Text(_) => true,
        NodeModel::RawText(_) => true,
    }
}

pub open spec fn well_formed_strategy(strategy: StrategyModel) -> bool {
    strategy is Keyed ==> is_xml_name(strategy->Keyed_0)
}

pub open spec fn well_formed_slot(slot: SlotModel) -> bool
    decreases slot,
{
    &&& is_xml_name(slot.role)
    &&& well_formed_strategy(slot.strategy)
    &&& match slot.value {
        Some(value) => value.name == slot.role && well_formed_xml(value),
        None => true,
    }
}

pub open spec fn well_formed_edge(edge: EdgeModel) -> bool
    decreases edge,
{
    match edge {
        EdgeModel::Node(node) => well_formed_node(node),
        EdgeModel::Slot(slot) => well_formed_slot(slot),
    }
}

/// A block list holds block nodes and diff slots.
pub open spec fn well_formed_blocks(children: Seq<EdgeModel>) -> bool
    decreases children,
{
    forall|i: int|
        0 <= i < children.len() ==> {
            &&& well_formed_edge(#[trigger] children[i])
            &&& children[i] is Node ==> is_block_node(children[i]->Node_0)
        }
}

/// An inline list holds inline nodes and diff slots, with its text normalized.
pub open spec fn well_formed_inlines(children: Seq<EdgeModel>) -> bool
    decreases children,
{
    &&& normalized(children)
    &&& forall|i: int|
        0 <= i < children.len() ==> {
            &&& well_formed_edge(#[trigger] children[i])
            &&& children[i] is Node ==> is_inline_node(children[i]->Node_0)
        }
}

/// A mixed list holds any content, with its text normalized.
pub open spec fn well_formed_mixed(children: Seq<EdgeModel>) -> bool
    decreases children,
{
    &&& normalized(children)
    &&& forall|i: int| 0 <= i < children.len() ==> well_formed_edge(#[trigger] children[i])
}

/// Attributes are compared without regard to their order.
pub open spec fn attributes_equiv(a: Seq<AttributeModel>, b: Seq<AttributeModel>) -> bool {
    &&& a.len() == b.len()
    &&& forall|i: int| 0 <= i < a.len() ==> b.contains(#[trigger] a[i])
}

/// Equality of XML nodes: everything agrees, attributes in any order, at every
/// depth.
pub open spec fn xml_equiv(a: XmlModel, b: XmlModel) -> bool
    decreases a,
{
    &&& a.name == b.name
    &&& attributes_equiv(a.attributes, b.attributes)
    &&& edges_equiv(a.children, b.children)
    &&& metadata_equiv(a.metadata, b.metadata)
}

pub open spec fn metadata_equiv(a: MetadataModel, b: MetadataModel) -> bool
    decreases a,
{
    &&& a.is_map == b.is_map
    &&& match (a.identity, b.identity) {
        (Some(x), Some(y)) => node_equiv(*x, *y),
        (None, None) => true,
        _ => false,
    }
}

pub open spec fn edges_equiv(a: Seq<EdgeModel>, b: Seq<EdgeModel>) -> bool
    decreases a,
{
    &&& a.len() == b.len()
    &&& forall|i: int| 0 <= i < a.len() ==> edge_equiv(#[trigger] a[i], b[i])
}

pub open spec fn edge_equiv(a: EdgeModel, b: EdgeModel) -> bool
    decreases a,
{
    match (a, b) {
        (EdgeModel::Node(x), EdgeModel::Node(y)) => node_equiv(x, y),
        (EdgeModel::Slot(x), EdgeModel::Slot(y)) => slot_equiv(x, y),
        _ => false,
    }
}

pub open spec fn slot_equiv(a: SlotModel, b: SlotModel) -> bool
    decreases a,
{
    &&& a.role == b.role
    &&& a.strategy == b.strategy
    &&& match (a.value, b.value) {
        (Some(x), Some(y)) => xml_equiv(x, y),
        (None, None) => true,
        _ => false,
    }
}

pub open spec fn node_equiv(a: NodeModel, b: NodeModel) -> bool
    decreases a,
{
    match (a, b) {
        (NodeModel::Markdown(x), NodeModel::Markdown(y)) => markdown_equiv(x, y),
        (NodeModel::Xml(x), NodeModel::Xml(y)) => xml_equiv(x, y),
        (NodeModel::Text(x), NodeModel::Text(y)) => x == y,
        (NodeModel::RawText(x), NodeModel::RawText(y)) => x == y,
        _ => false,
    }
}

pub open spec fn items_equiv(a: Seq<Seq<EdgeModel>>, b: Seq<Seq<EdgeModel>>) -> bool
    decreases a,
{
    &&& a.len() == b.len()
    &&& forall|i: int| 0 <= i < a.len() ==> edges_equiv(#[trigger] a[i], b[i])
}

pub open spec fn markdown_equiv(a: MarkdownModel, b: MarkdownModel) -> bool
    decreases a,
{
    match a {
        MarkdownModel::Heading { level, children } => b is Heading && level == b->level
            && edges_equiv(children, b->Heading_children),
        MarkdownModel::Paragraph { children } => b is Paragraph && edges_equiv(
            children,
            b->Paragraph_children,
        ),
        MarkdownModel::List { kind, items } => b is List && kind == b->kind && items_equiv(
            items,
            b->items,
        ),
        MarkdownModel::CodeBlock { language, body } => b == a,
        MarkdownModel::ThematicBreak => b is ThematicBreak,
        MarkdownModel::Strong { children } => b is Strong && edges_equiv(
            children,
            b->Strong_children,
        ),
        MarkdownModel::CodeSpan { body } => b == a,
    }
}

/// No diff slot at any depth. The identity of a map entry is not content and
/// does not count.
pub open spec fn slot_free(children: Seq<EdgeModel>) -> bool
    decreases children,
{
    forall|i: int| 0 <= i < children.len() ==> slot_free_edge(#[trigger] children[i])
}

pub open spec fn slot_free_edge(edge: EdgeModel) -> bool
    decreases edge,
{
    match edge {
        EdgeModel::Node(node) => slot_free_node(node),
        EdgeModel::Slot(_) => false,
    }
}

pub open spec fn slot_free_node(node: NodeModel) -> bool
    decreases node,
{
    match node {
        NodeModel::Markdown(node) => slot_free_markdown(node),
        NodeModel::Xml(node) => slot_free_xml(node),
        _ => true,
    }
}

pub open spec fn slot_free_xml(node: XmlModel) -> bool
    decreases node,
{
    slot_free(node.children)
}

pub open spec fn slot_free_markdown(node: MarkdownModel) -> bool
    decreases node,
{
    match node {
        MarkdownModel::Heading { level, children } => slot_free(children),
        MarkdownModel::Paragraph { children } => slot_free(children),
        MarkdownModel::List { kind, items } => forall|i: int|
            0 <= i < items.len() ==> slot_free(#[trigger] items[i]),
        MarkdownModel::Strong { children } => slot_free(children),
        _ => true,
    }
}

} // verus!
