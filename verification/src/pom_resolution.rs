//! Role-specific resolution of prompt documents.

use vstd::prelude::*;
use crate::pom::children::{BlockChildren, InlineChildren, MixedChildren};
use crate::pom::content::{BlockContent, ContentNode, ContentRef, InlineContent, MixedContent};
use crate::pom::diff_slot::DiffSlot;
use crate::pom::document::{Document, ResolvedDocument};
use crate::pom::markdown::{
    item_models, HeadingNode, ListItem, ListNode, MarkdownNode, ParagraphNode, StrongNode,
};
use crate::pom::model::{
    is_block_markdown, push_normalized, slot_free, slot_free_edge, slot_free_markdown,
    slot_free_node, slot_free_xml, well_formed_blocks, well_formed_edge, well_formed_inlines,
    well_formed_mixed, xml_edge, EdgeModel, MarkdownModel, NodeModel, SlotModel, XmlModel,
};
use crate::pom::xml::{XmlName, XmlNode};
use crate::pom_cursor::{BaselineModel, UserDocumentCursor};
use crate::pom_diff::{deletion, deletion_node, diff_value, diff_xml_values, patch_models};

verus! {

/// Failures of the resolution boundaries.
#[derive(Debug, Clone, PartialEq, Eq)]
pub enum PomResolutionError {
    /// Turn artifacts must be complete documents and cannot contain slots.
    ArtifactContainsDiffSlot,
    /// A user document holds two outermost slots of one role.
    DuplicateUserDiffSlotRole { role: XmlName },
}

/// What a cursor remembers.
pub type Baselines = Map<Seq<char>, BaselineModel>;

/// Content that lost everything it held. What was empty before has lost nothing.
pub open spec fn emptied(original_len: nat, resolved_len: nat) -> bool {
    original_len > 0 && resolved_len == 0
}

/// What a slot of a user document says, given what was sent before: nothing
/// where nothing changed, a patch where a baseline of the same strategy is
/// known, the complete value otherwise, and a deletion where a known value is
/// gone.
pub open spec fn slot_update(slot: SlotModel, known: Baselines) -> Option<XmlModel> {
    match slot.value {
        None => if known.contains_key(slot.role) {
            Some(deletion(slot.role))
        } else {
            None
        },
        Some(current) => if known.contains_key(slot.role) && known[slot.role].strategy
            == slot.strategy {
            diff_value(current, known[slot.role].value, slot.strategy)
        } else {
            Some(current)
        },
    }
}

/// Whether slots are compared with baselines (1) or just expanded (0).
pub open spec fn resolution_rank(known: Option<Baselines>) -> int {
    if known is Some {
        1
    } else {
        0
    }
}

/// Children with every slot resolved. Without baselines present slots are
/// expanded and absent ones vanish. With baselines each outermost slot says
/// what changed, and the patch that it gives is expanded in turn.
pub open spec fn resolved(children: Seq<EdgeModel>, known: Option<Baselines>) -> Seq<EdgeModel>
    decreases resolution_rank(known), children,
{
    if children.len() == 0 {
        Seq::empty()
    } else {
        let before = resolved(children.drop_last(), known);
        match resolved_edge(children.last(), known) {
            Some(edge) => push_normalized(before, edge),
            None => before,
        }
    }
}

pub open spec fn resolved_edge(edge: EdgeModel, known: Option<Baselines>) -> Option<EdgeModel>
    decreases resolution_rank(known), edge,
{
    match edge {
        EdgeModel::Node(node) => match resolved_node(node, known) {
            Some(node) => Some(EdgeModel::Node(node)),
            None => None,
        },
        EdgeModel::Slot(slot) => match resolved_slot(slot, known) {
            Some(node) => Some(xml_edge(node)),
            None => None,
        },
    }
}

pub open spec fn resolved_slot(slot: SlotModel, known: Option<Baselines>) -> Option<XmlModel>
    decreases resolution_rank(known), slot,
{
    match known {
        Some(known) => match slot_update(slot, known) {
            Some(update) => Some(resolved_xml(update, None)),
            None => None,
        },
        None => match slot.value {
            Some(value) => Some(resolved_xml(value, None)),
            None => None,
        },
    }
}

pub open spec fn resolved_node(node: NodeModel, known: Option<Baselines>) -> Option<NodeModel>
    decreases resolution_rank(known), node,
{
    match node {
        NodeModel::Markdown(node) => match resolved_markdown(node, known) {
            Some(node) => Some(NodeModel::Markdown(node)),
            None => None,
        },
        NodeModel::Xml(node) => Some(NodeModel::Xml(resolved_xml(node, known))),
        other => Some(other),
    }
}

pub open spec fn resolved_xml(node: XmlModel, known: Option<Baselines>) -> XmlModel
    decreases resolution_rank(known), node,
{
    XmlModel { children: resolved(node.children, known), ..node }
}

/// The items that are left, without those that lost everything.
pub open spec fn resolved_items(items: Seq<Seq<EdgeModel>>, known: Option<Baselines>) -> Seq<
    Seq<EdgeModel>,
>
    decreases resolution_rank(known), items,
{
    if items.len() == 0 {
        Seq::empty()
    } else {
        let before = resolved_items(items.drop_last(), known);
        let item = resolved(items.last(), known);
        if emptied(items.last().len(), item.len()) {
            before
        } else {
            before.push(item)
        }
    }
}

pub open spec fn resolved_markdown(node: MarkdownModel, known: Option<Baselines>) -> Option<
    MarkdownModel,
>
    decreases resolution_rank(known), node,
{
    match node {
        MarkdownModel::Heading { level, children } => {
            let inner = resolved(children, known);
            if emptied(children.len(), inner.len()) {
                None
            } else {
                Some(MarkdownModel::Heading { level, children: inner })
            }
        },
        MarkdownModel::Paragraph { children } => {
            let inner = resolved(children, known);
            if emptied(children.len(), inner.len()) {
                None
            } else {
                Some(MarkdownModel::Paragraph { children: inner })
            }
        },
        MarkdownModel::List { kind, items } => {
            let inner = resolved_items(items, known);
            if emptied(items.len(), inner.len()) {
                None
            } else {
                Some(MarkdownModel::List { kind, items: inner })
            }
        },
        MarkdownModel::Strong { children } => {
            let inner = resolved(children, known);
            if emptied(children.len(), inner.len()) {
                None
            } else {
                Some(MarkdownModel::Strong { children: inner })
            }
        },
        other => Some(other),
    }
}

/// The outermost slots of children, in document order. Slots inside the value
/// of a slot do not count.
pub open spec fn outermost_slots(children: Seq<EdgeModel>) -> Seq<SlotModel>
    decreases children,
{
    if children.len() == 0 {
        Seq::empty()
    } else {
        outermost_slots(children.drop_last()) + outermost_slots_of_edge(children.last())
    }
}

pub open spec fn outermost_slots_of_edge(edge: EdgeModel) -> Seq<SlotModel>
    decreases edge,
{
    match edge {
        EdgeModel::Slot(slot) => seq![slot],
        EdgeModel::Node(node) => outermost_slots_of_node(node),
    }
}

pub open spec fn outermost_slots_of_node(node: NodeModel) -> Seq<SlotModel>
    decreases node,
{
    match node {
        NodeModel::Xml(node) => outermost_slots_of_xml(node),
        NodeModel::Markdown(node) => outermost_slots_of_markdown(node),
        _ => Seq::empty(),
    }
}

pub open spec fn outermost_slots_of_xml(node: XmlModel) -> Seq<SlotModel>
    decreases node,
{
    outermost_slots(node.children)
}

pub open spec fn outermost_slots_of_items(items: Seq<Seq<EdgeModel>>) -> Seq<SlotModel>
    decreases items,
{
    if items.len() == 0 {
        Seq::empty()
    } else {
        outermost_slots_of_items(items.drop_last()) + outermost_slots(items.last())
    }
}

pub open spec fn outermost_slots_of_markdown(node: MarkdownModel) -> Seq<SlotModel>
    decreases node,
{
    match node {
        MarkdownModel::Heading { level, children } => outermost_slots(children),
        MarkdownModel::Paragraph { children } => outermost_slots(children),
        MarkdownModel::List { kind, items } => outermost_slots_of_items(items),
        MarkdownModel::Strong { children } => outermost_slots(children),
        _ => Seq::empty(),
    }
}

/// Whether a slot repeats the role of an earlier one.
pub open spec fn repeats_role(slots: Seq<SlotModel>, at: int) -> bool {
    exists|i: int| 0 <= i < at && (#[trigger] slots[i]).role == slots[at].role
}

/// No role twice.
pub open spec fn unique_roles(slots: Seq<SlotModel>) -> bool {
    forall|at: int| 0 <= at < slots.len() ==> !#[trigger] repeats_role(slots, at)
}

/// What a cursor remembers once slots were sent: the value of each present
/// slot, and nothing of the absent ones.
pub open spec fn advanced(known: Baselines, slots: Seq<SlotModel>) -> Baselines
    decreases slots.len(),
{
    if slots.len() == 0 {
        known
    } else {
        let before = advanced(known, slots.drop_last());
        let slot = slots.last();
        match slot.value {
            Some(value) => before.insert(
                slot.role,
                BaselineModel { strategy: slot.strategy, value },
            ),
            None => before.remove(slot.role),
        }
    }
}

/// The baselines of an optional cursor.
pub open spec fn known_baselines(known: Option<&UserDocumentCursor>) -> Option<Baselines> {
    match known {
        Some(cursor) => Some(cursor@),
        None => None,
    }
}

/// Whether content lost everything it held.
fn emptied_by_resolution(original_was_empty: bool, resolved_is_empty: bool) -> (emptied: bool)
    ensures
        emptied == (!original_was_empty && resolved_is_empty),
{
    !original_was_empty && resolved_is_empty
}

fn resolve_blocks(children: &BlockChildren, known: Option<&UserDocumentCursor>) -> (result: BlockChildren)
    ensures
        result@ == resolved(children@, known_baselines(known)),
    decreases resolution_rank(known_baselines(known)), children@, 0int,
{
    proof {
        use_type_invariant(children);
    }
    let mut result = BlockChildren::new();
    let count: usize = children.len();
    let ghost base = known_baselines(known);
    assert(children@.take(0) =~= Seq::empty());
    for i in 0..count
        invariant
            count == children@.len(),
            base == known_baselines(known),
            well_formed_blocks(children@),
            result@ == resolved(children@.take(i as int), base),
    {
        let ghost seen = children@.take(i as int + 1);
        let ghost edge = children@[i as int];
        assert(seen.drop_last() =~= children@.take(i as int));
        assert(seen.last() == edge);
        assert(well_formed_edge(edge));
        assert(decreases_to!(children@ => edge));
        match children.get(i) {
            Some(ContentRef::Node(node)) => {
                assert(decreases_to!(children@ => edge->Node_0));
                assert(resolved_edge(edge, base) == match resolved_node(node@, base) {
                    Some(node) => Some(EdgeModel::Node(node)),
                    None => None,
                });
                match node {
                    ContentNode::Markdown(markdown) => {
                        assert(resolved_node(node@, base) == match resolved_markdown(
                            markdown@,
                            base,
                        ) {
                            Some(node) => Some(NodeModel::Markdown(node)),
                            None => None,
                        });
                        assert(decreases_to!(children@ => edge->Node_0->Markdown_0));
                        assert(is_block_markdown(markdown@));
                        if let Some(markdown) = resolve_markdown(markdown, known) {
                            result.push(BlockContent::markdown(markdown));
                        }
                    },
                    ContentNode::Xml(xml) => {
                        assert(resolved_node(node@, base) == Some(
                            NodeModel::Xml(resolved_xml(xml@, base)),
                        ));
                        assert(decreases_to!(children@ => edge->Node_0->Xml_0));
                        result.push(BlockContent::xml(resolve_xml(xml, known)));
                    },
                    ContentNode::RawText(text) => {
                        assert(resolved_node(node@, base) == Some(node@));
                        result.push(BlockContent::raw_text(text.clone()));
                    },
                    ContentNode::Text(_) => {
                        assert(false);
                    },
                }
            },
            Some(ContentRef::DiffSlot(slot)) => {
                assert(decreases_to!(children@ => edge->Slot_0));
                assert(resolved_edge(edge, base) == match resolved_slot(slot@, base) {
                    Some(node) => Some(xml_edge(node)),
                    None => None,
                });
                if let Some(node) = resolve_slot(slot, known) {
                    result.push(BlockContent::xml(node));
                }
            },
            None => {},
        }
    }
    assert(children@.take(children@.len() as int) =~= children@);
    result
}

fn resolve_inlines(children: &InlineChildren, known: Option<&UserDocumentCursor>) -> (result: InlineChildren)
    ensures
        result@ == resolved(children@, known_baselines(known)),
    decreases resolution_rank(known_baselines(known)), children@, 0int,
{
    proof {
        use_type_invariant(children);
    }
    let mut result = InlineChildren::new();
    let count: usize = children.len();
    let ghost base = known_baselines(known);
    assert(children@.take(0) =~= Seq::empty());
    for i in 0..count
        invariant
            count == children@.len(),
            base == known_baselines(known),
            well_formed_inlines(children@),
            result@ == resolved(children@.take(i as int), base),
    {
        let ghost seen = children@.take(i as int + 1);
        let ghost edge = children@[i as int];
        assert(seen.drop_last() =~= children@.take(i as int));
        assert(seen.last() == edge);
        assert(well_formed_edge(edge));
        assert(decreases_to!(children@ => edge));
        match children.get(i) {
            Some(ContentRef::Node(node)) => {
                assert(decreases_to!(children@ => edge->Node_0));
                assert(resolved_edge(edge, base) == match resolved_node(node@, base) {
                    Some(node) => Some(EdgeModel::Node(node)),
                    None => None,
                });
                match node {
                    ContentNode::Markdown(MarkdownNode::Strong(strong)) => {
                        assert(resolved_node(node@, base) == match resolved_markdown(
                            strong@,
                            base,
                        ) {
                            Some(node) => Some(NodeModel::Markdown(node)),
                            None => None,
                        });
                        assert(decreases_to!(children@ => edge->Node_0->Markdown_0));
                        if let Some(strong) = resolve_strong(strong, known) {
                            result.push(InlineContent::strong(strong));
                        }
                    },
                    ContentNode::Markdown(MarkdownNode::CodeSpan(span)) => {
                        assert(resolved_markdown(span@, base) == Some(span@));
                        assert(resolved_node(node@, base) == Some(node@));
                        result.push(InlineContent::code_span(span.clone()));
                    },
                    ContentNode::Xml(xml) => {
                        assert(resolved_node(node@, base) == Some(
                            NodeModel::Xml(resolved_xml(xml@, base)),
                        ));
                        assert(decreases_to!(children@ => edge->Node_0->Xml_0));
                        result.push(InlineContent::xml(resolve_xml(xml, known)));
                    },
                    ContentNode::Text(_) => {
                        assert(resolved_node(node@, base) == Some(node@));
                        if let Ok(text) = InlineContent::try_from_node(node.clone()) {
                            result.push(text);
                        }
                    },
                    _ => {
                        assert(false);
                    },
                }
            },
            Some(ContentRef::DiffSlot(slot)) => {
                assert(decreases_to!(children@ => edge->Slot_0));
                assert(resolved_edge(edge, base) == match resolved_slot(slot@, base) {
                    Some(node) => Some(xml_edge(node)),
                    None => None,
                });
                if let Some(node) = resolve_slot(slot, known) {
                    result.push(InlineContent::xml(node));
                }
            },
            None => {},
        }
    }
    assert(children@.take(children@.len() as int) =~= children@);
    result
}

fn resolve_mixed(children: &MixedChildren, known: Option<&UserDocumentCursor>) -> (result: MixedChildren)
    ensures
        result@ == resolved(children@, known_baselines(known)),
    decreases resolution_rank(known_baselines(known)), children@, 0int,
{
    proof {
        use_type_invariant(children);
    }
    let mut result = MixedChildren::new();
    let count: usize = children.len();
    let ghost base = known_baselines(known);
    assert(children@.take(0) =~= Seq::empty());
    for i in 0..count
        invariant
            count == children@.len(),
            base == known_baselines(known),
            well_formed_mixed(children@),
            result@ == resolved(children@.take(i as int), base),
    {
        let ghost seen = children@.take(i as int + 1);
        let ghost edge = children@[i as int];
        assert(seen.drop_last() =~= children@.take(i as int));
        assert(seen.last() == edge);
        assert(well_formed_edge(edge));
        assert(decreases_to!(children@ => edge));
        match children.get(i) {
            Some(ContentRef::Node(node)) => {
                assert(decreases_to!(children@ => edge->Node_0));
                assert(resolved_edge(edge, base) == match resolved_node(node@, base) {
                    Some(node) => Some(EdgeModel::Node(node)),
                    None => None,
                });
                match node {
                    ContentNode::Markdown(markdown) => {
                        assert(resolved_node(node@, base) == match resolved_markdown(
                            markdown@,
                            base,
                        ) {
                            Some(node) => Some(NodeModel::Markdown(node)),
                            None => None,
                        });
                        assert(decreases_to!(children@ => edge->Node_0->Markdown_0));
                        if let Some(markdown) = resolve_markdown(markdown, known) {
                            result.push(MixedContent::markdown(markdown));
                        }
                    },
                    ContentNode::Xml(xml) => {
                        assert(resolved_node(node@, base) == Some(
                            NodeModel::Xml(resolved_xml(xml@, base)),
                        ));
                        assert(decreases_to!(children@ => edge->Node_0->Xml_0));
                        result.push(MixedContent::xml(resolve_xml(xml, known)));
                    },
                    _ => {
                        assert(resolved_node(node@, base) == Some(node@));
                        result.push(MixedContent::node(node.clone()));
                    },
                }
            },
            Some(ContentRef::DiffSlot(slot)) => {
                assert(decreases_to!(children@ => edge->Slot_0));
                assert(resolved_edge(edge, base) == match resolved_slot(slot@, base) {
                    Some(node) => Some(xml_edge(node)),
                    None => None,
                });
                if let Some(node) = resolve_slot(slot, known) {
                    result.push(MixedContent::xml(node));
                }
            },
            None => {},
        }
    }
    assert(children@.take(children@.len() as int) =~= children@);
    result
}

fn resolve_strong(node: &StrongNode, known: Option<&UserDocumentCursor>) -> (result: Option<
    StrongNode,
>)
    ensures
        match result {
            Some(result) => resolved_markdown(node@, known_baselines(known)) == Some(result@),
            None => resolved_markdown(node@, known_baselines(known)) is None,
        },
    decreases resolution_rank(known_baselines(known)), node@, 0int,
{
    let children = node.children();
    assert(node@ == (MarkdownModel::Strong { children: children@ }));
    assert(decreases_to!(node@ => node@->Strong_children));
    let inner = resolve_inlines(children, known);
    if emptied_by_resolution(children.is_empty(), inner.is_empty()) {
        None
    } else {
        Some(StrongNode::new(inner))
    }
}

fn resolve_list(node: &ListNode, known: Option<&UserDocumentCursor>) -> (result: Option<ListNode>)
    ensures
        match result {
            Some(result) => resolved_markdown(node@, known_baselines(known)) == Some(result@),
            None => resolved_markdown(node@, known_baselines(known)) is None,
        },
    decreases resolution_rank(known_baselines(known)), node@, 0int,
{
    let mut items: Vec<ListItem> = Vec::new();
    let held = node.items();
    let ghost models = item_models(held@);
    let ghost base = known_baselines(known);
    assert(node@ == (MarkdownModel::List { kind: node@->kind, items: models }));
    assert(models.take(0) =~= Seq::empty());
    assert(item_models(items@) =~= Seq::empty());
    for i in 0..held.len()
        invariant
            models == item_models(held@),
            base == known_baselines(known),
            node@ == (MarkdownModel::List { kind: node@->kind, items: models }),
            item_models(items@) == resolved_items(models.take(i as int), base),
    {
        let ghost before = items@;
        assert(models.take(i as int + 1).drop_last() =~= models.take(i as int));
        assert(models.take(i as int + 1).last() == held@[i as int]@);
        assert(decreases_to!(node@ => node@->items));
        assert(decreases_to!(node@ => node@->items[i as int]));
        let children = held[i].children();
        let inner = resolve_blocks(children, known);
        if !emptied_by_resolution(children.is_empty(), inner.is_empty()) {
            items.push(ListItem::new(inner));
            assert(item_models(items@) =~= item_models(before).push(inner@));
        }
    }
    assert(models.take(models.len() as int) =~= models);
    if emptied_by_resolution(held.len() == 0, items.is_empty()) {
        None
    } else {
        Some(ListNode::new(*node.kind(), items))
    }
}

fn resolve_markdown(node: &MarkdownNode, known: Option<&UserDocumentCursor>) -> (result: Option<
    MarkdownNode,
>)
    ensures
        match result {
            Some(result) => resolved_markdown(node@, known_baselines(known)) == Some(result@)
                && is_block_markdown(result@) == is_block_markdown(node@),
            None => resolved_markdown(node@, known_baselines(known)) is None,
        },
    decreases resolution_rank(known_baselines(known)), node@, 1int,
{
    match node {
        MarkdownNode::Heading(heading) => {
            let children = heading.children();
            assert(node@ == heading@);
            assert(decreases_to!(node@ => node@->Heading_children));
            let inner = resolve_inlines(children, known);
            if emptied_by_resolution(children.is_empty(), inner.is_empty()) {
                None
            } else {
                Some(MarkdownNode::Heading(HeadingNode::new(*heading.level(), inner)))
            }
        },
        MarkdownNode::Paragraph(paragraph) => {
            let children = paragraph.children();
            assert(node@ == paragraph@);
            assert(decreases_to!(node@ => node@->Paragraph_children));
            let inner = resolve_inlines(children, known);
            if emptied_by_resolution(children.is_empty(), inner.is_empty()) {
                None
            } else {
                Some(MarkdownNode::Paragraph(ParagraphNode::new(inner)))
            }
        },
        MarkdownNode::List(list) => match resolve_list(list, known) {
            Some(list) => Some(MarkdownNode::List(list)),
            None => None,
        },
        MarkdownNode::CodeBlock(block) => Some(MarkdownNode::CodeBlock(block.clone())),
        MarkdownNode::ThematicBreak => Some(MarkdownNode::ThematicBreak),
        MarkdownNode::Strong(strong) => match resolve_strong(strong, known) {
            Some(strong) => Some(MarkdownNode::Strong(strong)),
            None => None,
        },
        MarkdownNode::CodeSpan(span) => Some(MarkdownNode::CodeSpan(span.clone())),
    }
}

fn resolve_xml(node: &XmlNode, known: Option<&UserDocumentCursor>) -> (result: XmlNode)
    ensures
        result@ == resolved_xml(node@, known_baselines(known)),
    decreases resolution_rank(known_baselines(known)), node@, 0int,
{
    assert(decreases_to!(node@ => node@.children));
    let children = resolve_mixed(node.children(), known);
    node.clone().with_children(children)
}

fn resolve_slot(slot: &DiffSlot, known: Option<&UserDocumentCursor>) -> (result: Option<XmlNode>)
    ensures
        patch_models(result) == resolved_slot(slot@, known_baselines(known)),
    decreases resolution_rank(known_baselines(known)), slot@, 0int,
{
    match known {
        Some(cursor) => {
            let update = match slot.value() {
                None => if cursor.contains(slot.role()) {
                    Some(deletion_node(slot.role().clone()))
                } else {
                    None
                },
                Some(current) => match cursor.baseline(slot.role()) {
                    Some((strategy, previous)) => if strategy.equals(slot.strategy()) {
                        diff_xml_values(current, previous, slot.strategy())
                    } else {
                        Some(current.clone())
                    },
                    None => Some(current.clone()),
                },
            };
            assert(patch_models(update) == slot_update(slot@, cursor@));
            match update {
                Some(update) => Some(resolve_xml(&update, None)),
                None => None,
            }
        },
        None => match slot.value() {
            Some(value) => {
                assert(decreases_to!(slot@ => slot@.value->0));
                Some(resolve_xml(value, None))
            },
            None => None,
        },
    }
}

/// The models of slots.
pub open spec fn slot_models(slots: Seq<&DiffSlot>) -> Seq<SlotModel> {
    slots.map_values(|slot: &DiffSlot| slot@)
}

fn scan_block_children<'a>(children: &'a BlockChildren, slots: &mut Vec<&'a DiffSlot>)
    ensures
        slot_models(final(slots)@) == slot_models(old(slots)@) + outermost_slots(children@),
    decreases children@, 0int,
{
    let count: usize = children.len();
    let ghost before = slot_models(slots@);
    assert(children@.take(0) =~= Seq::empty());
    assert(before =~= before + outermost_slots(children@.take(0)));
    for i in 0..count
        invariant
            count == children@.len(),
            slot_models(slots@) == before + outermost_slots(children@.take(i as int)),
    {
        let ghost edge = children@[i as int];
        let ghost held = slots@;
        assert(children@.take(i as int + 1).drop_last() =~= children@.take(i as int));
        assert(children@.take(i as int + 1).last() == edge);
        assert(decreases_to!(children@ => edge));
        match children.get(i) {
            Some(ContentRef::DiffSlot(slot)) => {
                slots.push(slot);
                assert(outermost_slots_of_edge(edge) == seq![slot@]);
                assert(slot_models(slots@) =~= slot_models(held) + seq![slot@]);
            },
            Some(ContentRef::Node(node)) => {
                assert(decreases_to!(children@ => edge->Node_0));
                assert(outermost_slots_of_edge(edge) == outermost_slots_of_node(node@));
                scan_node(node, slots);
            },
            None => {},
        }
        assert(slot_models(slots@) =~= before + (outermost_slots(children@.take(i as int))
            + outermost_slots_of_edge(edge)));
    }
    assert(children@.take(children@.len() as int) =~= children@);
}

fn scan_inline_children<'a>(children: &'a InlineChildren, slots: &mut Vec<&'a DiffSlot>)
    ensures
        slot_models(final(slots)@) == slot_models(old(slots)@) + outermost_slots(children@),
    decreases children@, 0int,
{
    let count: usize = children.len();
    let ghost before = slot_models(slots@);
    assert(children@.take(0) =~= Seq::empty());
    assert(before =~= before + outermost_slots(children@.take(0)));
    for i in 0..count
        invariant
            count == children@.len(),
            slot_models(slots@) == before + outermost_slots(children@.take(i as int)),
    {
        let ghost edge = children@[i as int];
        let ghost held = slots@;
        assert(children@.take(i as int + 1).drop_last() =~= children@.take(i as int));
        assert(children@.take(i as int + 1).last() == edge);
        assert(decreases_to!(children@ => edge));
        match children.get(i) {
            Some(ContentRef::DiffSlot(slot)) => {
                slots.push(slot);
                assert(outermost_slots_of_edge(edge) == seq![slot@]);
                assert(slot_models(slots@) =~= slot_models(held) + seq![slot@]);
            },
            Some(ContentRef::Node(node)) => {
                assert(decreases_to!(children@ => edge->Node_0));
                assert(outermost_slots_of_edge(edge) == outermost_slots_of_node(node@));
                scan_node(node, slots);
            },
            None => {},
        }
        assert(slot_models(slots@) =~= before + (outermost_slots(children@.take(i as int))
            + outermost_slots_of_edge(edge)));
    }
    assert(children@.take(children@.len() as int) =~= children@);
}

fn scan_mixed_children<'a>(children: &'a MixedChildren, slots: &mut Vec<&'a DiffSlot>)
    ensures
        slot_models(final(slots)@) == slot_models(old(slots)@) + outermost_slots(children@),
    decreases children@, 0int,
{
    let count: usize = children.len();
    let ghost before = slot_models(slots@);
    assert(children@.take(0) =~= Seq::empty());
    assert(before =~= before + outermost_slots(children@.take(0)));
    for i in 0..count
        invariant
            count == children@.len(),
            slot_models(slots@) == before + outermost_slots(children@.take(i as int)),
    {
        let ghost edge = children@[i as int];
        let ghost held = slots@;
        assert(children@.take(i as int + 1).drop_last() =~= children@.take(i as int));
        assert(children@.take(i as int + 1).last() == edge);
        assert(decreases_to!(children@ => edge));
        match children.get(i) {
            Some(ContentRef::DiffSlot(slot)) => {
                slots.push(slot);
                assert(outermost_slots_of_edge(edge) == seq![slot@]);
                assert(slot_models(slots@) =~= slot_models(held) + seq![slot@]);
            },
            Some(ContentRef::Node(node)) => {
                assert(decreases_to!(children@ => edge->Node_0));
                assert(outermost_slots_of_edge(edge) == outermost_slots_of_node(node@));
                scan_node(node, slots);
            },
            None => {},
        }
        assert(slot_models(slots@) =~= before + (outermost_slots(children@.take(i as int))
            + outermost_slots_of_edge(edge)));
    }
    assert(children@.take(children@.len() as int) =~= children@);
}

fn scan_node<'a>(node: &'a ContentNode, slots: &mut Vec<&'a DiffSlot>)
    ensures
        slot_models(final(slots)@) == slot_models(old(slots)@) + outermost_slots_of_node(node@),
    decreases node@, 0int,
{
    match node {
        ContentNode::Xml(xml) => {
            assert(outermost_slots_of_xml(xml@) == outermost_slots(xml@.children));
            assert(node@ == NodeModel::Xml(xml@));
            assert(decreases_to!(node@ => node@->Xml_0.children));
            scan_mixed_children(xml.children(), slots);
        },
        ContentNode::Markdown(markdown) => {
            assert(node@ == NodeModel::Markdown(markdown@));
            assert(decreases_to!(node@ => node@->Markdown_0));
            scan_markdown(markdown, slots);
        },
        ContentNode::Text(_) | ContentNode::RawText(_) => {
            assert(slot_models(slots@) =~= slot_models(slots@) + Seq::empty());
        },
    }
}

fn scan_markdown<'a>(node: &'a MarkdownNode, slots: &mut Vec<&'a DiffSlot>)
    ensures
        slot_models(final(slots)@) == slot_models(old(slots)@) + outermost_slots_of_markdown(
            node@,
        ),
    decreases node@, 0int,
{
    match node {
        MarkdownNode::Heading(heading) => {
            assert(node@ == heading@);
            assert(decreases_to!(node@ => node@->Heading_children));
            scan_inline_children(heading.children(), slots);
        },
        MarkdownNode::Paragraph(paragraph) => {
            assert(node@ == paragraph@);
            assert(decreases_to!(node@ => node@->Paragraph_children));
            scan_inline_children(paragraph.children(), slots);
        },
        MarkdownNode::List(list) => {
            let items = list.items();
            let ghost models = item_models(items@);
            let ghost before = slot_models(slots@);
            assert(node@ == list@);
            assert(models.take(0) =~= Seq::empty());
            assert(before =~= before + outermost_slots_of_items(models.take(0)));
            for i in 0..items.len()
                invariant
                    models == item_models(items@),
                    node@ is List,
                    node@->items == models,
                    slot_models(slots@) == before + outermost_slots_of_items(
                        models.take(i as int),
                    ),
            {
                assert(models.take(i as int + 1).drop_last() =~= models.take(i as int));
                assert(models.take(i as int + 1).last() == items@[i as int]@);
                assert(decreases_to!(node@ => node@->items));
                assert(decreases_to!(node@ => node@->items[i as int]));
                scan_block_children(items[i].children(), slots);
                assert(slot_models(slots@) =~= before + (outermost_slots_of_items(
                    models.take(i as int),
                ) + outermost_slots(items@[i as int]@)));
            }
            assert(models.take(models.len() as int) =~= models);
        },
        MarkdownNode::Strong(strong) => {
            assert(node@ == strong@);
            assert(decreases_to!(node@ => node@->Strong_children));
            scan_inline_children(strong.children(), slots);
        },
        MarkdownNode::CodeBlock(_) | MarkdownNode::ThematicBreak | MarkdownNode::CodeSpan(_) => {
            assert(slot_models(slots@) =~= slot_models(slots@) + Seq::empty());
        },
    }
}

/// Fails on the first slot that repeats an earlier role.
fn validate_unique_outermost_roles(slots: &Vec<&DiffSlot>) -> (result: Result<
    (),
    PomResolutionError,
>)
    ensures
        match result {
            Ok(_) => unique_roles(slot_models(slots@)),
            Err(PomResolutionError::DuplicateUserDiffSlotRole { role }) => first_repeated_role(
                slot_models(slots@),
            ) == Some(role@),
            Err(_) => false,
        },
{
    let ghost models = slot_models(slots@);
    for i in 0..slots.len()
        invariant
            models == slot_models(slots@),
            forall|at: int| 0 <= at < i ==> !#[trigger] repeats_role(models, at),
    {
        for j in 0..i
            invariant
                i < slots@.len(),
                models == slot_models(slots@),
                forall|at: int| 0 <= at < i ==> !#[trigger] repeats_role(models, at),
                forall|k: int| 0 <= k < j ==> (#[trigger] models[k]).role != models[i as int].role,
        {
            if *slots[j].role() == *slots[i].role() {
                assert(models[j as int].role == models[i as int].role);
                assert(repeats_role(models, i as int));
                proof {
                    lemma_first_repeated(models, i as int);
                }
                return Err(
                    PomResolutionError::DuplicateUserDiffSlotRole { role: slots[i].role().clone() },
                );
            }
            assert(models[j as int].role != models[i as int].role);
        }
        assert(!repeats_role(models, i as int));
    }
    Ok(())
}

/// The role of the first slot that repeats an earlier one's.
pub open spec fn first_repeated_role(slots: Seq<SlotModel>) -> Option<Seq<char>>
    decreases slots.len(),
{
    if slots.len() == 0 {
        None
    } else {
        match first_repeated_role(slots.drop_last()) {
            Some(role) => Some(role),
            None => if repeats_role(slots, slots.len() - 1) {
                Some(slots.last().role)
            } else {
                None
            },
        }
    }
}

pub(crate) proof fn lemma_first_repeated(slots: Seq<SlotModel>, at: int)
    requires
        0 <= at < slots.len(),
        repeats_role(slots, at),
        forall|i: int| 0 <= i < at ==> !#[trigger] repeats_role(slots, i),
    ensures
        first_repeated_role(slots) == Some(slots[at].role),
    decreases slots.len(),
{
    let rest = slots.drop_last();
    if at < slots.len() - 1 {
        let k = choose|k: int| 0 <= k < at && (#[trigger] slots[k]).role == slots[at].role;
        assert(rest[k].role == rest[at].role);
        assert(repeats_role(rest, at));
        assert forall|i: int| 0 <= i < at implies !#[trigger] repeats_role(rest, i) by {
            assert(!repeats_role(slots, i));
            if repeats_role(rest, i) {
                let m = choose|m: int| 0 <= m < i && (#[trigger] rest[m]).role == rest[i].role;
                assert(slots[m].role == slots[i].role);
            }
        }
        lemma_first_repeated(rest, at);
    } else {
        lemma_no_repeated(slots, at);
    }
}

proof fn lemma_no_repeated(slots: Seq<SlotModel>, n: int)
    requires
        0 <= n <= slots.len(),
        forall|i: int| 0 <= i < n ==> !#[trigger] repeats_role(slots, i),
    ensures
        first_repeated_role(slots.take(n)) is None,
    decreases n,
{
    if n > 0 {
        let head = slots.take(n);
        assert(head.drop_last() =~= slots.take(n - 1));
        lemma_no_repeated(slots, n - 1);
        if repeats_role(head, n - 1) {
            let m = choose|m: int| 0 <= m < n - 1 && (#[trigger] head[m]).role == head[n - 1].role;
            assert(slots[m].role == slots[n - 1].role);
            assert(repeats_role(slots, n - 1));
        }
    } else {
        assert(slots.take(0).len() == 0);
    }
}

/// A role repeats if and only if there is a first role that does.
pub proof fn lemma_unique_roles(slots: Seq<SlotModel>)
    ensures
        unique_roles(slots) <==> first_repeated_role(slots) is None,
    decreases slots.len(),
{
    if unique_roles(slots) {
        lemma_no_repeated(slots, slots.len() as int);
        assert(slots.take(slots.len() as int) =~= slots);
    } else {
        let at = lemma_least_repeat(slots, 0);
        lemma_first_repeated(slots, at);
    }
}

proof fn lemma_least_repeat(slots: Seq<SlotModel>, from: int) -> (at: int)
    requires
        !unique_roles(slots),
        0 <= from <= slots.len(),
        forall|i: int| 0 <= i < from ==> !#[trigger] repeats_role(slots, i),
    ensures
        0 <= at < slots.len(),
        repeats_role(slots, at),
        forall|i: int| 0 <= i < at ==> !#[trigger] repeats_role(slots, i),
    decreases slots.len() - from,
{
    if from < slots.len() && repeats_role(slots, from) {
        from
    } else {
        lemma_least_repeat(slots, from + 1)
    }
}

/// A cursor that knows what was sent with these slots.
fn advance_cursor(previous: &UserDocumentCursor, slots: &Vec<&DiffSlot>) -> (next:
    UserDocumentCursor)
    ensures
        next@ == advanced(previous@, slot_models(slots@)),
{
    let mut next = previous.clone();
    let ghost models = slot_models(slots@);
    assert(models.take(0).len() == 0);
    for i in 0..slots.len()
        invariant
            models == slot_models(slots@),
            next@ == advanced(previous@, models.take(i as int)),
    {
        let slot = slots[i];
        assert(models.take(i as int + 1).drop_last() =~= models.take(i as int));
        assert(models.take(i as int + 1).last() == slot@);
        match slot.value() {
            Some(value) => {
                next.insert(slot.role().clone(), slot.strategy().clone(), value.clone());
            },
            None => {
                let _ = next.remove(slot.role());
            },
        }
    }
    assert(models.take(models.len() as int) =~= models);
    next
}

/// Resolves a system prompt to a complete, slot-free document.
///
/// System prompts do not emit deltas. Present slots are therefore expanded
/// recursively and absent slots are omitted, irrespective of their role or
/// strategy.
pub fn resolve_system_document(document: Document) -> (result: ResolvedDocument)
    ensures
        result@ == resolved(document@, None),
{
    proof {
        lemma_resolved_slot_free(document@, None);
    }
    ResolvedDocument::new(resolve_blocks(document.children(), None))
}

/// Validates and resolves an ephemeral turn artifact.
///
/// Artifacts do not own a stateful cursor, so accepting a slot here would
/// silently invent the wrong resolution semantics. Any slot at any depth is
/// rejected instead; a document without slots is complete as it is.
pub fn resolve_artifact_document(document: Document) -> (result: Result<
    ResolvedDocument,
    PomResolutionError,
>)
    ensures
        match result {
            Ok(result) => slot_free(document@) && result@ == document@,
            Err(error) => !slot_free(document@) && error
                == PomResolutionError::ArtifactContainsDiffSlot,
        },
{
    let mut slots: Vec<&DiffSlot> = Vec::new();
    scan_block_children(document.children(), &mut slots);
    assert(slot_models(slots@) =~= outermost_slots(document@));
    proof {
        lemma_slot_free_scan(document@);
    }
    if slots.is_empty() {
        Ok(ResolvedDocument::new(document.into_children()))
    } else {
        Err(PomResolutionError::ArtifactContainsDiffSlot)
    }
}

/// Resolves a current user document against the last committed baselines.
///
/// Ordinary content is emitted from the current document every turn. Only
/// explicitly marked outermost slots take part in the durable cursor.
pub fn resolve_user_document(document: Document, previous: &UserDocumentCursor) -> (result: Result<
    (ResolvedDocument, UserDocumentCursor),
    PomResolutionError,
>)
    ensures
        match result {
            Ok((resolution, next)) => unique_roles(outermost_slots(document@)) && resolution@
                == resolved(document@, Some(previous@)) && next@ == advanced(
                previous@,
                outermost_slots(document@),
            ),
            Err(PomResolutionError::DuplicateUserDiffSlotRole { role }) => !unique_roles(
                outermost_slots(document@),
            ) && first_repeated_role(outermost_slots(document@)) == Some(role@),
            Err(_) => false,
        },
{
    let mut slots: Vec<&DiffSlot> = Vec::new();
    scan_block_children(document.children(), &mut slots);
    assert(slot_models(slots@) =~= outermost_slots(document@));
    proof {
        lemma_unique_roles(outermost_slots(document@));
        lemma_resolved_slot_free(document@, Some(previous@));
    }
    match validate_unique_outermost_roles(&slots) {
        Ok(_) => {
            let children = resolve_blocks(document.children(), Some(previous));
            Ok((ResolvedDocument::new(children), advance_cursor(previous, &slots)))
        },
        Err(error) => Err(error),
    }
}

/// Resolution leaves no slot at any depth.
pub proof fn lemma_resolved_slot_free(children: Seq<EdgeModel>, known: Option<Baselines>)
    ensures
        slot_free(resolved(children, known)),
    decreases resolution_rank(known), children,
{
    if children.len() > 0 {
        lemma_resolved_slot_free(children.drop_last(), known);
        lemma_resolved_edge_slot_free(children.last(), known);
        let before = resolved(children.drop_last(), known);
        match resolved_edge(children.last(), known) {
            Some(edge) => {
                assert(slot_free(push_normalized(before, edge)));
            },
            None => {},
        }
    }
}

proof fn lemma_resolved_edge_slot_free(edge: EdgeModel, known: Option<Baselines>)
    ensures
        resolved_edge(edge, known) is Some ==> slot_free_edge(resolved_edge(edge, known)->0),
    decreases resolution_rank(known), edge,
{
    match edge {
        EdgeModel::Node(node) => {
            lemma_resolved_node_slot_free(node, known);
        },
        EdgeModel::Slot(slot) => {
            lemma_resolved_slot_slot_free(slot, known);
            if let Some(node) = resolved_slot(slot, known) {
                assert(slot_free_node(NodeModel::Xml(node)));
                assert(slot_free_edge(xml_edge(node)));
            }
        },
    }
}

proof fn lemma_resolved_slot_slot_free(slot: SlotModel, known: Option<Baselines>)
    ensures
        resolved_slot(slot, known) is Some ==> slot_free_xml(resolved_slot(slot, known)->0),
    decreases resolution_rank(known), slot,
{
    match known {
        Some(baselines) => {
            if let Some(update) = slot_update(slot, baselines) {
                lemma_resolved_xml_slot_free(update, None);
            }
        },
        None => {
            if let Some(value) = slot.value {
                lemma_resolved_xml_slot_free(value, None);
            }
        },
    }
}

proof fn lemma_resolved_xml_slot_free(node: XmlModel, known: Option<Baselines>)
    ensures
        slot_free_xml(resolved_xml(node, known)),
    decreases resolution_rank(known), node,
{
    lemma_resolved_slot_free(node.children, known);
}

proof fn lemma_resolved_node_slot_free(node: NodeModel, known: Option<Baselines>)
    ensures
        resolved_node(node, known) is Some ==> slot_free_node(resolved_node(node, known)->0),
    decreases resolution_rank(known), node,
{
    match node {
        NodeModel::Markdown(node) => {
            lemma_resolved_markdown_slot_free(node, known);
        },
        NodeModel::Xml(node) => {
            lemma_resolved_xml_slot_free(node, known);
        },
        _ => {},
    }
}

proof fn lemma_resolved_items_slot_free(items: Seq<Seq<EdgeModel>>, known: Option<Baselines>)
    ensures
        forall|i: int|
            0 <= i < resolved_items(items, known).len() ==> slot_free(
                #[trigger] resolved_items(items, known)[i],
            ),
    decreases resolution_rank(known), items,
{
    if items.len() > 0 {
        let before = resolved_items(items.drop_last(), known);
        let item = resolved(items.last(), known);
        lemma_resolved_items_slot_free(items.drop_last(), known);
        lemma_resolved_slot_free(items.last(), known);
        assert forall|i: int|
            0 <= i < resolved_items(items, known).len() implies slot_free(
            #[trigger] resolved_items(items, known)[i],
        ) by {
            if i < before.len() {
                assert(resolved_items(items, known)[i] == before[i]);
                assert(slot_free(before[i]));
            } else {
                assert(resolved_items(items, known)[i] == item);
            }
        }
    }
}

proof fn lemma_resolved_markdown_slot_free(node: MarkdownModel, known: Option<Baselines>)
    ensures
        resolved_markdown(node, known) is Some ==> slot_free_markdown(
            resolved_markdown(node, known)->0,
        ),
    decreases resolution_rank(known), node,
{
    match node {
        MarkdownModel::Heading { level, children } => {
            lemma_resolved_slot_free(children, known);
            if let Some(heading) = resolved_markdown(node, known) {
                assert(heading == MarkdownModel::Heading {
                    level,
                    children: resolved(children, known),
                });
                assert(slot_free_markdown(heading));
            }
        },
        MarkdownModel::Paragraph { children } => {
            lemma_resolved_slot_free(children, known);
        },
        MarkdownModel::List { kind, items } => {
            lemma_resolved_items_slot_free(items, known);
            if let Some(list) = resolved_markdown(node, known) {
                let inner = resolved_items(items, known);
                assert(list == MarkdownModel::List { kind, items: inner });
                assert forall|i: int| 0 <= i < inner.len() implies slot_free(
                    #[trigger] inner[i],
                ) by {
                    assert(slot_free(resolved_items(items, known)[i]));
                }
                assert(slot_free_markdown(list));
            }
        },
        MarkdownModel::Strong { children } => {
            lemma_resolved_slot_free(children, known);
        },
        _ => {},
    }
}

/// Children hold no slot at any depth if and only if a scan finds none.
pub proof fn lemma_slot_free_scan(children: Seq<EdgeModel>)
    ensures
        slot_free(children) <==> outermost_slots(children).len() == 0,
    decreases children,
{
    if children.len() > 0 {
        lemma_slot_free_scan(children.drop_last());
        lemma_slot_free_scan_edge(children.last());
        if slot_free(children) {
            assert(slot_free_edge(children[children.len() - 1]));
            assert(slot_free(children.drop_last()));
        } else if slot_free(children.drop_last()) && slot_free_edge(children.last()) {
            assert forall|i: int| 0 <= i < children.len() implies slot_free_edge(
                #[trigger] children[i],
            ) by {
                if i < children.len() - 1 {
                    assert(slot_free_edge(children.drop_last()[i]));
                }
            }
        }
    }
}

proof fn lemma_slot_free_scan_edge(edge: EdgeModel)
    ensures
        slot_free_edge(edge) <==> outermost_slots_of_edge(edge).len() == 0,
    decreases edge,
{
    match edge {
        EdgeModel::Node(NodeModel::Xml(node)) => {
            lemma_slot_free_scan(node.children);
            assert(outermost_slots_of_node(edge->Node_0) == outermost_slots_of_xml(node));
            assert(slot_free_node(edge->Node_0) == slot_free_xml(node));
            assert(outermost_slots_of_xml(node) == outermost_slots(node.children));
        },
        EdgeModel::Node(NodeModel::Markdown(node)) => {
            lemma_slot_free_scan_markdown(node);
            assert(outermost_slots_of_node(edge->Node_0) == outermost_slots_of_markdown(node));
            assert(slot_free_node(edge->Node_0) == slot_free_markdown(node));
        },
        EdgeModel::Node(node) => {
            assert(slot_free_node(node));
            assert(outermost_slots_of_node(node).len() == 0);
        },
        EdgeModel::Slot(_) => {},
    }
}

proof fn lemma_slot_free_scan_items(items: Seq<Seq<EdgeModel>>)
    ensures
        (forall|i: int| 0 <= i < items.len() ==> slot_free(#[trigger] items[i])) <==>
            outermost_slots_of_items(items).len() == 0,
    decreases items,
{
    if items.len() > 0 {
        let rest = items.drop_last();
        lemma_slot_free_scan_items(rest);
        lemma_slot_free_scan(items.last());
        if forall|i: int| 0 <= i < items.len() ==> slot_free(#[trigger] items[i]) {
            assert(slot_free(items[items.len() - 1]));
            assert forall|i: int| 0 <= i < rest.len() implies slot_free(#[trigger] rest[i]) by {
                assert(slot_free(items[i]));
            }
        } else if (forall|i: int| 0 <= i < rest.len() ==> slot_free(#[trigger] rest[i]))
            && slot_free(items.last()) {
            assert forall|i: int| 0 <= i < items.len() implies slot_free(#[trigger] items[i]) by {
                if i < items.len() - 1 {
                    assert(slot_free(rest[i]));
                }
            }
        }
    }
}

proof fn lemma_slot_free_scan_markdown(node: MarkdownModel)
    ensures
        slot_free_markdown(node) <==> outermost_slots_of_markdown(node).len() == 0,
    decreases node,
{
    match node {
        MarkdownModel::Heading { level, children } => {
            lemma_slot_free_scan(children);
        },
        MarkdownModel::Paragraph { children } => {
            lemma_slot_free_scan(children);
        },
        MarkdownModel::List { kind, items } => {
            lemma_slot_free_scan_items(items);
        },
        MarkdownModel::Strong { children } => {
            lemma_slot_free_scan(children);
        },
        _ => {},
    }
}

} // verus!
