//! What resolution puts in the place of slots.

use vstd::prelude::*;
use crate::pom::markdown::{HeadingLevel, ListKind};
use crate::pom::model::{
    is_text, push_normalized, text_edge, text_of, EdgeModel, MarkdownModel, NodeModel, SlotModel,
    XmlModel,
};
use crate::pom_diff::{deletion, diff_value};
use crate::pom_diff_laws::is_delta_of;
use crate::pom_resolution::{
    first_repeated_role, outermost_slots, outermost_slots_of_edge,
    outermost_slots_of_items, outermost_slots_of_markdown, outermost_slots_of_node, repeats_role,
    resolved, resolved_edge, resolved_items, resolved_markdown, resolved_node, resolved_slot,
    resolved_xml, unique_roles, Baselines,
};

verus! {

/// Whether a node deletes what a role held: an element of that role, marked as a change, that
/// holds `none` and nothing else.
pub open spec fn deletes(node: XmlModel, role: Seq<char>) -> bool {
    &&& is_delta_of(node, role)
    &&& node.children.len() == 1
    &&& node.children[0] matches EdgeModel::Node(NodeModel::Xml(none)) && {
        &&& none.name == "none"@
        &&& none.attributes.len() == 0
        &&& none.children.len() == 0
    }
}

proof fn lemma_deletion_resolves(role: Seq<char>, known: Option<Baselines>)
    ensures
        deletes(resolved_xml(deletion(role), known), role),
{
    reveal_with_fuel(resolved, 3);
    reveal_with_fuel(resolved_xml, 3);
    reveal_with_fuel(resolved_node, 3);
    reveal_with_fuel(resolved_edge, 3);
    let children = deletion(role).children;
    let none = children[0]->Node_0->Xml_0;
    assert(children.drop_last() =~= Seq::empty());
    assert(resolved(none.children, known) =~= Seq::empty());
    assert(resolved_xml(none, known).children =~= Seq::empty());
    assert(resolved(children.drop_last(), known) =~= Seq::empty());
    let edge = resolved_edge(children.last(), known);
    assert(edge == Some(EdgeModel::Node(NodeModel::Xml(resolved_xml(none, known)))));
    assert(resolved(children, known) =~= seq![edge->Some_0]);
}

/// What a slot of a user document stands as. An absent one is a deletion where its role is
/// known, and nothing otherwise. A present one is its whole value, unless a value of its
/// role is known under the same strategy: then it is the change from that value, or nothing
/// where there is none. Slots inside of what is sent are expanded.
pub proof fn law_slots_stand_as_what_is_due(slot: SlotModel, known: Baselines)
    ensures
        ({
            let stands = resolved_slot(slot, Some(known));
            let comparable = known.contains_key(slot.role) && known[slot.role].strategy
                == slot.strategy;
            &&& slot.value is None && !known.contains_key(slot.role) ==> stands is None
            &&& slot.value is None && known.contains_key(slot.role) ==> stands is Some && deletes(
                stands->Some_0,
                slot.role,
            )
            &&& slot.value is Some && !comparable ==> stands == Some(
                resolved_xml(slot.value->Some_0, None),
            )
            &&& slot.value is Some && comparable ==> match diff_value(
                slot.value->Some_0,
                known[slot.role].value,
                slot.strategy,
            ) {
                Some(change) => stands == Some(resolved_xml(change, None)),
                None => stands is None,
            }
        }),
{
    lemma_deletion_resolves(slot.role, None);
}

/// Without a cursor a present slot stands as its value, with the slots inside of it
/// expanded, and an absent one as nothing.
pub proof fn law_slots_of_complete_documents_are_expanded(slot: SlotModel)
    ensures
        slot.value is Some ==> resolved_slot(slot, None) == Some(
            resolved_xml(slot.value->Some_0, None),
        ),
        slot.value is None ==> resolved_slot(slot, None) is None,
{
}

proof fn lemma_pushed_behind(before: Seq<EdgeModel>, after: Seq<EdgeModel>, edge: EdgeModel)
    requires
        before.len() > 0,
        !is_text(before.last()),
    ensures
        push_normalized(before + after, edge) == before + push_normalized(after, edge),
{
    let all = before + after;
    if after.len() == 0 {
        assert(all =~= before);
        assert(all.push(edge) =~= before + after.push(edge));
    } else {
        assert(all.last() == after.last());
        assert(all.push(edge) =~= before + after.push(edge));
        if is_text(edge) && is_text(after.last()) {
            let joined = text_edge(text_of(after.last()) + text_of(edge));
            assert(all.drop_last().push(joined) =~= before + after.drop_last().push(joined));
        }
    }
}

proof fn lemma_resolved_behind(
    before: Seq<EdgeModel>,
    edge: EdgeModel,
    after: Seq<EdgeModel>,
    known: Option<Baselines>,
)
    requires
        resolved_edge(edge, known) is Some,
        !is_text(resolved_edge(edge, known)->Some_0),
    ensures
        resolved(before.push(edge) + after, known) == resolved(before, known).push(
            resolved_edge(edge, known)->Some_0,
        ) + resolved(after, known),
    decreases after.len(),
{
    let start = before.push(edge);
    let head = resolved(before, known).push(resolved_edge(edge, known)->Some_0);
    assert(start.drop_last() =~= before);
    assert(resolved(start, known) == head);
    if after.len() == 0 {
        assert(start + after =~= start);
        assert(head + Seq::<EdgeModel>::empty() =~= head);
    } else {
        let rest = after.drop_last();
        lemma_resolved_behind(before, edge, rest, known);
        assert((start + after).drop_last() =~= start + rest);
        assert((start + after).last() == after.last());
        if let Some(last) = resolved_edge(after.last(), known) {
            lemma_pushed_behind(head, resolved(rest, known), last);
        }
    }
}

proof fn lemma_resolved_without(
    before: Seq<EdgeModel>,
    edge: EdgeModel,
    after: Seq<EdgeModel>,
    known: Option<Baselines>,
)
    requires
        resolved_edge(edge, known) is None,
    ensures
        resolved(before.push(edge) + after, known) == resolved(before + after, known),
    decreases after.len(),
{
    let start = before.push(edge);
    assert(start.drop_last() =~= before);
    if after.len() == 0 {
        assert(start + after =~= start);
        assert(before + after =~= before);
    } else {
        let rest = after.drop_last();
        lemma_resolved_without(before, edge, rest, known);
        assert((start + after).drop_last() =~= start + rest);
        assert((before + after).drop_last() =~= before + rest);
        assert((start + after).last() == after.last());
        assert((before + after).last() == after.last());
    }
}

/// A slot that has something to say says it in its place, between what stands before it and
/// what stands behind it. One that has nothing to say leaves no trace.
pub proof fn law_slots_stand_in_their_place(
    before: Seq<EdgeModel>,
    slot: SlotModel,
    after: Seq<EdgeModel>,
    known: Option<Baselines>,
)
    ensures
        match resolved_slot(slot, known) {
            Some(node) => resolved(before.push(EdgeModel::Slot(slot)) + after, known) == resolved(
                before,
                known,
            ).push(EdgeModel::Node(NodeModel::Xml(node))) + resolved(after, known),
            None => resolved(before.push(EdgeModel::Slot(slot)) + after, known) == resolved(
                before + after,
                known,
            ),
        },
{
    let edge = EdgeModel::Slot(slot);
    match resolved_slot(slot, known) {
        Some(node) => {
            assert(resolved_edge(edge, known) == Some(EdgeModel::Node(NodeModel::Xml(node))));
            lemma_resolved_behind(before, edge, after, known);
        },
        None => {
            assert(resolved_edge(edge, known) is None);
            lemma_resolved_without(before, edge, after, known);
        },
    }
}

/// An absent slot whose role is known stands in the resolved document as the deletion of
/// that role, in its place.
pub proof fn law_deletions_are_said_in_the_document(
    before: Seq<EdgeModel>,
    slot: SlotModel,
    after: Seq<EdgeModel>,
    known: Baselines,
)
    requires
        slot.value is None,
        known.contains_key(slot.role),
    ensures
        ({
            let document = resolved(before.push(EdgeModel::Slot(slot)) + after, Some(known));
            let at = resolved(before, Some(known)).len() as int;
            &&& document.take(at) == resolved(before, Some(known))
            &&& document.skip(at + 1) == resolved(after, Some(known))
            &&& document[at] matches EdgeModel::Node(NodeModel::Xml(node)) && deletes(
                node,
                slot.role,
            )
        }),
{
    law_slots_stand_as_what_is_due(slot, known);
    law_slots_stand_in_their_place(before, slot, after, Some(known));
    let head = resolved(before, Some(known));
    let tail = resolved(after, Some(known));
    let node = EdgeModel::Node(NodeModel::Xml(resolved_slot(slot, Some(known))->Some_0));
    let document = head.push(node) + tail;
    assert(document.take(head.len() as int) =~= head);
    assert(document.skip(head.len() as int + 1) =~= tail);
}

/// Elements are kept in their place, with everything but the slots inside of them as it was.
pub proof fn law_elements_stay_in_their_place(
    before: Seq<EdgeModel>,
    node: XmlModel,
    after: Seq<EdgeModel>,
    known: Option<Baselines>,
)
    ensures
        resolved(before.push(EdgeModel::Node(NodeModel::Xml(node))) + after, known) == resolved(
            before,
            known,
        ).push(EdgeModel::Node(NodeModel::Xml(resolved_xml(node, known)))) + resolved(after, known),
        resolved_xml(node, known).name == node.name,
        resolved_xml(node, known).attributes == node.attributes,
        resolved_xml(node, known).metadata == node.metadata,
        resolved_xml(node, known).children == resolved(node.children, known),
        resolved(Seq::empty(), known) == Seq::<EdgeModel>::empty(),
{
    let edge = EdgeModel::Node(NodeModel::Xml(node));
    assert(resolved_node(edge->Node_0, known) == Some(NodeModel::Xml(resolved_xml(node, known))));
    assert(resolved_edge(edge, known) == Some(
        EdgeModel::Node(NodeModel::Xml(resolved_xml(node, known))),
    ));
    lemma_resolved_behind(before, edge, after, known);
}

/// Markdown is kept in its place, unless it lost everything it held.
pub proof fn law_markdown_stays_in_its_place(
    before: Seq<EdgeModel>,
    node: MarkdownModel,
    after: Seq<EdgeModel>,
    known: Option<Baselines>,
)
    ensures
        match resolved_markdown(node, known) {
            Some(kept) => resolved(
                before.push(EdgeModel::Node(NodeModel::Markdown(node))) + after,
                known,
            ) == resolved(before, known).push(EdgeModel::Node(NodeModel::Markdown(kept)))
                + resolved(after, known),
            None => resolved(
                before.push(EdgeModel::Node(NodeModel::Markdown(node))) + after,
                known,
            ) == resolved(before + after, known),
        },
{
    let edge = EdgeModel::Node(NodeModel::Markdown(node));
    match resolved_markdown(node, known) {
        Some(kept) => {
            assert(resolved_node(edge->Node_0, known) == Some(NodeModel::Markdown(kept)));
            assert(resolved_edge(edge, known) == Some(EdgeModel::Node(NodeModel::Markdown(kept))));
            lemma_resolved_behind(before, edge, after, known);
        },
        None => {
            assert(resolved_node(edge->Node_0, known) is None);
            assert(resolved_edge(edge, known) is None);
            lemma_resolved_without(before, edge, after, known);
        },
    }
}

/// Raw text is kept in its place as it is.
pub proof fn law_raw_text_stays_in_its_place(
    before: Seq<EdgeModel>,
    text: Seq<char>,
    after: Seq<EdgeModel>,
    known: Option<Baselines>,
)
    ensures
        resolved(before.push(EdgeModel::Node(NodeModel::RawText(text))) + after, known) == resolved(
            before,
            known,
        ).push(EdgeModel::Node(NodeModel::RawText(text))) + resolved(after, known),
{
    let edge = EdgeModel::Node(NodeModel::RawText(text));
    assert(resolved_node(edge->Node_0, known) == Some(edge->Node_0));
    assert(resolved_edge(edge, known) == Some(edge));
    lemma_resolved_behind(before, edge, after, known);
}

/// Text is kept behind what stands before it, joined to text that now stands there.
pub proof fn law_text_stays_in_its_place(
    before: Seq<EdgeModel>,
    text: Seq<char>,
    known: Option<Baselines>,
)
    ensures
        ({
            let was = resolved(before, known);
            let now = resolved(before.push(EdgeModel::Node(NodeModel::Text(text))), known);
            let joins = was.len() > 0 && (was.last() matches EdgeModel::Node(NodeModel::Text(_)));
            &&& text.len() == 0 ==> now == was
            &&& text.len() > 0 && !joins ==> now == was.push(EdgeModel::Node(NodeModel::Text(text)))
            &&& text.len() > 0 && joins ==> now == was.drop_last().push(
                EdgeModel::Node(NodeModel::Text(was.last()->Node_0->Text_0 + text)),
            )
        }),
{
    let edge = EdgeModel::Node(NodeModel::Text(text));
    assert(before.push(edge).drop_last() =~= before);
    assert(resolved_node(edge->Node_0, known) == Some(edge->Node_0));
    assert(resolved_edge(edge, known) == Some(edge));
}

/// Markdown keeps what it is. It vanishes exactly where it held something and holds nothing
/// any more.
pub proof fn law_markdown_vanishes_when_it_is_emptied(
    level: HeadingLevel,
    children: Seq<EdgeModel>,
    kind: ListKind,
    items: Seq<Seq<EdgeModel>>,
    known: Option<Baselines>,
)
    ensures
        ({
            let inner = resolved(children, known);
            let gone = children.len() > 0 && inner.len() == 0;
            let left = resolved_items(items, known);
            let heading = MarkdownModel::Heading { level, children };
            let paragraph = MarkdownModel::Paragraph { children };
            let strong = MarkdownModel::Strong { children };
            let list = MarkdownModel::List { kind, items };
            &&& gone ==> resolved_markdown(heading, known) is None && resolved_markdown(
                paragraph,
                known,
            ) is None && resolved_markdown(strong, known) is None
            &&& !gone ==> resolved_markdown(heading, known) == Some(
                MarkdownModel::Heading { level, children: inner },
            )
            &&& !gone ==> resolved_markdown(paragraph, known) == Some(
                MarkdownModel::Paragraph { children: inner },
            )
            &&& !gone ==> resolved_markdown(strong, known) == Some(
                MarkdownModel::Strong { children: inner },
            )
            &&& items.len() > 0 && left.len() == 0 ==> resolved_markdown(list, known) is None
            &&& items.len() == 0 || left.len() > 0 ==> resolved_markdown(list, known) == Some(
                MarkdownModel::List { kind, items: left },
            )
            &&& resolved_markdown(MarkdownModel::ThematicBreak, known) == Some(
                MarkdownModel::ThematicBreak,
            )
        }),
{
}

/// Code has no slots and stays as it is.
pub proof fn law_code_stays_as_it_is(
    language: Option<Seq<char>>,
    body: Seq<char>,
    known: Option<Baselines>,
)
    ensures
        resolved_markdown(MarkdownModel::CodeBlock { language, body }, known) == Some(
            MarkdownModel::CodeBlock { language, body },
        ),
        resolved_markdown(MarkdownModel::CodeSpan { body }, known) == Some(
            MarkdownModel::CodeSpan { body },
        ),
{
}

/// The items of a list stay, in order and resolved, but for those that held something and
/// hold nothing any more.
pub proof fn law_items_vanish_when_they_are_emptied(
    items: Seq<Seq<EdgeModel>>,
    known: Option<Baselines>,
)
    ensures
        resolved_items(items, known) == items.filter(
            |item: Seq<EdgeModel>| item.len() == 0 || resolved(item, known).len() > 0,
        ).map_values(|item: Seq<EdgeModel>| resolved(item, known)),
    decreases items.len(),
{
    reveal(Seq::filter);
    let keep = |item: Seq<EdgeModel>| item.len() == 0 || resolved(item, known).len() > 0;
    let resolve = |item: Seq<EdgeModel>| resolved(item, known);
    if items.len() > 0 {
        law_items_vanish_when_they_are_emptied(items.drop_last(), known);
    }
    assert(resolved_items(items, known) =~= items.filter(keep).map_values(resolve));
}

/// The outermost slots are all slots outside of other slots, in document order.
pub proof fn law_outermost_slots_are_in_order(
    first: Seq<EdgeModel>,
    second: Seq<EdgeModel>,
    slot: SlotModel,
)
    ensures
        outermost_slots(first + second) == outermost_slots(first) + outermost_slots(second),
        outermost_slots(Seq::empty()) == Seq::<SlotModel>::empty(),
        outermost_slots(seq![EdgeModel::Slot(slot)]) == seq![slot],
    decreases second.len(),
{
    let one = seq![EdgeModel::Slot(slot)];
    assert(one.drop_last() =~= Seq::empty());
    assert(outermost_slots(one.drop_last()) =~= Seq::empty());
    assert(outermost_slots_of_edge(one.last()) == seq![slot]);
    assert(Seq::<SlotModel>::empty() + seq![slot] =~= seq![slot]);
    if second.len() == 0 {
        assert(first + second =~= first);
        assert(outermost_slots(first) + Seq::<SlotModel>::empty() =~= outermost_slots(first));
    } else {
        let rest = second.drop_last();
        law_outermost_slots_are_in_order(first, rest, slot);
        assert((first + second).drop_last() =~= first + rest);
        assert((first + second).last() == second.last());
        let last = outermost_slots_of_edge(second.last());
        assert(outermost_slots(first) + outermost_slots(rest) + last =~= outermost_slots(first) + (
        outermost_slots(rest) + last));
    }
}

/// The slots inside of elements and of Markdown are found at every depth.
pub proof fn law_slots_are_found_at_every_depth(
    node: XmlModel,
    level: HeadingLevel,
    children: Seq<EdgeModel>,
    kind: ListKind,
    items: Seq<Seq<EdgeModel>>,
    text: Seq<char>,
)
    ensures
        outermost_slots_of_edge(EdgeModel::Node(NodeModel::Xml(node))) == outermost_slots(
            node.children,
        ),
        outermost_slots_of_edge(
            EdgeModel::Node(NodeModel::Markdown(MarkdownModel::Heading { level, children })),
        ) == outermost_slots(children),
        outermost_slots_of_edge(
            EdgeModel::Node(NodeModel::Markdown(MarkdownModel::Paragraph { children })),
        ) == outermost_slots(children),
        outermost_slots_of_edge(
            EdgeModel::Node(NodeModel::Markdown(MarkdownModel::Strong { children })),
        ) == outermost_slots(children),
        outermost_slots_of_edge(
            EdgeModel::Node(NodeModel::Markdown(MarkdownModel::List { kind, items })),
        ) == outermost_slots_of_items(items),
        outermost_slots_of_items(items.push(children)) == outermost_slots_of_items(items)
            + outermost_slots(children),
        outermost_slots_of_items(Seq::empty()) == Seq::<SlotModel>::empty(),
        outermost_slots_of_edge(EdgeModel::Node(NodeModel::Text(text))).len() == 0,
        outermost_slots_of_edge(EdgeModel::Node(NodeModel::RawText(text))).len() == 0,
{
    reveal_with_fuel(outermost_slots_of_edge, 2);
    reveal_with_fuel(outermost_slots_of_node, 2);
    reveal_with_fuel(outermost_slots_of_markdown, 2);
    reveal_with_fuel(crate::pom_resolution::outermost_slots_of_xml, 2);
    assert(items.push(children).drop_last() =~= items);
}

/// A document that holds two outermost slots of one role is refused, and the role is that of
/// the first slot that repeats an earlier one.
pub proof fn law_repeated_roles_are_refused(slots: Seq<SlotModel>, at: int)
    requires
        0 <= at < slots.len(),
        exists|i: int| 0 <= i < at && (#[trigger] slots[i]).role == slots[at].role,
        forall|i: int, j: int|
            0 <= i < j < at ==> (#[trigger] slots[i]).role != (#[trigger] slots[j]).role,
    ensures
        !unique_roles(slots),
        first_repeated_role(slots) == Some(slots[at].role),
{
    assert(repeats_role(slots, at));
    assert forall|i: int| 0 <= i < at implies !#[trigger] repeats_role(slots, i) by {
        if repeats_role(slots, i) {
            let k = choose|k: int| 0 <= k < i && (#[trigger] slots[k]).role == slots[i].role;
            assert(slots[k].role != slots[i].role);
        }
    }
    crate::pom_resolution::lemma_first_repeated(slots, at);
}

/// Slots of different roles are all taken.
pub proof fn law_distinct_roles_are_taken(slots: Seq<SlotModel>)
    ensures
        unique_roles(slots) <==> forall|i: int, j: int|
            0 <= i < j < slots.len() ==> (#[trigger] slots[i]).role != (#[trigger] slots[j]).role,
{
    if unique_roles(slots) {
        assert forall|i: int, j: int| 0 <= i < j < slots.len() implies (#[trigger] slots[i]).role
            != (#[trigger] slots[j]).role by {
            assert(!repeats_role(slots, j));
        }
    }
}

} // verus!
