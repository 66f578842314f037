//! What diffing, resolution and rendering promise together.

use vstd::prelude::*;
use crate::pom::equivalence::{law_edges_equal_to_themselves, law_xml_equal_to_itself};
use crate::pom::model::{
    edges_equiv, is_text, normalized, push_normalized, slot_free, slot_free_edge,
    slot_free_markdown, slot_free_node, slot_free_xml, text_of, well_formed_blocks,
    well_formed_edge, well_formed_inlines, well_formed_markdown, well_formed_mixed,
    well_formed_node, well_formed_slot, well_formed_xml, is_block_markdown, is_block_node,
    is_inline_node, single_line, xml_edge, xml_equiv, EdgeModel, MarkdownModel, NodeModel,
    SlotModel, StrategyModel, XmlModel,
};
use crate::pom_cursor::BaselineModel;
use crate::pom_diff::{
    diff_documents, diff_value, entry_before, full_update, insert_entry, is_xml, operation,
    removals, sort_entries, text_before, xml_of, EntryModel,
};
use crate::pom_renderer::{
    code_fence, indentation_encoded, indented_lines, is_indented, is_xml_character, markdown_char,
    markdown_prefix, max_run, space_count, trailing_run, xml_attribute, xml_attribute_char,
    xml_text, xml_text_char, RenderFault,
};
use crate::pom_resolution::{
    advanced, lemma_resolved_slot_free, repeats_role, resolved, resolved_edge, resolved_items,
    resolved_markdown, resolved_node, resolved_slot, resolved_xml, slot_update, unique_roles,
    Baselines,
};

verus! {

/// A value that did not change gives no patch, whatever the strategy.
pub proof fn law_unchanged_value_has_no_patch(
    current: XmlModel,
    previous: XmlModel,
    strategy: StrategyModel,
)
    requires
        xml_equiv(current, previous),
    ensures
        diff_value(current, previous, strategy) is None,
{
    reveal_with_fuel(diff_value, 2);
}

/// A document that did not change gives no patch, and its complete update is
/// itself.
pub proof fn law_unchanged_document_has_no_patch(document: Seq<EdgeModel>)
    ensures
        diff_documents(document, document) is None,
        full_update(document, document) == document,
{
    law_edges_equal_to_themselves(document);
}

/// Only XML nodes are ever removed: there is one removal for each, in order, and
/// a document without XML nodes disappears in silence.
pub proof fn law_only_xml_is_removed(children: Seq<EdgeModel>)
    ensures
        forall|i: int|
            0 <= i < removals(children).len() ==> exists|j: int|
                0 <= j < children.len() && is_xml(#[trigger] children[j])
                    && #[trigger] removals(children)[i] == xml_edge(
                    operation("remove"@, xml_of(children[j])),
                ),
        (forall|j: int| 0 <= j < children.len() ==> !is_xml(#[trigger] children[j])) ==> removals(
            children,
        ).len() == 0,
    decreases children.len(),
{
    if children.len() > 0 {
        let rest = children.drop_last();
        law_only_xml_is_removed(rest);
        assert forall|i: int| 0 <= i < removals(children).len() implies exists|j: int|
            0 <= j < children.len() && is_xml(#[trigger] children[j])
                && #[trigger] removals(children)[i] == xml_edge(
                operation("remove"@, xml_of(children[j])),
            ) by {
            if i < removals(rest).len() {
                assert(removals(children)[i] == removals(rest)[i]);
                let j = choose|j: int|
                    0 <= j < rest.len() && is_xml(#[trigger] rest[j]) && removals(rest)[i]
                        == xml_edge(operation("remove"@, xml_of(rest[j])));
                assert(children[j] == rest[j]);
            } else {
                assert(children[children.len() - 1] == children.last());
            }
        }
        if forall|j: int| 0 <= j < children.len() ==> !is_xml(#[trigger] children[j]) {
            assert forall|j: int| 0 <= j < rest.len() implies !is_xml(#[trigger] rest[j]) by {
                assert(!is_xml(children[j]));
            }
            assert(!is_xml(children[children.len() - 1]));
        }
    }
}

/// A document without XML nodes that becomes empty gives no patch.
pub proof fn law_text_disappears_in_silence(previous: Seq<EdgeModel>)
    requires
        forall|j: int| 0 <= j < previous.len() ==> !is_xml(#[trigger] previous[j]),
    ensures
        diff_documents(Seq::empty(), previous) is None,
{
    law_only_xml_is_removed(previous);
    assert(removals(previous) + Seq::<EdgeModel>::empty() =~= Seq::empty());
    assert(crate::pom_diff::root_patches(Seq::empty(), previous, 0).len() == 0);
}

/// A change that is no stable layout starts with the removals of the earlier
/// document and ends with the complete current one.
pub proof fn law_fallback_is_complete(current: Seq<EdgeModel>, previous: Seq<EdgeModel>)
    requires
        !edges_equiv(current, previous),
        !crate::pom_diff::stable_layout(current, previous),
        current.len() > 0,
    ensures
        diff_documents(current, previous) == Some(removals(previous) + current),
        full_update(current, previous) == removals(previous) + current,
{
}

/// Dictionary order is transitive.
pub proof fn law_text_order_transitive(a: Seq<char>, b: Seq<char>, c: Seq<char>)
    requires
        text_before(a, b),
        text_before(b, c),
    ensures
        text_before(a, c),
    decreases a.len(),
{
    if a.len() > 0 && a[0] == b[0] && b[0] == c[0] {
        law_text_order_transitive(a.drop_first(), b.drop_first(), c.drop_first());
    }
}

/// Of two different texts exactly one stands before the other.
pub proof fn law_text_order_total(a: Seq<char>, b: Seq<char>)
    ensures
        !(text_before(a, b) && text_before(b, a)),
        a != b ==> text_before(a, b) || text_before(b, a),
        !text_before(a, a),
    decreases a.len(),
{
    if a.len() > 0 && b.len() > 0 && a[0] == b[0] {
        law_text_order_total(a.drop_first(), b.drop_first());
        if a.drop_first() == b.drop_first() {
            assert(a =~= seq![a[0]] + a.drop_first());
            assert(b =~= seq![b[0]] + b.drop_first());
        }
    }
    if a.len() == 0 && b.len() == 0 {
        assert(a =~= b);
    }
    if a.len() > 0 {
        lemma_not_before_itself(a);
    }
}

proof fn lemma_not_before_itself(a: Seq<char>)
    ensures
        !text_before(a, a),
    decreases a.len(),
{
    if a.len() > 0 {
        lemma_not_before_itself(a.drop_first());
    }
}

/// No entry stands behind one that it precedes.
pub open spec fn sorted_by_key(entries: Seq<EntryModel>) -> bool {
    forall|i: int, j: int|
        0 <= i < j < entries.len() ==> !entry_before(#[trigger] entries[j], #[trigger] entries[i])
}

proof fn lemma_insert_sorted(sorted: Seq<EntryModel>, entry: EntryModel)
    requires
        sorted_by_key(sorted),
    ensures
        sorted_by_key(insert_entry(sorted, entry)),
        insert_entry(sorted, entry).to_multiset() == sorted.to_multiset().insert(entry),
        insert_entry(sorted, entry).len() == sorted.len() + 1,
        forall|i: int|
            0 <= i < insert_entry(sorted, entry).len() ==> (#[trigger] insert_entry(
                sorted,
                entry,
            )[i]) == entry || sorted.contains(insert_entry(sorted, entry)[i]),
    decreases sorted.len(),
{
    broadcast use vstd::seq_lib::group_to_multiset_ensures;

    if sorted.len() == 0 {
    } else if !entry_before(entry, sorted.last()) {
        let result = sorted.push(entry);
        assert forall|i: int, j: int| 0 <= i < j < result.len() implies !entry_before(
            #[trigger] result[j],
            #[trigger] result[i],
        ) by {
            if j == sorted.len() {
                let last = sorted.len() - 1;
                if i < last {
                    assert(!entry_before(sorted[last], sorted[i]));
                    lemma_precedes_through(entry, sorted[i], sorted[last]);
                }
            }
        }
        assert forall|i: int| 0 <= i < result.len() implies (#[trigger] result[i]) == entry
            || sorted.contains(result[i]) by {
            if i < sorted.len() {
                assert(sorted[i] == result[i]);
            }
        }
    } else {
        let rest = sorted.drop_last();
        lemma_insert_sorted(rest, entry);
        let inner = insert_entry(rest, entry);
        let result = inner.push(sorted.last());
        assert(sorted =~= rest.push(sorted.last()));
        assert forall|i: int, j: int| 0 <= i < j < result.len() implies !entry_before(
            #[trigger] result[j],
            #[trigger] result[i],
        ) by {
            if j == inner.len() {
                if inner[i] == entry {
                    law_text_order_total(entry.identity->Text_0, sorted.last().identity->Text_0);
                } else {
                    assert(rest.contains(inner[i]));
                    let k = choose|k: int| 0 <= k < rest.len() && rest[k] == inner[i];
                    assert(sorted[k] == inner[i]);
                    assert(!entry_before(sorted[sorted.len() - 1], sorted[k]));
                }
            }
        }
        assert(result.to_multiset() =~= sorted.to_multiset().insert(entry));
        assert forall|i: int| 0 <= i < result.len() implies (#[trigger] result[i]) == entry
            || sorted.contains(result[i]) by {
            if i < inner.len() && inner[i] != entry {
                assert(rest.contains(inner[i]));
                let k = choose|k: int| 0 <= k < rest.len() && rest[k] == inner[i];
                assert(sorted[k] == result[i]);
            } else if i == inner.len() {
                assert(sorted[sorted.len() - 1] == result[i]);
            }
        }
    }
}

/// What does not precede the middle does not precede what stands before it.
proof fn lemma_precedes_through(entry: EntryModel, first: EntryModel, middle: EntryModel)
    requires
        !entry_before(entry, middle),
        !entry_before(middle, first),
    ensures
        !entry_before(entry, first),
{
    let e = entry.identity->Text_0;
    let f = first.identity->Text_0;
    let m = middle.identity->Text_0;
    if text_before(e, f) {
        law_text_order_total(f, m);
        if f == m {
        } else {
            assert(text_before(f, m));
            law_text_order_transitive(e, f, m);
        }
    }
}

/// Sorting entries by key orders them and neither loses nor invents one.
pub proof fn law_sorting_orders_the_entries(entries: Seq<EntryModel>)
    ensures
        sorted_by_key(sort_entries(entries)),
        sort_entries(entries).to_multiset() == entries.to_multiset(),
    decreases entries.len(),
{
    broadcast use vstd::seq_lib::group_to_multiset_ensures;

    if entries.len() > 0 {
        law_sorting_orders_the_entries(entries.drop_last());
        lemma_insert_sorted(sort_entries(entries.drop_last()), entries.last());
        assert(entries =~= entries.drop_last().push(entries.last()));
    }
}

/// With nothing sent before, a user document says everything: it resolves as a
/// system document does.
pub proof fn law_first_turn_sends_everything(children: Seq<EdgeModel>)
    ensures
        resolved(children, Some(Map::empty())) == resolved(children, None),
    decreases children,
{
    if children.len() > 0 {
        law_first_turn_sends_everything(children.drop_last());
        lemma_first_turn_edge(children.last());
    }
}

proof fn lemma_first_turn_edge(edge: EdgeModel)
    ensures
        resolved_edge(edge, Some(Map::empty())) == resolved_edge(edge, None),
    decreases edge,
{
    let known: Baselines = Map::empty();
    match edge {
        EdgeModel::Node(node) => {
            lemma_first_turn_node(node);
        },
        EdgeModel::Slot(slot) => {
            assert(slot_update(slot, known) == slot.value);
            assert(resolved_slot(slot, Some(known)) == resolved_slot(slot, None));
        },
    }
}

proof fn lemma_first_turn_node(node: NodeModel)
    ensures
        resolved_node(node, Some(Map::empty())) == resolved_node(node, None),
    decreases node,
{
    let known: Baselines = Map::empty();
    match node {
        NodeModel::Markdown(markdown) => {
            lemma_first_turn_markdown(markdown);
        },
        NodeModel::Xml(xml) => {
            law_first_turn_sends_everything(xml.children);
            assert(resolved_xml(xml, Some(known)) == resolved_xml(xml, None));
        },
        _ => {},
    }
}

proof fn lemma_first_turn_items(items: Seq<Seq<EdgeModel>>)
    ensures
        resolved_items(items, Some(Map::empty())) == resolved_items(items, None),
    decreases items,
{
    if items.len() > 0 {
        lemma_first_turn_items(items.drop_last());
        law_first_turn_sends_everything(items.last());
    }
}

proof fn lemma_first_turn_markdown(node: MarkdownModel)
    ensures
        resolved_markdown(node, Some(Map::empty())) == resolved_markdown(node, None),
    decreases node,
{
    match node {
        MarkdownModel::Heading { level, children } => {
            law_first_turn_sends_everything(children);
        },
        MarkdownModel::Paragraph { children } => {
            law_first_turn_sends_everything(children);
        },
        MarkdownModel::List { kind, items } => {
            lemma_first_turn_items(items);
        },
        MarkdownModel::Strong { children } => {
            law_first_turn_sends_everything(children);
        },
        _ => {},
    }
}

/// A document without slots resolves to itself, whatever was sent before.
pub proof fn law_complete_documents_resolve_to_themselves(
    document: Seq<EdgeModel>,
    known: Option<Baselines>,
)
    requires
        well_formed_blocks(document),
        slot_free(document),
    ensures
        resolved(document, known) == document,
{
    assert(normalized(document)) by {
        assert forall|i: int| 0 <= i < document.len() implies !is_text(#[trigger] document[i]) by {
            assert(well_formed_edge(document[i]));
        }
    }
    lemma_complete_children(document, known);
}

proof fn lemma_complete_children(children: Seq<EdgeModel>, known: Option<Baselines>)
    requires
        normalized(children),
        forall|i: int| 0 <= i < children.len() ==> well_formed_edge(#[trigger] children[i]),
        slot_free(children),
    ensures
        resolved(children, known) == children,
    decreases children,
{
    if children.len() > 0 {
        let rest = children.drop_last();
        let last = children.last();
        assert forall|i: int| 0 <= i < rest.len() implies well_formed_edge(#[trigger] rest[i])
            && slot_free_edge(rest[i]) && rest[i] == children[i] by {
            assert(well_formed_edge(children[i]));
            assert(slot_free_edge(children[i]));
        }
        assert(normalized(rest)) by {
            assert forall|i: int| 0 <= i < rest.len() && is_text(#[trigger] rest[i]) implies text_of(
                rest[i],
            ).len() > 0 by {
                assert(is_text(children[i]));
            }
            assert forall|i: int, j: int|
                0 <= i < rest.len() && j == i + 1 && j < rest.len() && is_text(
                    #[trigger] rest[i],
                ) implies !is_text(#[trigger] rest[j]) by {
                assert(is_text(children[i]));
                assert(!is_text(children[j]));
            }
        }
        lemma_complete_children(rest, known);
        assert(well_formed_edge(children[children.len() - 1]));
        assert(slot_free_edge(children[children.len() - 1]));
        lemma_complete_edge(last, known);
        if rest.len() > 0 && is_text(last) {
            let at = children.len() - 2;
            if is_text(rest.last()) {
                assert(is_text(children[at]));
                assert(!is_text(children[at + 1]));
            }
        }
        if is_text(last) {
            assert(is_text(children[children.len() - 1]));
        }
        assert(push_normalized(rest, last) =~= children);
    }
}

proof fn lemma_complete_edge(edge: EdgeModel, known: Option<Baselines>)
    requires
        well_formed_edge(edge),
        slot_free_edge(edge),
    ensures
        resolved_edge(edge, known) == Some(edge),
    decreases edge,
{
    let node = edge->Node_0;
    assert(well_formed_node(node));
    assert(slot_free_node(node));
    match node {
        NodeModel::Markdown(markdown) => {
            lemma_complete_markdown(markdown, known);
        },
        NodeModel::Xml(xml) => {
            assert(well_formed_xml(xml));
            assert(slot_free_xml(xml));
            assert(well_formed_mixed(xml.children));
            lemma_complete_children(xml.children, known);
            assert(resolved_xml(xml, known) == xml);
        },
        _ => {},
    }
    assert(resolved_node(node, known) == Some(node));
}

proof fn lemma_complete_items(items: Seq<Seq<EdgeModel>>, known: Option<Baselines>)
    requires
        forall|i: int|
            0 <= i < items.len() ==> well_formed_blocks(#[trigger] items[i]) && slot_free(items[i]),
    ensures
        resolved_items(items, known) == items,
    decreases items,
{
    if items.len() > 0 {
        let rest = items.drop_last();
        let last = items.last();
        assert forall|i: int| 0 <= i < rest.len() implies well_formed_blocks(#[trigger] rest[i])
            && slot_free(rest[i]) by {
            assert(well_formed_blocks(items[i]));
        }
        lemma_complete_items(rest, known);
        assert(well_formed_blocks(items[items.len() - 1]));
        assert(normalized(last)) by {
            assert forall|i: int| 0 <= i < last.len() implies !is_text(#[trigger] last[i]) by {
                assert(well_formed_edge(last[i]));
            }
        }
        lemma_complete_children(last, known);
        assert(rest.push(last) =~= items);
    }
}

proof fn lemma_complete_markdown(node: MarkdownModel, known: Option<Baselines>)
    requires
        well_formed_markdown(node),
        slot_free_markdown(node),
    ensures
        resolved_markdown(node, known) == Some(node),
    decreases node,
{
    match node {
        MarkdownModel::Heading { level, children } => {
            assert(well_formed_inlines(children));
            lemma_complete_children(children, known);
        },
        MarkdownModel::Paragraph { children } => {
            assert(well_formed_inlines(children));
            lemma_complete_children(children, known);
        },
        MarkdownModel::List { kind, items } => {
            assert forall|i: int| 0 <= i < items.len() implies well_formed_blocks(
                #[trigger] items[i],
            ) && slot_free(items[i]) by {
                assert(slot_free(items[i]));
            }
            lemma_complete_items(items, known);
        },
        MarkdownModel::Strong { children } => {
            assert(well_formed_inlines(children));
            lemma_complete_children(children, known);
        },
        _ => {},
    }
}

/// What a cursor remembers of a role once slots with unique roles were sent.
pub proof fn law_cursor_remembers_what_was_sent(
    known: Baselines,
    slots: Seq<SlotModel>,
    role: Seq<char>,
)
    requires
        unique_roles(slots),
    ensures
        forall|i: int|
            0 <= i < slots.len() && (#[trigger] slots[i]).role == role ==> match slots[i].value {
                Some(value) => advanced(known, slots).contains_key(role) && advanced(
                    known,
                    slots,
                )[role] == (BaselineModel { strategy: slots[i].strategy, value }),
                None => !advanced(known, slots).contains_key(role),
            },
        (forall|i: int| 0 <= i < slots.len() ==> (#[trigger] slots[i]).role != role) ==> {
            &&& advanced(known, slots).contains_key(role) == known.contains_key(role)
            &&& known.contains_key(role) ==> advanced(known, slots)[role] == known[role]
        },
    decreases slots.len(),
{
    if slots.len() > 0 {
        let rest = slots.drop_last();
        let at = slots.len() - 1;
        assert(unique_roles(rest)) by {
            assert forall|i: int| 0 <= i < rest.len() implies !#[trigger] repeats_role(rest, i) by {
                assert(!repeats_role(slots, i));
                if repeats_role(rest, i) {
                    let k = choose|k: int| 0 <= k < i && (#[trigger] rest[k]).role == rest[i].role;
                    assert(slots[k].role == slots[i].role);
                }
            }
        }
        law_cursor_remembers_what_was_sent(known, rest, role);
        assert(!repeats_role(slots, at));
        assert forall|i: int|
            0 <= i < slots.len() && (#[trigger] slots[i]).role == role implies match slots[i].value {
            Some(value) => advanced(known, slots).contains_key(role) && advanced(known, slots)[role]
                == (BaselineModel { strategy: slots[i].strategy, value }),
            None => !advanced(known, slots).contains_key(role),
        } by {
            if i < at {
                assert(rest[i] == slots[i]);
                assert(slots[at].role != slots[i].role);
            }
        }
        if forall|i: int| 0 <= i < slots.len() ==> (#[trigger] slots[i]).role != role {
            assert(slots[at].role != role);
            assert forall|i: int| 0 <= i < rest.len() implies (#[trigger] rest[i]).role != role by {
                assert(slots[i].role != role);
            }
        }
    }
}

/// A slot that is sent again unchanged says nothing, and the cursor stays as it
/// is.
pub proof fn law_second_turn_is_silent(known: Baselines, slots: Seq<SlotModel>)
    requires
        unique_roles(slots),
    ensures
        forall|i: int|
            0 <= i < slots.len() ==> slot_update(
                #[trigger] slots[i],
                advanced(known, slots),
            ) is None,
        advanced(advanced(known, slots), slots) == advanced(known, slots),
{
    let next = advanced(known, slots);
    assert forall|i: int| 0 <= i < slots.len() implies slot_update(
        #[trigger] slots[i],
        next,
    ) is None by {
        law_cursor_remembers_what_was_sent(known, slots, slots[i].role);
        if let Some(value) = slots[i].value {
            law_xml_equal_to_itself(value);
            law_unchanged_value_has_no_patch(value, value, slots[i].strategy);
        }
    }
    let again = advanced(next, slots);
    assert forall|role: Seq<char>| #[trigger]
        again.contains_key(role) == next.contains_key(role) && (next.contains_key(role)
        ==> again[role] == next[role]) by {
        law_cursor_remembers_what_was_sent(known, slots, role);
        law_cursor_remembers_what_was_sent(next, slots, role);
        if exists|i: int| 0 <= i < slots.len() && (#[trigger] slots[i]).role == role {
            let i = choose|i: int| 0 <= i < slots.len() && (#[trigger] slots[i]).role == role;
            assert(slots[i].role == role);
        }
    }
    assert(again =~= next);
}

/// A known value that is gone is deleted once: afterwards its slot says nothing.
pub proof fn law_deletion_is_said_once(known: Baselines, slot: SlotModel)
    requires
        slot.value is None,
        known.contains_key(slot.role),
    ensures
        slot_update(slot, known) == Some(crate::pom_diff::deletion(slot.role)),
        slot_update(slot, advanced(known, seq![slot])) is None,
{
    let slots = seq![slot];
    assert(slots.drop_last() =~= Seq::empty());
    assert(advanced(known, slots.drop_last()) == known);
    assert(advanced(known, slots) == known.remove(slot.role));
}

/// A value of another strategy than the one sent before is sent as a whole.
pub proof fn law_changed_strategy_sends_everything(known: Baselines, slot: SlotModel)
    requires
        slot.value is Some,
        known.contains_key(slot.role) ==> known[slot.role].strategy != slot.strategy,
    ensures
        slot_update(slot, known) == slot.value,
{
}

/// Appending keeps text normalized: never empty, never next to text.
pub proof fn law_push_keeps_text_normalized(children: Seq<EdgeModel>, edge: EdgeModel)
    requires
        normalized(children),
    ensures
        normalized(push_normalized(children, edge)),
{
    let result = push_normalized(children, edge);
    if is_text(edge) && text_of(edge).len() == 0 {
    } else if is_text(edge) && children.len() > 0 && is_text(children.last()) {
        let at = children.len() - 1;
        assert forall|i: int, j: int|
            0 <= i < result.len() && j == i + 1 && j < result.len() && is_text(
                #[trigger] result[i],
            ) implies !is_text(#[trigger] result[j]) by {
            assert(result[i] == children[i]);
            assert(is_text(children[i]));
            assert(!is_text(children[j]));
        }
        assert forall|i: int| 0 <= i < result.len() && is_text(#[trigger] result[i]) implies text_of(
            result[i],
        ).len() > 0 by {
            if i < at {
                assert(is_text(children[i]));
            }
        }
    } else {
        assert forall|i: int, j: int|
            0 <= i < result.len() && j == i + 1 && j < result.len() && is_text(
                #[trigger] result[i],
            ) implies !is_text(#[trigger] result[j]) by {
            assert(result[i] == children[i]);
            if j < children.len() {
                assert(is_text(children[i]));
                assert(!is_text(children[j]));
            }
        }
        assert forall|i: int| 0 <= i < result.len() && is_text(#[trigger] result[i]) implies text_of(
            result[i],
        ).len() > 0 by {
            if i < children.len() {
                assert(is_text(children[i]));
            }
        }
    }
}

/// Which children a list may hold: any (0), blocks (1) or inlines (2).
spec fn admits(kind: int, edge: EdgeModel) -> bool {
    &&& well_formed_edge(edge)
    &&& kind == 1 && edge is Node ==> is_block_node(edge->Node_0)
    &&& kind == 2 && edge is Node ==> is_inline_node(edge->Node_0)
}

spec fn all_admitted(kind: int, children: Seq<EdgeModel>) -> bool {
    forall|i: int| 0 <= i < children.len() ==> admits(kind, #[trigger] children[i])
}

proof fn lemma_push_admitted(kind: int, children: Seq<EdgeModel>, edge: EdgeModel)
    requires
        all_admitted(kind, children),
        admits(kind, edge),
    ensures
        all_admitted(kind, push_normalized(children, edge)),
{
    let result = push_normalized(children, edge);
    assert forall|i: int| 0 <= i < result.len() implies admits(kind, #[trigger] result[i]) by {
        if i < children.len() && result[i] == children[i] {
            assert(admits(kind, children[i]));
        } else if is_text(edge) && children.len() > 0 && is_text(children.last()) {
            let last = children[children.len() - 1];
            assert(admits(kind, last));
            let a = text_of(last);
            let b = text_of(edge);
            assert(well_formed_node(NodeModel::Text(a + b)));
            if kind == 2 {
                assert forall|c: char| (a + b).contains(c) implies a.contains(c) || b.contains(c) by {
                    let k = choose|k: int| 0 <= k < (a + b).len() && (a + b)[k] == c;
                    if k < a.len() {
                        assert(a[k] == c);
                    } else {
                        assert(b[k - a.len()] == c);
                    }
                }
                assert(single_line(a + b));
            }
        }
    }
}

proof fn lemma_expanded_children(kind: int, children: Seq<EdgeModel>)
    requires
        all_admitted(kind, children),
    ensures
        normalized(resolved(children, None)),
        all_admitted(kind, resolved(children, None)),
    decreases children, 0int,
{
    if children.len() > 0 {
        let rest = children.drop_last();
        assert forall|i: int| 0 <= i < rest.len() implies admits(kind, #[trigger] rest[i]) by {
            assert(admits(kind, children[i]));
        }
        lemma_expanded_children(kind, rest);
        assert(admits(kind, children[children.len() - 1]));
        lemma_expanded_edge(kind, children.last());
        if let Some(edge) = resolved_edge(children.last(), None) {
            law_push_keeps_text_normalized(resolved(rest, None), edge);
            lemma_push_admitted(kind, resolved(rest, None), edge);
        }
    }
}

proof fn lemma_expanded_edge(kind: int, edge: EdgeModel)
    requires
        admits(kind, edge),
    ensures
        resolved_edge(edge, None) is Some ==> admits(kind, resolved_edge(edge, None)->0),
    decreases edge, 0int,
{
    match edge {
        EdgeModel::Node(node) => {
            assert(well_formed_node(node));
            match node {
                NodeModel::Markdown(markdown) => {
                    lemma_expanded_markdown(markdown);
                    if let Some(result) = resolved_markdown(markdown, None) {
                        assert(resolved_node(node, None) == Some(NodeModel::Markdown(result)));
                        assert(well_formed_node(NodeModel::Markdown(result)));
                    } else {
                        assert(resolved_node(node, None) is None);
                    }
                },
                NodeModel::Xml(xml) => {
                    lemma_expanded_xml(xml);
                    let result = resolved_xml(xml, None);
                    assert(resolved_node(node, None) == Some(NodeModel::Xml(result)));
                    assert(well_formed_node(NodeModel::Xml(result)));
                },
                _ => {
                    assert(resolved_node(node, None) == Some(node));
                },
            }
        },
        EdgeModel::Slot(slot) => {
            assert(well_formed_slot(slot));
            if let Some(value) = slot.value {
                lemma_expanded_xml(value);
                let result = resolved_xml(value, None);
                assert(resolved_slot(slot, None) == Some(result));
                assert(well_formed_node(NodeModel::Xml(result)));
                assert(well_formed_edge(xml_edge(result)));
            } else {
                assert(resolved_slot(slot, None) is None);
            }
        },
    }
}

proof fn lemma_expanded_xml(node: XmlModel)
    requires
        well_formed_xml(node),
    ensures
        well_formed_xml(resolved_xml(node, None)),
    decreases node, 0int,
{
    assert(well_formed_mixed(node.children));
    assert forall|i: int| 0 <= i < node.children.len() implies admits(
        0,
        #[trigger] node.children[i],
    ) by {
        assert(well_formed_edge(node.children[i]));
    }
    lemma_expanded_children(0, node.children);
    let inner = resolved(node.children, None);
    assert(well_formed_mixed(inner)) by {
        assert forall|i: int| 0 <= i < inner.len() implies well_formed_edge(#[trigger] inner[i]) by {
            assert(admits(0, inner[i]));
        }
    }
}

proof fn lemma_expanded_inlines(children: Seq<EdgeModel>)
    requires
        well_formed_inlines(children),
    ensures
        well_formed_inlines(resolved(children, None)),
    decreases children, 1int,
{
    assert forall|i: int| 0 <= i < children.len() implies admits(2, #[trigger] children[i]) by {
        assert(well_formed_edge(children[i]));
    }
    lemma_expanded_children(2, children);
    let inner = resolved(children, None);
    assert forall|i: int| 0 <= i < inner.len() implies well_formed_edge(#[trigger] inner[i]) && (
    inner[i] is Node ==> is_inline_node(inner[i]->Node_0)) by {
        assert(admits(2, inner[i]));
    }
}

proof fn lemma_expanded_blocks(children: Seq<EdgeModel>)
    requires
        well_formed_blocks(children),
    ensures
        well_formed_blocks(resolved(children, None)),
    decreases children, 1int,
{
    assert forall|i: int| 0 <= i < children.len() implies admits(1, #[trigger] children[i]) by {
        assert(well_formed_edge(children[i]));
    }
    lemma_expanded_children(1, children);
    let inner = resolved(children, None);
    assert forall|i: int| 0 <= i < inner.len() implies well_formed_edge(#[trigger] inner[i]) && (
    inner[i] is Node ==> is_block_node(inner[i]->Node_0)) by {
        assert(admits(1, inner[i]));
    }
}

proof fn lemma_expanded_items(items: Seq<Seq<EdgeModel>>)
    requires
        forall|i: int| 0 <= i < items.len() ==> well_formed_blocks(#[trigger] items[i]),
    ensures
        forall|i: int|
            0 <= i < resolved_items(items, None).len() ==> well_formed_blocks(
                #[trigger] resolved_items(items, None)[i],
            ),
    decreases items, 0int,
{
    if items.len() > 0 {
        let rest = items.drop_last();
        assert forall|i: int| 0 <= i < rest.len() implies well_formed_blocks(#[trigger] rest[i]) by {
            assert(well_formed_blocks(items[i]));
        }
        lemma_expanded_items(rest);
        assert(well_formed_blocks(items[items.len() - 1]));
        lemma_expanded_blocks(items.last());
        let before = resolved_items(rest, None);
        assert forall|i: int| 0 <= i < resolved_items(items, None).len() implies well_formed_blocks(
            #[trigger] resolved_items(items, None)[i],
        ) by {
            if i < before.len() {
                assert(well_formed_blocks(before[i]));
                assert(resolved_items(items, None)[i] == before[i]);
            }
        }
    }
}

proof fn lemma_expanded_markdown(node: MarkdownModel)
    requires
        well_formed_markdown(node),
    ensures
        resolved_markdown(node, None) is Some ==> well_formed_markdown(
            resolved_markdown(node, None)->0,
        ) && is_block_markdown(resolved_markdown(node, None)->0) == is_block_markdown(node),
    decreases node, 0int,
{
    match node {
        MarkdownModel::Heading { level, children } => {
            lemma_expanded_inlines(children);
            let result = MarkdownModel::Heading { level, children: resolved(children, None) };
            assert(well_formed_markdown(result));
        },
        MarkdownModel::Paragraph { children } => {
            lemma_expanded_inlines(children);
            let result = MarkdownModel::Paragraph { children: resolved(children, None) };
            assert(well_formed_markdown(result));
        },
        MarkdownModel::List { kind, items } => {
            lemma_expanded_items(items);
            let inner = resolved_items(items, None);
            let result = MarkdownModel::List { kind, items: inner };
            assert forall|i: int| 0 <= i < inner.len() implies well_formed_blocks(
                #[trigger] inner[i],
            ) by {
                assert(well_formed_blocks(resolved_items(items, None)[i]));
            }
            assert(well_formed_markdown(result));
        },
        MarkdownModel::Strong { children } => {
            lemma_expanded_inlines(children);
            let result = MarkdownModel::Strong { children: resolved(children, None) };
            assert(well_formed_markdown(result));
        },
        _ => {},
    }
}

/// Resolving a system document once is enough: the result resolves to itself,
/// as a system document, as an artifact and as a user document.
pub proof fn law_system_resolution_is_final(
    document: Seq<EdgeModel>,
    known: Option<Baselines>,
)
    requires
        well_formed_blocks(document),
    ensures
        well_formed_blocks(resolved(document, None)),
        slot_free(resolved(document, None)),
        resolved(resolved(document, None), known) == resolved(document, None),
{
    lemma_expanded_blocks(document);
    lemma_resolved_slot_free(document, None);
    law_complete_documents_resolve_to_themselves(resolved(document, None), known);
}

/// XML text holds no markup, and it fails exactly on characters that XML cannot
/// hold.
pub proof fn law_xml_text_holds_no_markup(raw: Seq<char>)
    ensures
        xml_text(raw) is Ok <==> forall|i: int|
            0 <= i < raw.len() ==> is_xml_character(#[trigger] raw[i]),
        xml_text(raw) is Ok ==> {
            let text = xml_text(raw)->Ok_0;
            &&& !text.contains('<')
            &&& !text.contains('>')
            &&& !text.contains('\r')
        },
    decreases raw.len(),
{
    if raw.len() > 0 {
        let rest = raw.drop_last();
        law_xml_text_holds_no_markup(rest);
        lemma_escaped_char(raw.last());
        if forall|i: int| 0 <= i < raw.len() ==> is_xml_character(#[trigger] raw[i]) {
            assert forall|i: int| 0 <= i < rest.len() implies is_xml_character(
                #[trigger] rest[i],
            ) by {
                assert(is_xml_character(raw[i]));
            }
            assert(is_xml_character(raw[raw.len() - 1]));
        }
        if xml_text(raw) is Ok {
            assert forall|i: int| 0 <= i < raw.len() implies is_xml_character(
                #[trigger] raw[i],
            ) by {
                if i < rest.len() {
                    assert(is_xml_character(rest[i]));
                }
            }
            lemma_concat_lacks(xml_text(rest)->Ok_0, xml_text_char(raw.last()), '<');
            lemma_concat_lacks(xml_text(rest)->Ok_0, xml_text_char(raw.last()), '>');
            lemma_concat_lacks(xml_text(rest)->Ok_0, xml_text_char(raw.last()), '\r');
        }
    }
}

/// Escaping goes character by character: that of two texts in a row is that of the
/// first with that of the second behind it, and a single character is left as it is
/// unless XML text writes it as a reference.
pub proof fn law_xml_escaping_distributes(first: Seq<char>, second: Seq<char>, c: char)
    requires
        forall|i: int| 0 <= i < first.len() ==> is_xml_character(#[trigger] first[i]),
        forall|i: int| 0 <= i < second.len() ==> is_xml_character(#[trigger] second[i]),
        is_xml_character(c),
    ensures
        xml_text(first) is Ok,
        xml_text(second) is Ok,
        xml_text(first + second) == Ok::<_, RenderFault>(
            xml_text(first)->Ok_0 + xml_text(second)->Ok_0,
        ),
        xml_text(seq![c]) == Ok::<_, RenderFault>(
            if c == '&' {
                "&amp;"@
            } else if c == '<' {
                "&lt;"@
            } else if c == '>' {
                "&gt;"@
            } else if c == '\r' {
                "&#13;"@
            } else {
                seq![c]
            },
        ),
    decreases second.len(),
{
    law_xml_text_holds_no_markup(first);
    law_xml_text_holds_no_markup(second);
    assert(seq![c].drop_last() =~= Seq::empty());
    assert(xml_text(seq![c].drop_last()) == Ok::<_, RenderFault>(Seq::<char>::empty()));
    assert(Seq::<char>::empty() + xml_text_char(c) =~= xml_text_char(c));
    if second.len() == 0 {
        assert(first + second =~= first);
        assert(xml_text(first)->Ok_0 + Seq::<char>::empty() =~= xml_text(first)->Ok_0);
    } else {
        let rest = second.drop_last();
        assert forall|i: int| 0 <= i < rest.len() implies is_xml_character(#[trigger] rest[i]) by {
            assert(is_xml_character(second[i]));
        }
        law_xml_escaping_distributes(first, rest, c);
        assert((first + second).drop_last() =~= first + rest);
        assert(is_xml_character(second[second.len() - 1]));
        let last = xml_text_char(second.last());
        assert(xml_text(first)->Ok_0 + xml_text(rest)->Ok_0 + last =~= xml_text(first)->Ok_0 + (
        xml_text(rest)->Ok_0 + last));
    }
}

/// Whether a text starts with four spaces, or with a tab after fewer.
pub open spec fn opens_with_indentation(text: Seq<char>) -> bool {
    ||| text.len() >= 4 && text[0] == ' ' && text[1] == ' ' && text[2] == ' ' && text[3] == ' '
    ||| exists|n: int|
        0 <= n < 4 && n < text.len() && #[trigger] text[n] == '\t' && forall|i: int|
            0 <= i < n ==> #[trigger] text[i] == ' '
}

proof fn lemma_spaces(text: Seq<char>)
    ensures
        space_count(text) <= text.len(),
        forall|i: int| 0 <= i < space_count(text) ==> #[trigger] text[i] == ' ',
        space_count(text) < text.len() ==> text[space_count(text) as int] != ' ',
    decreases text.len(),
{
    if text.len() > 0 && text[0] == ' ' {
        let rest = text.drop_first();
        lemma_spaces(rest);
        assert forall|i: int| 0 <= i < space_count(text) implies #[trigger] text[i] == ' ' by {
            if i > 0 {
                assert(text[i] == rest[i - 1]);
            }
        }
        if space_count(text) < text.len() {
            assert(text[space_count(text) as int] == rest[space_count(rest) as int]);
        }
    }
}

/// Indentation is written as a character reference once: encoded text is not indented,
/// and encoding it again changes nothing. Of text that is not indented nothing changes,
/// and of other text the first character alone.
pub proof fn law_indentation_is_encoded_once(text: Seq<char>)
    ensures
        indentation_encoded(indentation_encoded(text)) == indentation_encoded(text),
        !is_indented(indentation_encoded(text)),
        is_indented(text) <==> opens_with_indentation(text),
        !opens_with_indentation(text) ==> indentation_encoded(text) == text,
        opens_with_indentation(text) ==> text[0] == ' ' || text[0] == '\t',
        opens_with_indentation(text) && text[0] == ' ' ==> indentation_encoded(text) == "&#32;"@
            + text.skip(1),
        opens_with_indentation(text) && text[0] == '\t' ==> indentation_encoded(text) == "&#9;"@
            + text.skip(1),
{
    lemma_spaces(text);
    let spaces = space_count(text) as int;
    if opens_with_indentation(text) && !(text.len() >= 4 && text[0] == ' ' && text[1] == ' '
        && text[2] == ' ' && text[3] == ' ') {
        let n = choose|n: int|
            0 <= n < 4 && n < text.len() && #[trigger] text[n] == '\t' && forall|i: int|
                0 <= i < n ==> #[trigger] text[i] == ' ';
        if spaces < n {
            assert(text[spaces] == ' ');
        }
        if n < spaces {
            assert(text[n] == ' ');
        }
        assert(spaces == n);
    } else if opens_with_indentation(text) {
        if spaces < 4 {
            assert(text[spaces] == ' ');
        }
    }
    if is_indented(text) {
        if spaces >= 4 {
            assert(text[0] == ' ' && text[1] == ' ' && text[2] == ' ' && text[3] == ' ');
        } else {
            assert(text[spaces] == '\t');
        }
        reveal_strlit("&#32;");
        reveal_strlit("&#9;");
        let encoded = indentation_encoded(text);
        assert(encoded[0] == '&');
        assert(space_count(encoded) == 0);
    }
}

proof fn lemma_concat_lacks(a: Seq<char>, b: Seq<char>, c: char)
    requires
        !a.contains(c),
        !b.contains(c),
    ensures
        !(a + b).contains(c),
{
    if (a + b).contains(c) {
        let k = choose|k: int| 0 <= k < (a + b).len() && (a + b)[k] == c;
        if k < a.len() {
            assert(a[k] == c);
        } else {
            assert(b[k - a.len()] == c);
        }
    }
}

proof fn lemma_escaped_char(c: char)
    ensures
        !xml_text_char(c).contains('<'),
        !xml_text_char(c).contains('>'),
        !xml_text_char(c).contains('\r'),
        !xml_attribute_char(c).contains('<'),
        !xml_attribute_char(c).contains('>'),
        !xml_attribute_char(c).contains('\r'),
        !xml_attribute_char(c).contains('"'),
        !xml_attribute_char(c).contains('\''),
        !xml_attribute_char(c).contains('\t'),
        !xml_attribute_char(c).contains('\n'),
{
    reveal_strlit("&amp;");
    reveal_strlit("&lt;");
    reveal_strlit("&gt;");
    reveal_strlit("&#13;");
    reveal_strlit("&quot;");
    reveal_strlit("&apos;");
    reveal_strlit("&#9;");
    reveal_strlit("&#10;");
}

/// An attribute's value never ends its quotes nor its line.
pub proof fn law_attribute_value_stays_quoted(raw: Seq<char>)
    requires
        xml_attribute(raw) is Ok,
    ensures
        !xml_attribute(raw)->Ok_0.contains('"'),
        !xml_attribute(raw)->Ok_0.contains('\''),
        !xml_attribute(raw)->Ok_0.contains('<'),
        !xml_attribute(raw)->Ok_0.contains('>'),
        !xml_attribute(raw)->Ok_0.contains('\n'),
        !xml_attribute(raw)->Ok_0.contains('\t'),
        !xml_attribute(raw)->Ok_0.contains('\r'),
    decreases raw.len(),
{
    if raw.len() > 0 {
        let rest = raw.drop_last();
        law_attribute_value_stays_quoted(rest);
        lemma_escaped_char(raw.last());
        let a = xml_attribute(rest)->Ok_0;
        let b = xml_attribute_char(raw.last());
        lemma_concat_lacks(a, b, '"');
        lemma_concat_lacks(a, b, '\'');
        lemma_concat_lacks(a, b, '<');
        lemma_concat_lacks(a, b, '>');
        lemma_concat_lacks(a, b, '\n');
        lemma_concat_lacks(a, b, '\t');
        lemma_concat_lacks(a, b, '\r');
    }
}

proof fn lemma_attribute_chars(first: char, second: char, rest: Seq<char>, other: Seq<char>)
    requires
        xml_attribute_char(first) + rest == xml_attribute_char(second) + other,
    ensures
        first == second,
        rest == other,
{
    reveal_strlit("&amp;");
    reveal_strlit("&lt;");
    reveal_strlit("&gt;");
    reveal_strlit("&#13;");
    reveal_strlit("&quot;");
    reveal_strlit("&apos;");
    reveal_strlit("&#9;");
    reveal_strlit("&#10;");
    let a = xml_attribute_char(first);
    let b = xml_attribute_char(second);
    let all = a + rest;
    assert(all[0] == a[0] && all[0] == b[0]);
    if a.len() > 1 && b.len() > 1 {
        assert(all[1] == a[1] && all[1] == b[1]);
        assert(all[2] == a[2] && all[2] == b[2]);
        assert(all[3] == a[3] && all[3] == b[3]);
    }
    assert(all.skip(a.len() as int) =~= rest);
    assert((b + other).skip(b.len() as int) =~= other);
}

proof fn lemma_attribute_from_the_front(raw: Seq<char>)
    requires
        raw.len() > 0,
        xml_attribute(raw) is Ok,
    ensures
        xml_attribute(raw.drop_first()) is Ok,
        xml_attribute(raw)->Ok_0 == xml_attribute_char(raw[0]) + xml_attribute(
            raw.drop_first(),
        )->Ok_0,
    decreases raw.len(),
{
    let before = raw.drop_last();
    if before.len() == 0 {
        assert(raw.drop_first() =~= Seq::empty());
        assert(xml_attribute(before) == Ok::<_, RenderFault>(Seq::<char>::empty()));
        assert(Seq::<char>::empty() + xml_attribute_char(raw[0]) =~= xml_attribute_char(raw[0])
            + Seq::<char>::empty());
    } else {
        lemma_attribute_from_the_front(before);
        assert(raw.drop_first().drop_last() =~= before.drop_first());
        let first = xml_attribute_char(raw[0]);
        let middle = xml_attribute(before.drop_first())->Ok_0;
        let last = xml_attribute_char(raw.last());
        assert(first + middle + last =~= first + (middle + last));
    }
}

/// Escaping an attribute's value can be undone: different values are written
/// differently.
pub proof fn law_attribute_escaping_is_injective(first: Seq<char>, second: Seq<char>)
    requires
        xml_attribute(first) is Ok,
        xml_attribute(first) == xml_attribute(second),
    ensures
        first == second,
    decreases first.len(),
{
    if first.len() > 0 {
        lemma_attribute_from_the_front(first);
        lemma_escaped_length(first[0]);
    }
    if second.len() > 0 {
        lemma_attribute_from_the_front(second);
        lemma_escaped_length(second[0]);
    }
    if first.len() > 0 && second.len() > 0 {
        let rest = first.drop_first();
        let other = second.drop_first();
        lemma_attribute_chars(
            first[0],
            second[0],
            xml_attribute(rest)->Ok_0,
            xml_attribute(other)->Ok_0,
        );
        law_attribute_escaping_is_injective(rest, other);
        assert(first =~= seq![first[0]] + rest);
        assert(second =~= seq![second[0]] + other);
    } else {
        assert(first =~= second);
    }
}

proof fn lemma_escaped_length(c: char)
    ensures
        xml_attribute_char(c).len() > 0,
        xml_text_char(c).len() > 0,
{
    reveal_strlit("&amp;");
    reveal_strlit("&lt;");
    reveal_strlit("&gt;");
    reveal_strlit("&#13;");
    reveal_strlit("&quot;");
    reveal_strlit("&apos;");
    reveal_strlit("&#9;");
    reveal_strlit("&#10;");
}

/// Escaping XML text can be undone: different texts are written differently.
pub proof fn law_xml_escaping_is_injective(first: Seq<char>, second: Seq<char>)
    requires
        xml_text(first) is Ok,
        xml_text(first) == xml_text(second),
    ensures
        first == second,
    decreases first.len(),
{
    lemma_text_from_the_front(first);
    lemma_text_from_the_front(second);
    if first.len() > 0 && second.len() > 0 {
        let rest = first.drop_first();
        let other = second.drop_first();
        lemma_text_chars(first[0], second[0], xml_text(rest)->Ok_0, xml_text(other)->Ok_0);
        law_xml_escaping_is_injective(rest, other);
        assert(first =~= seq![first[0]] + rest);
        assert(second =~= seq![second[0]] + other);
    } else {
        assert(first =~= second);
    }
}

proof fn lemma_text_from_the_front(raw: Seq<char>)
    requires
        xml_text(raw) is Ok,
    ensures
        raw.len() > 0 ==> {
            &&& xml_text(raw.drop_first()) is Ok
            &&& xml_text(raw)->Ok_0 == xml_text_char(raw[0]) + xml_text(raw.drop_first())->Ok_0
            &&& xml_text(raw)->Ok_0.len() > 0
        },
{
    if raw.len() > 0 {
        law_xml_text_holds_no_markup(raw);
        let rest = raw.drop_first();
        let head = seq![raw[0]];
        assert forall|i: int| 0 <= i < rest.len() implies is_xml_character(#[trigger] rest[i]) by {
            assert(is_xml_character(raw[i + 1]));
        }
        assert(is_xml_character(raw[0]));
        law_xml_escaping_distributes(head, rest, raw[0]);
        assert(head + rest =~= raw);
        lemma_escaped_length(raw[0]);
    }
}

proof fn lemma_text_chars(first: char, second: char, rest: Seq<char>, other: Seq<char>)
    requires
        xml_text_char(first) + rest == xml_text_char(second) + other,
    ensures
        first == second,
        rest == other,
{
    reveal_strlit("&amp;");
    reveal_strlit("&lt;");
    reveal_strlit("&gt;");
    reveal_strlit("&#13;");
    let a = xml_text_char(first);
    let b = xml_text_char(second);
    let all = a + rest;
    assert(all[0] == a[0] && all[0] == b[0]);
    if a.len() > 1 && b.len() > 1 {
        assert(all[1] == a[1] && all[1] == b[1]);
    }
    assert(all.skip(a.len() as int) =~= rest);
    assert((b + other).skip(b.len() as int) =~= other);
}

/// A code block's fence is longer than any run of its character in the body, so
/// the body cannot close it.
pub proof fn law_fence_is_not_in_the_body(body: Seq<char>, start: int, end: int)
    requires
        0 <= start <= end <= body.len(),
        forall|i: int| start <= i < end ==> body[i] == '~',
    ensures
        end - start < code_fence(body).len(),
        code_fence(body).len() >= 3,
{
    lemma_run_within(body, '~', start, end);
}

/// The longest run is at least as long as any run.
proof fn lemma_run_within(value: Seq<char>, c: char, start: int, end: int)
    requires
        0 <= start <= end <= value.len(),
        forall|i: int| start <= i < end ==> value[i] == c,
    ensures
        end - start <= max_run(value, c),
    decreases value.len(),
{
    if value.len() > 0 && start < end {
        let rest = value.drop_last();
        if end < value.len() {
            lemma_run_within(rest, c, start, end);
        } else {
            lemma_trailing_run(value, c, start);
        }
    }
}

proof fn lemma_trailing_run(value: Seq<char>, c: char, start: int)
    requires
        0 <= start <= value.len(),
        forall|i: int| start <= i < value.len() ==> value[i] == c,
    ensures
        value.len() - start <= trailing_run(value, c),
    decreases value.len(),
{
    if start < value.len() {
        lemma_trailing_run(value.drop_last(), c, start);
    }
}

/// Text of one line that does not open a line is left as it is.
pub proof fn law_single_line_is_not_indented(value: Seq<char>, indent: Seq<char>)
    requires
        !value.contains('\n'),
    ensures
        indented_lines(value, indent, false) == value,
    decreases value.len(),
{
    if value.len() > 0 {
        let rest = value.drop_last();
        assert(!rest.contains('\n')) by {
            if rest.contains('\n') {
                let k = choose|k: int| 0 <= k < rest.len() && rest[k] == '\n';
                assert(value[k] == '\n');
            }
        }
        law_single_line_is_not_indented(rest, indent);
        if value.len() > 1 {
            assert(value[value.len() - 2] != '\n');
        }
        assert(rest + seq![value.last()] =~= value);
    }
}

/// Text inside XML never breaks its line: line breaks are written as character
/// references.
pub proof fn law_text_in_xml_stays_on_its_line(raw: Seq<char>, starts_block: bool, n: int)
    requires
        0 <= n <= raw.len(),
        markdown_prefix(raw, true, starts_block, n) is Ok,
    ensures
        !markdown_prefix(raw, true, starts_block, n)->Ok_0.contains('\n'),
        !markdown_prefix(raw, true, starts_block, n)->Ok_0.contains('<'),
        !markdown_prefix(raw, true, starts_block, n)->Ok_0.contains('>'),
    decreases n,
{
    if n > 0 {
        law_text_in_xml_stays_on_its_line(raw, starts_block, n - 1);
        let a = markdown_prefix(raw, true, starts_block, n - 1)->Ok_0;
        let b = markdown_char(raw, true, starts_block, n - 1);
        assert(!b.contains('\n') && !b.contains('<') && !b.contains('>')) by {
            reveal_strlit("&#32;");
            reveal_strlit("&#9;");
            reveal_strlit("&#10;");
            reveal_strlit("&amp;");
            reveal_strlit("&lt;");
            reveal_strlit("&gt;");
            reveal_strlit("&#13;");
        }
        lemma_concat_lacks(a, b, '\n');
        lemma_concat_lacks(a, b, '<');
        lemma_concat_lacks(a, b, '>');
    }
}

} // verus!
