//! In which order patches say what they say, and how often.

use vstd::prelude::*;
use crate::pom::model::{edges_equiv, node_equiv, xml_equiv, EdgeModel, NodeModel};
use crate::pom::model::{StrategyModel, XmlModel};
use crate::pom_diff::{changed, diff_documents, diff_slot, diff_value, diff_xml, entries_of};
use crate::pom_diff::{edge_patch, entry_changed, has_entry, has_slot, root_patches};
use crate::pom_diff::{slot_patches, sort_entries, stable_layout, unmatched, visible_items};
use crate::pom_diff::{same_unmarked_shape, EntryModel};
use crate::pom_diff_laws::{is_delta_of, is_same_collection, lemma_patch, operations_from};

verus! {

/// No entry has the identity of this one.
pub open spec fn has_no_match(others: Seq<EntryModel>, entry: EntryModel) -> bool {
    forall|i: int|
        0 <= i < others.len() ==> !node_equiv(#[trigger] others[i].identity, entry.identity)
}

/// The first entry of the same identity has another value.
pub open spec fn has_another_value(others: Seq<EntryModel>, entry: EntryModel) -> bool {
    exists|i: int|
        0 <= i < others.len() && node_equiv(#[trigger] others[i].identity, entry.identity)
            && !xml_equiv(others[i].node, entry.node) && (forall|j: int|
            0 <= j < i ==> !node_equiv(#[trigger] others[j].identity, entry.identity))
}

/// The nodes of entries.
pub open spec fn nodes_of(entries: Seq<EntryModel>) -> Seq<XmlModel> {
    entries.map_values(|entry: EntryModel| entry.node)
}

proof fn lemma_unmatched(entries: Seq<EntryModel>, others: Seq<EntryModel>)
    ensures
        unmatched(entries, others) == nodes_of(
            entries.filter(|entry: EntryModel| has_no_match(others, entry)),
        ),
    decreases entries.len(),
{
    reveal(Seq::filter);
    let wanted = |entry: EntryModel| has_no_match(others, entry);
    if entries.len() > 0 {
        lemma_unmatched(entries.drop_last(), others);
        assert(has_entry(others, entries.last().identity) == !has_no_match(
            others,
            entries.last(),
        ));
        let before = entries.drop_last().filter(wanted);
        assert(nodes_of(before.push(entries.last())) =~= nodes_of(before).push(
            entries.last().node,
        ));
    } else {
        assert(nodes_of(entries.filter(wanted)) =~= Seq::empty());
    }
}

proof fn lemma_changed(entries: Seq<EntryModel>, others: Seq<EntryModel>)
    ensures
        changed(entries, others) == nodes_of(
            entries.filter(|entry: EntryModel| has_another_value(others, entry)),
        ),
    decreases entries.len(),
{
    reveal(Seq::filter);
    let wanted = |entry: EntryModel| has_another_value(others, entry);
    if entries.len() > 0 {
        lemma_changed(entries.drop_last(), others);
        assert(entry_changed(others, entries.last()) == has_another_value(others, entries.last()));
        let before = entries.drop_last().filter(wanted);
        assert(nodes_of(before.push(entries.last())) =~= nodes_of(before).push(
            entries.last().node,
        ));
    } else {
        assert(nodes_of(entries.filter(wanted)) =~= Seq::empty());
    }
}

/// Whether a patch says once for each entry what became of it: first what came, then what
/// went, then what has another value, each list in the order of the entries.
pub open spec fn says_in_order(
    patch: Option<XmlModel>,
    name: Seq<char>,
    now: Seq<EntryModel>,
    then: Seq<EntryModel>,
) -> bool {
    let came = nodes_of(now.filter(|entry: EntryModel| has_no_match(then, entry)));
    let went = nodes_of(then.filter(|entry: EntryModel| has_no_match(now, entry)));
    let other = nodes_of(now.filter(|entry: EntryModel| has_another_value(then, entry)));
    &&& patch is None <==> came.len() + went.len() + other.len() == 0
    &&& patch is Some ==> {
        let children = patch->Some_0.children;
        &&& is_delta_of(patch->Some_0, name)
        &&& children.len() == came.len() + went.len() + other.len()
        &&& operations_from(children, 0, "insert"@, came)
        &&& operations_from(children, came.len() as int, "remove"@, went)
        &&& operations_from(children, (came.len() + went.len()) as int, "update"@, other)
    }
}

/// The patch of a keyed collection says once for each entry what became of it, by the order
/// of the keys.
pub proof fn law_keyed_patches_go_by_the_keys(
    current: XmlModel,
    previous: XmlModel,
    key: Seq<char>,
)
    requires
        !xml_equiv(current, previous),
        is_same_collection(current, previous),
        entries_of(visible_items(current.children), Some(key)) is Some,
        entries_of(visible_items(previous.children), Some(key)) is Some,
    ensures
        says_in_order(
            diff_value(current, previous, StrategyModel::Keyed(key)),
            current.name,
            sort_entries(entries_of(visible_items(current.children), Some(key))->Some_0),
            sort_entries(entries_of(visible_items(previous.children), Some(key))->Some_0),
        ),
{
    reveal_with_fuel(diff_value, 2);
    let now = sort_entries(entries_of(visible_items(current.children), Some(key))->Some_0);
    let then = sort_entries(entries_of(visible_items(previous.children), Some(key))->Some_0);
    lemma_unmatched(now, then);
    lemma_unmatched(then, now);
    lemma_changed(now, then);
    lemma_patch(current, unmatched(now, then), unmatched(then, now), changed(now, then));
}

/// The patch of a map says once for each entry what became of it, in author order.
pub proof fn law_map_patches_keep_author_order(current: XmlModel, previous: XmlModel)
    requires
        !xml_equiv(current, previous),
        is_same_collection(current, previous),
        current.metadata.is_map,
        previous.metadata.is_map,
        !has_slot(current.children),
        !has_slot(previous.children),
        entries_of(visible_items(current.children), None) is Some,
        entries_of(visible_items(previous.children), None) is Some,
    ensures
        says_in_order(
            diff_value(current, previous, StrategyModel::Recursive),
            current.name,
            entries_of(visible_items(current.children), None)->Some_0,
            entries_of(visible_items(previous.children), None)->Some_0,
        ),
{
    reveal_with_fuel(diff_value, 2);
    let now = entries_of(visible_items(current.children), None)->Some_0;
    let then = entries_of(visible_items(previous.children), None)->Some_0;
    lemma_unmatched(now, then);
    lemma_unmatched(then, now);
    lemma_changed(now, then);
    lemma_patch(current, unmatched(now, then), unmatched(then, now), changed(now, then));
}

/// What the slots of an element say stands in the order of the slots, once for each.
pub proof fn law_slot_patches_keep_author_order(
    current: Seq<EdgeModel>,
    previous: Seq<EdgeModel>,
    n: int,
)
    requires
        0 < n <= current.len(),
        current.len() == previous.len(),
    ensures
        slot_patches(current, previous, 0).len() == 0,
        ({
            let before = slot_patches(current, previous, n - 1);
            let all = slot_patches(current, previous, n);
            let slots = current[n - 1] is Slot && previous[n - 1] is Slot;
            let said = diff_slot(current[n - 1]->Slot_0, previous[n - 1]->Slot_0);
            &&& slots && said is Some ==> all == before.push(
                EdgeModel::Node(NodeModel::Xml(said->Some_0)),
            )
            &&& !slots || said is None ==> all == before
        }),
{
    reveal_with_fuel(slot_patches, 2);
    reveal_with_fuel(edge_patch, 2);
}

/// An element that differs in its slots alone sends what all its slots say.
pub proof fn law_elements_send_all_their_slots(current: XmlModel, previous: XmlModel)
    requires
        !xml_equiv(current, previous),
        same_unmarked_shape(current, previous),
    ensures
        ({
            let said = slot_patches(
                current.children,
                previous.children,
                current.children.len() as int,
            );
            let patch = diff_xml(current, previous);
            &&& patch is None <==> said.len() == 0
            &&& patch is Some ==> patch->Some_0.children == said
        }),
{
    reveal_with_fuel(diff_xml, 2);
}

/// What the roots of a document say stands in the order of the roots, once for each.
pub proof fn law_root_patches_keep_author_order(
    current: Seq<EdgeModel>,
    previous: Seq<EdgeModel>,
    n: int,
)
    requires
        0 < n <= current.len(),
        stable_layout(current, previous),
        !edges_equiv(current, previous),
    ensures
        root_patches(current, previous, 0).len() == 0,
        ({
            let before = root_patches(current, previous, n - 1);
            let all = root_patches(current, previous, n);
            let said = diff_xml(current[n - 1]->Node_0->Xml_0, previous[n - 1]->Node_0->Xml_0);
            &&& said is Some ==> all == before.push(EdgeModel::Node(NodeModel::Xml(said->Some_0)))
            &&& said is None ==> all == before
        }),
        ({
            let said = root_patches(current, previous, current.len() as int);
            let patch = diff_documents(current, previous);
            &&& patch is None <==> said.len() == 0
            &&& patch is Some ==> patch->Some_0 == said
        }),
{
}

} // verus!
