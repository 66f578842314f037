//! What patches say.

use vstd::prelude::*;
use crate::pom::equivalence::{law_node_symmetric, law_node_transitive};
use crate::pom::model::{
    attributes_equiv, edge_equiv, edges_equiv, metadata_equiv, node_equiv, slot_equiv, well_formed_node,
    xml_equiv, AttributeModel, EdgeModel, MarkdownModel, NodeModel, SlotModel, StrategyModel, XmlModel,
};
use crate::pom::xml::{attribute_value, has_attribute};
use crate::pom_diff::{
    as_item, changed, collection_patch, contains_item, deletion, diff_documents,
    diff_slot, diff_value, diff_xml, edge_patch, entries_of, entry_changed, entry_operations,
    full_update, has_entry, item_identity, missing_items, operations, removals, root_patches,
    same_unmarked_shape, slot_patches, sort_entries, stable_layout, unmatched,
    visible_items, EntryModel,
};
use crate::pom_laws::law_sorting_orders_the_entries;

verus! {

/// Whether a child is an operation on an item: an element of the operation's name, with the
/// item in it and nothing else.
pub open spec fn is_operation(edge: EdgeModel, name: Seq<char>, item: XmlModel) -> bool {
    match edge {
        EdgeModel::Node(NodeModel::Xml(node)) => {
            &&& node.name == name
            &&& node.attributes.len() == 0
            &&& node.children == seq![EdgeModel::Node(NodeModel::Xml(item))]
            &&& !node.metadata.is_map
            &&& node.metadata.identity is None
        },
        _ => false,
    }
}

/// Whether a node is marked as a change of the node of a name.
pub open spec fn is_delta_of(patch: XmlModel, name: Seq<char>) -> bool {
    &&& patch.name == name
    &&& patch.attributes == seq![AttributeModel { name: "rendering_mode"@, value: "delta"@ }]
    &&& !patch.metadata.is_map
    &&& patch.metadata.identity is None
}

/// Whether two nodes are the same collection, whatever they hold.
pub open spec fn is_same_collection(current: XmlModel, previous: XmlModel) -> bool {
    &&& current.name == previous.name
    &&& attributes_equiv(current.attributes, previous.attributes)
    &&& metadata_equiv(current.metadata, previous.metadata)
}

/// Whether operations of one name on items stand among children, from a position on.
pub open spec fn operations_from(
    children: Seq<EdgeModel>,
    from: int,
    name: Seq<char>,
    items: Seq<XmlModel>,
) -> bool {
    forall|i: int|
        0 <= i < items.len() ==> is_operation(children[from + i], name, #[trigger] items[i])
}

pub(crate) proof fn lemma_patch(
    current: XmlModel,
    first: Seq<XmlModel>,
    second: Seq<XmlModel>,
    third: Seq<XmlModel>,
)
    ensures
        ({
            let changes = operations("insert"@, first) + operations("remove"@, second)
                + operations("update"@, third);
            let patch = collection_patch(current, changes);
            let a = first.len() as int;
            let b = second.len() as int;
            &&& patch is None <==> first.len() == 0 && second.len() == 0 && third.len() == 0
            &&& patch is Some ==> {
                &&& is_delta_of(patch->Some_0, current.name)
                &&& patch->Some_0.children.len() == first.len() + second.len() + third.len()
                &&& operations_from(patch->Some_0.children, 0, "insert"@, first)
                &&& operations_from(patch->Some_0.children, a, "remove"@, second)
                &&& operations_from(patch->Some_0.children, a + b, "update"@, third)
            }
        }),
{
    let changes = operations("insert"@, first) + operations("remove"@, second) + operations(
        "update"@,
        third,
    );
    let patch = collection_patch(current, changes);
    if patch is Some {
        let children = patch->Some_0.children;
        assert forall|i: int| 0 <= i < first.len() implies is_operation(
            children[0 + i],
            "insert"@,
            #[trigger] first[i],
        ) by {
            assert(changes[i] == operations("insert"@, first)[i]);
        }
        assert forall|i: int| 0 <= i < second.len() implies is_operation(
            children[first.len() + i],
            "remove"@,
            #[trigger] second[i],
        ) by {
            assert(changes[first.len() + i] == operations("remove"@, second)[i]);
        }
        assert forall|i: int| 0 <= i < third.len() implies is_operation(
            children[first.len() + second.len() + i],
            "update"@,
            #[trigger] third[i],
        ) by {
            assert(changes[first.len() + second.len() + i] == operations("update"@, third)[i]);
        }
    }
}

/// A value that is replaced is sent whole, inside one `replace`.
pub proof fn law_replacing_sends_the_value(current: XmlModel, previous: XmlModel)
    requires
        !xml_equiv(current, previous),
    ensures
        ({
            let patch = diff_value(current, previous, StrategyModel::Replace);
            &&& patch is Some
            &&& is_delta_of(patch->Some_0, current.name)
            &&& patch->Some_0.children.len() == 1
            &&& is_operation(patch->Some_0.children[0], "replace"@, current)
        }),
{
    reveal_with_fuel(diff_value, 2);
}

/// Whether the items of one list come first in another.
pub open spec fn leads(first: Seq<XmlModel>, all: Seq<XmlModel>) -> bool {
    &&& first.len() <= all.len()
    &&& forall|i: int| 0 <= i < first.len() ==> xml_equiv(#[trigger] all[i], first[i])
}

/// A collection that grew at its end sends the items behind the earlier ones, in order, and
/// nothing else. One that changed otherwise is sent whole.
pub proof fn law_appended_items_are_inserted(current: XmlModel, previous: XmlModel)
    requires
        !xml_equiv(current, previous),
    ensures
        ({
            let now = visible_items(current.children);
            let then = visible_items(previous.children);
            let patch = diff_value(current, previous, StrategyModel::Append);
            let grew = is_same_collection(current, previous) && leads(then, now);
            &&& !grew ==> patch == Some(current)
            &&& grew ==> (patch is None <==> now.len() == then.len())
            &&& grew && patch is Some ==> {
                &&& is_delta_of(patch->Some_0, current.name)
                &&& patch->Some_0.children.len() == now.len() - then.len()
                &&& operations_from(
                    patch->Some_0.children,
                    0,
                    "insert"@,
                    now.skip(then.len() as int),
                )
            }
        }),
{
    reveal_with_fuel(diff_value, 2);
    let now = visible_items(current.children);
    let then = visible_items(previous.children);
    if leads(then, now) {
        let added = now.skip(then.len() as int);
        lemma_patch(current, added, Seq::empty(), Seq::empty());
        assert(operations("insert"@, added) + operations("remove"@, Seq::empty()) + operations(
            "update"@,
            Seq::empty(),
        ) =~= operations("insert"@, added));
    }
}

/// A sequence that grew or shrank at its end sends what came, or what went, in order. One
/// that changed otherwise is sent whole.
pub proof fn law_sequences_change_at_their_end(current: XmlModel, previous: XmlModel)
    requires
        !xml_equiv(current, previous),
    ensures
        ({
            let now = visible_items(current.children);
            let then = visible_items(previous.children);
            let patch = diff_value(current, previous, StrategyModel::Sequence);
            let same = is_same_collection(current, previous);
            let alike = forall|i: int|
                0 <= i < now.len() && i < then.len() ==> xml_equiv(#[trigger] now[i], then[i]);
            &&& !same || !alike ==> patch == Some(current)
            &&& same && alike ==> (patch is None <==> now.len() == then.len())
            &&& same && alike && now.len() > then.len() ==> {
                &&& patch is Some
                &&& is_delta_of(patch->Some_0, current.name)
                &&& patch->Some_0.children.len() == now.len() - then.len()
                &&& operations_from(
                    patch->Some_0.children,
                    0,
                    "insert"@,
                    now.skip(then.len() as int),
                )
            }
            &&& same && alike && now.len() < then.len() ==> {
                &&& patch is Some
                &&& is_delta_of(patch->Some_0, current.name)
                &&& patch->Some_0.children.len() == then.len() - now.len()
                &&& operations_from(
                    patch->Some_0.children,
                    0,
                    "remove"@,
                    then.skip(now.len() as int),
                )
            }
        }),
{
    reveal_with_fuel(diff_value, 2);
    let now = visible_items(current.children);
    let then = visible_items(previous.children);
    let common = if now.len() < then.len() {
        now.len() as int
    } else {
        then.len() as int
    };
    lemma_patch(current, now.skip(common), then.skip(common), Seq::empty());
    assert(operations("insert"@, now.skip(common)) + operations("remove"@, then.skip(common))
        + operations("update"@, Seq::empty()) =~= operations("insert"@, now.skip(common))
        + operations("remove"@, then.skip(common)));
}

/// Whether no item of a list is equal to another item.
pub open spec fn lacks(items: Seq<XmlModel>, item: XmlModel) -> bool {
    forall|i: int| 0 <= i < items.len() ==> !xml_equiv(#[trigger] items[i], item)
}

proof fn lemma_missing(items: Seq<XmlModel>, others: Seq<XmlModel>)
    ensures
        missing_items(items, others) == items.filter(|item: XmlModel| lacks(others, item)),
    decreases items.len(),
{
    reveal(Seq::filter);
    if items.len() > 0 {
        lemma_missing(items.drop_last(), others);
        assert(contains_item(others, items.last()) == !lacks(others, items.last()));
    }
}

/// An unordered collection inserts exactly the items that it had not before, and removes
/// exactly those that it has no more, each list in order.
pub proof fn law_sets_say_what_came_and_went(current: XmlModel, previous: XmlModel)
    requires
        !xml_equiv(current, previous),
    ensures
        ({
            let now = visible_items(current.children);
            let then = visible_items(previous.children);
            let came = now.filter(|item: XmlModel| lacks(then, item));
            let went = then.filter(|item: XmlModel| lacks(now, item));
            let patch = diff_value(current, previous, StrategyModel::UnorderedSet);
            &&& !is_same_collection(current, previous) ==> patch == Some(current)
            &&& is_same_collection(current, previous) ==> (patch is None <==> came.len() == 0
                && went.len() == 0)
            &&& is_same_collection(current, previous) && patch is Some ==> {
                &&& is_delta_of(patch->Some_0, current.name)
                &&& patch->Some_0.children.len() == came.len() + went.len()
                &&& operations_from(patch->Some_0.children, 0, "insert"@, came)
                &&& operations_from(patch->Some_0.children, came.len() as int, "remove"@, went)
            }
        }),
{
    reveal_with_fuel(diff_value, 2);
    let now = visible_items(current.children);
    let then = visible_items(previous.children);
    lemma_missing(now, then);
    lemma_missing(then, now);
    let came = missing_items(now, then);
    let went = missing_items(then, now);
    lemma_patch(current, came, went, Seq::empty());
    assert(operations("insert"@, came) + operations("remove"@, went) + operations(
        "update"@,
        Seq::empty(),
    ) =~= operations("insert"@, came) + operations("remove"@, went));
}

/// Whether items are told apart: each has an identity, and no two have the same.
pub open spec fn are_told_apart(items: Seq<XmlModel>, key: Option<Seq<char>>) -> bool {
    &&& forall|i: int| 0 <= i < items.len() ==> item_identity(#[trigger] items[i], key) is Some
    &&& forall|i: int, j: int|
        0 <= i < j < items.len() ==> !node_equiv(
            item_identity(#[trigger] items[i], key)->Some_0,
            item_identity(#[trigger] items[j], key)->Some_0,
        )
}

/// The entries of a collection are its items, in order, each with its identity. There are
/// none exactly where the items are not told apart.
pub proof fn law_entries_are_items_with_their_identity(
    items: Seq<XmlModel>,
    key: Option<Seq<char>>,
)
    ensures
        entries_of(items, key) is Some <==> are_told_apart(items, key),
        entries_of(items, key) is Some ==> entries_of(items, key)->Some_0.len() == items.len(),
        entries_of(items, key) is Some ==> forall|i: int|
            0 <= i < items.len() ==> (#[trigger] entries_of(items, key)->Some_0[i]).node == items[i]
                && Some(entries_of(items, key)->Some_0[i].identity) == item_identity(items[i], key),
    decreases items.len(),
{
    if items.len() > 0 {
        let before = items.drop_last();
        let last = items.len() - 1;
        law_entries_are_items_with_their_identity(before, key);
        assert(items[last] == items.last());
        assert(forall|i: int| 0 <= i < before.len() ==> #[trigger] before[i] == items[i]);
        if are_told_apart(items, key) {
            assert forall|i: int, j: int| 0 <= i < j < before.len() implies !node_equiv(
                item_identity(#[trigger] before[i], key)->Some_0,
                item_identity(#[trigger] before[j], key)->Some_0,
            ) by {
                assert(items[i] == before[i] && items[j] == before[j]);
            }
            assert forall|i: int| 0 <= i < before.len() implies item_identity(
                #[trigger] before[i],
                key,
            ) is Some by {
                assert(items[i] == before[i]);
            }
            assert(are_told_apart(before, key));
            let entries = entries_of(before, key)->Some_0;
            let identity = item_identity(items[last], key)->Some_0;
            assert(!has_entry(entries, identity)) by {
                if has_entry(entries, identity) {
                    let i = choose|i: int|
                        0 <= i < entries.len() && node_equiv(
                            #[trigger] entries[i].identity,
                            identity,
                        );
                    assert(entries[i].node == before[i]);
                    assert(items[i] == before[i]);
                }
            }
        }
        if entries_of(items, key) is Some {
            let was = entries_of(before, key)->Some_0;
            let entries = entries_of(items, key)->Some_0;
            let identity = item_identity(items.last(), key)->Some_0;
            assert forall|i: int| 0 <= i < items.len() implies (#[trigger] entries[i]).node
                == items[i] && Some(entries[i].identity) == item_identity(items[i], key) by {
                if i < last {
                    assert(entries[i] == was[i]);
                    assert(before[i] == items[i]);
                }
            }
            assert forall|i: int| 0 <= i < items.len() implies item_identity(
                #[trigger] items[i],
                key,
            ) is Some by {
                if i < last {
                    assert(before[i] == items[i]);
                }
            }
            assert forall|i: int, j: int| 0 <= i < j < items.len() implies !node_equiv(
                item_identity(#[trigger] items[i], key)->Some_0,
                item_identity(#[trigger] items[j], key)->Some_0,
            ) by {
                assert(before[i] == items[i]);
                if j < last {
                    assert(before[j] == items[j]);
                } else {
                    assert(was[i].node == before[i]);
                    if node_equiv(was[i].identity, identity) {
                        assert(has_entry(was, identity));
                    }
                }
            }
        }
    }
}

/// The value of the key attribute tells items apart, or, without a key, the identity that
/// they carry.
pub proof fn law_items_are_identified_by_their_key(item: XmlModel, key: Seq<char>, at: int)
    requires
        0 <= at < item.attributes.len(),
        forall|i: int, j: int|
            0 <= i < j < item.attributes.len() ==> (#[trigger] item.attributes[i]).name != (
            #[trigger] item.attributes[j]).name,
    ensures
        item.attributes[at].name == key ==> item_identity(item, Some(key)) == Some(
            NodeModel::Text(item.attributes[at].value),
        ),
        (forall|i: int| 0 <= i < item.attributes.len() ==> (#[trigger] item.attributes[i]).name
            != key) ==> item_identity(item, Some(key)) is None,
        item.metadata.identity is Some ==> item_identity(item, None) == Some(
            *item.metadata.identity->Some_0,
        ),
        item.metadata.identity is None ==> item_identity(item, None) is None,
{
    if item.attributes[at].name == key {
        assert(has_attribute(item.attributes, key));
        let i = choose|i: int|
            0 <= i < item.attributes.len() && (#[trigger] item.attributes[i]).name == key;
        if i < at {
            assert(item.attributes[i].name != item.attributes[at].name);
        }
        if at < i {
            assert(item.attributes[at].name != item.attributes[i].name);
        }
        assert(attribute_value(item.attributes, key) == item.attributes[at].value);
    }
}

/// Whether no entry has an identity.
pub open spec fn lacks_entry(entries: Seq<EntryModel>, identity: NodeModel) -> bool {
    forall|i: int|
        0 <= i < entries.len() ==> !node_equiv((#[trigger] entries[i]).identity, identity)
}

/// Whether some entry of the same identity has another value.
pub open spec fn holds_other_value(entries: Seq<EntryModel>, entry: EntryModel) -> bool {
    exists|i: int|
        0 <= i < entries.len() && node_equiv((#[trigger] entries[i]).identity, entry.identity)
            && !xml_equiv(entries[i].node, entry.node)
}

/// Whether an identity stands for one entry alone, and all identities are well formed.
pub open spec fn one_value_each(entries: Seq<EntryModel>) -> bool {
    &&& forall|i: int| 0 <= i < entries.len() ==> well_formed_node((#[trigger] entries[i]).identity)
    &&& forall|i: int, j: int|
        0 <= i < entries.len() && 0 <= j < entries.len() && node_equiv(
            (#[trigger] entries[i]).identity,
            (#[trigger] entries[j]).identity,
        ) ==> entries[i] == entries[j]
}

proof fn lemma_unmatched(entries: Seq<EntryModel>, others: Seq<EntryModel>)
    ensures
        unmatched(entries, others) == entries.filter(
            |entry: EntryModel| lacks_entry(others, entry.identity),
        ).map_values(|entry: EntryModel| entry.node),
    decreases entries.len(),
{
    reveal(Seq::filter);
    let keep = |entry: EntryModel| lacks_entry(others, entry.identity);
    let node = |entry: EntryModel| entry.node;
    if entries.len() > 0 {
        let before = entries.drop_last();
        let last = entries.last();
        lemma_unmatched(before, others);
        assert(has_entry(others, last.identity) == !lacks_entry(others, last.identity)) by {
            if has_entry(others, last.identity) {
                let i = choose|i: int|
                    0 <= i < others.len() && node_equiv(
                        #[trigger] others[i].identity,
                        last.identity,
                    );
                assert(node_equiv(others[i].identity, last.identity));
            }
            if !lacks_entry(others, last.identity) {
                let i = choose|i: int|
                    0 <= i < others.len() && node_equiv(
                        (#[trigger] others[i]).identity,
                        last.identity,
                    );
                assert(node_equiv(others[i].identity, last.identity));
            }
        }
    }
    assert(unmatched(entries, others) =~= entries.filter(keep).map_values(node));
}

proof fn lemma_changed(entries: Seq<EntryModel>, others: Seq<EntryModel>)
    requires
        one_value_each(entries),
        one_value_each(others),
    ensures
        changed(entries, others) == entries.filter(
            |entry: EntryModel| holds_other_value(others, entry),
        ).map_values(|entry: EntryModel| entry.node),
    decreases entries.len(),
{
    reveal(Seq::filter);
    let keep = |entry: EntryModel| holds_other_value(others, entry);
    let node = |entry: EntryModel| entry.node;
    if entries.len() > 0 {
        let before = entries.drop_last();
        assert(one_value_each(before)) by {
            assert(forall|i: int| 0 <= i < before.len() ==> #[trigger] before[i] == entries[i]);
        }
        lemma_changed(before, others);
        assert(well_formed_node(entries[entries.len() - 1].identity));
        lemma_entry_changed(others, entries.last());
    }
    assert(changed(entries, others) =~= entries.filter(keep).map_values(node));
}

proof fn lemma_first_entry(others: Seq<EntryModel>, identity: NodeModel, at: int) -> (first: int)
    requires
        0 <= at < others.len(),
        node_equiv(others[at].identity, identity),
    ensures
        0 <= first <= at,
        node_equiv(others[first].identity, identity),
        forall|j: int| 0 <= j < first ==> !node_equiv(#[trigger] others[j].identity, identity),
    decreases at,
{
    if exists|j: int| 0 <= j < at && node_equiv(#[trigger] others[j].identity, identity) {
        let j = choose|j: int| 0 <= j < at && node_equiv(#[trigger] others[j].identity, identity);
        lemma_first_entry(others, identity, j)
    } else {
        at
    }
}

proof fn lemma_entry_changed(others: Seq<EntryModel>, entry: EntryModel)
    requires
        one_value_each(others),
        well_formed_node(entry.identity),
    ensures
        entry_changed(others, entry) == holds_other_value(others, entry),
{
    if entry_changed(others, entry) {
        let i = choose|i: int|
            0 <= i < others.len() && node_equiv(#[trigger] others[i].identity, entry.identity) && (
            forall|j: int|
                0 <= j < i ==> !node_equiv(#[trigger] others[j].identity, entry.identity))
                && !xml_equiv(others[i].node, entry.node);
        assert(node_equiv(others[i].identity, entry.identity));
    }
    if holds_other_value(others, entry) {
        let i = choose|i: int|
            0 <= i < others.len() && node_equiv((#[trigger] others[i]).identity, entry.identity)
                && !xml_equiv(others[i].node, entry.node);
        let first = lemma_first_entry(others, entry.identity, i);
        assert(well_formed_node(others[i].identity));
        law_node_symmetric(others[i].identity, entry.identity);
        law_node_transitive(others[first].identity, entry.identity, others[i].identity);
        assert(others[first] == others[i]);
        assert(node_equiv(others[first].identity, entry.identity));
    }
}

proof fn lemma_one_value_each(
    items: Seq<XmlModel>,
    key: Option<Seq<char>>,
    entries: Seq<EntryModel>,
)
    requires
        are_told_apart(items, key),
        forall|i: int|
            0 <= i < items.len() ==> well_formed_node(
                item_identity(#[trigger] items[i], key)->Some_0,
            ),
        entries.to_multiset() == entries_of(items, key)->Some_0.to_multiset(),
    ensures
        one_value_each(entries),
        forall|entry: EntryModel| #[trigger]
            entries.contains(entry) <==> exists|i: int|
                0 <= i < items.len() && entry.node == #[trigger] items[i] && Some(entry.identity)
                    == item_identity(items[i], key),
{
    broadcast use vstd::seq_lib::group_to_multiset_ensures;

    law_entries_are_items_with_their_identity(items, key);
    let all = entries_of(items, key)->Some_0;
    assert forall|entry: EntryModel| #[trigger] entries.contains(entry) <==> exists|i: int|
        0 <= i < items.len() && entry.node == #[trigger] items[i] && Some(entry.identity)
            == item_identity(items[i], key) by {
        assert(entries.contains(entry) <==> entries.to_multiset().count(entry) > 0);
        assert(all.contains(entry) <==> all.to_multiset().count(entry) > 0);
        if all.contains(entry) {
            let i = choose|i: int| 0 <= i < all.len() && all[i] == entry;
            assert(all[i].node == items[i]);
        }
        if exists|i: int|
            0 <= i < items.len() && entry.node == #[trigger] items[i] && Some(entry.identity)
                == item_identity(items[i], key) {
            let i = choose|i: int|
                0 <= i < items.len() && entry.node == #[trigger] items[i] && Some(entry.identity)
                    == item_identity(items[i], key);
            assert(all[i] == entry);
        }
    }
    assert forall|i: int| 0 <= i < entries.len() implies well_formed_node(
        (#[trigger] entries[i]).identity,
    ) by {
        assert(entries.contains(entries[i]));
        let p = choose|p: int|
            0 <= p < items.len() && entries[i].node == #[trigger] items[p] && Some(
                entries[i].identity,
            ) == item_identity(items[p], key);
        assert(well_formed_node(item_identity(items[p], key)->Some_0));
    }
    assert forall|i: int, j: int|
        0 <= i < entries.len() && 0 <= j < entries.len() && node_equiv(
            (#[trigger] entries[i]).identity,
            (#[trigger] entries[j]).identity,
        ) implies entries[i] == entries[j] by {
        assert(entries.contains(entries[i]));
        assert(entries.contains(entries[j]));
        let p = choose|p: int|
            0 <= p < items.len() && entries[i].node == #[trigger] items[p] && Some(
                entries[i].identity,
            ) == item_identity(items[p], key);
        let q = choose|q: int|
            0 <= q < items.len() && entries[j].node == #[trigger] items[q] && Some(
                entries[j].identity,
            ) == item_identity(items[q], key);
        assert(well_formed_node(item_identity(items[p], key)->Some_0));
        assert(well_formed_node(item_identity(items[q], key)->Some_0));
        if p < q {
            assert(!node_equiv(
                item_identity(items[p], key)->Some_0,
                item_identity(items[q], key)->Some_0,
            ));
        }
        if q < p {
            law_node_symmetric(entries[i].identity, entries[j].identity);
            assert(!node_equiv(
                item_identity(items[q], key)->Some_0,
                item_identity(items[p], key)->Some_0,
            ));
        }
    }
}

/// Whether a patch has an operation on an item.
pub open spec fn has_operation(patch: XmlModel, name: Seq<char>, item: XmlModel) -> bool {
    exists|c: int|
        0 <= c < patch.children.len() && is_operation(#[trigger] patch.children[c], name, item)
}

/// Whether items have one identity.
pub open spec fn same_identity(a: XmlModel, b: XmlModel, key: Option<Seq<char>>) -> bool {
    node_equiv(item_identity(a, key)->Some_0, item_identity(b, key)->Some_0)
}

/// Whether there is a patch with an operation on an item.
pub open spec fn says(patch: Option<XmlModel>, name: Seq<char>, item: XmlModel) -> bool {
    patch is Some && has_operation(patch->Some_0, name, item)
}

/// Whether no item has the identity of another.
pub open spec fn is_new_to(item: XmlModel, items: Seq<XmlModel>, key: Option<Seq<char>>) -> bool {
    forall|j: int| 0 <= j < items.len() ==> !same_identity(#[trigger] items[j], item, key)
}

/// Whether an item of the same identity has another value.
pub open spec fn is_changed_from(item: XmlModel, items: Seq<XmlModel>, key: Option<Seq<char>>) -> bool {
    exists|j: int|
        0 <= j < items.len() && same_identity(#[trigger] items[j], item, key) && !xml_equiv(
            items[j],
            item,
        )
}

/// Whether a child of a patch is one of its operations on the items of two collections.
pub open spec fn is_known_operation(
    edge: EdgeModel,
    previous: Seq<XmlModel>,
    current: Seq<XmlModel>,
) -> bool {
    ||| exists|i: int| 0 <= i < current.len() && is_operation(edge, "insert"@, #[trigger] current[i])
    ||| exists|i: int| 0 <= i < current.len() && is_operation(edge, "update"@, #[trigger] current[i])
    ||| exists|j: int|
        0 <= j < previous.len() && is_operation(edge, "remove"@, #[trigger] previous[j])
}

/// Whether a patch turns one collection of items into another: it inserts exactly the items
/// whose identity is new, removes exactly those whose identity is gone, updates exactly
/// those that are equal no more, and says nothing else. Without a patch there is nothing to
/// say.
pub open spec fn patch_turns(
    patch: Option<XmlModel>,
    previous: Seq<XmlModel>,
    current: Seq<XmlModel>,
    key: Option<Seq<char>>,
) -> bool {
    &&& forall|i: int|
        0 <= i < current.len() ==> (says(patch, "insert"@, #[trigger] current[i]) <==> is_new_to(
            current[i],
            previous,
            key,
        ))
    &&& forall|i: int|
        0 <= i < current.len() ==> (says(patch, "update"@, #[trigger] current[i])
            <==> is_changed_from(current[i], previous, key))
    &&& forall|j: int|
        0 <= j < previous.len() ==> (says(patch, "remove"@, #[trigger] previous[j]) <==> is_new_to(
            previous[j],
            current,
            key,
        ))
    &&& patch is Some ==> forall|c: int|
        0 <= c < patch->Some_0.children.len() ==> is_known_operation(
            #[trigger] patch->Some_0.children[c],
            previous,
            current,
        )
}

proof fn lemma_says(
    current: XmlModel,
    first: Seq<XmlModel>,
    second: Seq<XmlModel>,
    third: Seq<XmlModel>,
    item: XmlModel,
)
    ensures
        ({
            let changes = operations("insert"@, first) + operations("remove"@, second)
                + operations("update"@, third);
            let patch = collection_patch(current, changes);
            &&& says(patch, "insert"@, item) <==> first.contains(item)
            &&& says(patch, "remove"@, item) <==> second.contains(item)
            &&& says(patch, "update"@, item) <==> third.contains(item)
        }),
{
    let changes = operations("insert"@, first) + operations("remove"@, second) + operations(
        "update"@,
        third,
    );
    let patch = collection_patch(current, changes);
    lemma_patch(current, first, second, third);
    lemma_words_differ();
    if patch is None {
        assert(first =~= Seq::empty() && second =~= Seq::empty() && third =~= Seq::empty());
    } else {
        let children = patch->Some_0.children;
        let a = first.len() as int;
        let b = second.len() as int;
        assert forall|c: int, name: Seq<char>|
            0 <= c < children.len() && #[trigger] is_operation(children[c], name, item) implies (
        c < a && name == "insert"@ && first[c] == item) || (a <= c < a + b && name == "remove"@
            && second[c - a] == item) || (a + b <= c && name == "update"@ && third[c - a - b]
            == item) by {
            let held = seq![EdgeModel::Node(NodeModel::Xml(item))];
            assert(held[0] == EdgeModel::Node(NodeModel::Xml(item)));
            if c < a {
                assert(is_operation(children[0 + c], "insert"@, first[c]));
                let own = seq![EdgeModel::Node(NodeModel::Xml(first[c]))];
                assert(own[0] == held[0]);
            } else if c < a + b {
                assert(is_operation(children[a + (c - a)], "remove"@, second[c - a]));
                let own = seq![EdgeModel::Node(NodeModel::Xml(second[c - a]))];
                assert(own[0] == held[0]);
            } else {
                assert(is_operation(children[a + b + (c - a - b)], "update"@, third[c - a - b]));
                let own = seq![EdgeModel::Node(NodeModel::Xml(third[c - a - b]))];
                assert(own[0] == held[0]);
            }
        }
        if first.contains(item) {
            let i = choose|i: int| 0 <= i < first.len() && first[i] == item;
            assert(is_operation(children[0 + i], "insert"@, first[i]));
        }
        if second.contains(item) {
            let i = choose|i: int| 0 <= i < second.len() && second[i] == item;
            assert(is_operation(children[a + i], "remove"@, second[i]));
        }
        if third.contains(item) {
            let i = choose|i: int| 0 <= i < third.len() && third[i] == item;
            assert(is_operation(children[a + b + i], "update"@, third[i]));
        }
    }
}

proof fn lemma_words_differ()
    ensures
        "insert"@ != "remove"@,
        "insert"@ != "update"@,
        "remove"@ != "update"@,
{
    reveal_strlit("insert");
    reveal_strlit("remove");
    reveal_strlit("update");
    assert("insert"@[0] == 'i');
    assert("remove"@[0] == 'r');
    assert("update"@[0] == 'u');
}

proof fn lemma_filtered_nodes(
    entries: Seq<EntryModel>,
    keep: spec_fn(EntryModel) -> bool,
    item: XmlModel,
)
    ensures
        entries.filter(keep).map_values(|entry: EntryModel| entry.node).contains(item)
            <==> exists|k: int|
            0 <= k < entries.len() && keep(#[trigger] entries[k]) && entries[k].node == item,
{
    broadcast use vstd::seq_lib::group_filter_ensures;

    let kept = entries.filter(keep);
    let nodes = kept.map_values(|entry: EntryModel| entry.node);
    if nodes.contains(item) {
        let i = choose|i: int| 0 <= i < nodes.len() && nodes[i] == item;
        assert(keep(kept[i]));
        assert(kept.contains(kept[i]));
        entries.lemma_filter_contains_rev(keep, kept[i]);
        let k = choose|k: int| 0 <= k < entries.len() && entries[k] == kept[i];
        assert(keep(entries[k]));
    }
    if exists|k: int|
        0 <= k < entries.len() && keep(#[trigger] entries[k]) && entries[k].node == item {
        let k = choose|k: int|
            0 <= k < entries.len() && keep(#[trigger] entries[k]) && entries[k].node == item;
        entries.lemma_filter_contains(keep, k);
        let i = choose|i: int| 0 <= i < kept.len() && kept[i] == entries[k];
        assert(nodes[i] == item);
    }
}

/// Whether entries are those of items, in some order.
pub open spec fn are_entries_of(
    entries: Seq<EntryModel>,
    items: Seq<XmlModel>,
    key: Option<Seq<char>>,
) -> bool {
    forall|entry: EntryModel| #[trigger]
        entries.contains(entry) <==> exists|i: int|
            0 <= i < items.len() && entry.node == #[trigger] items[i] && Some(entry.identity)
                == item_identity(items[i], key)
}

proof fn lemma_entry_of(
    entries: Seq<EntryModel>,
    items: Seq<XmlModel>,
    key: Option<Seq<char>>,
    at: int,
) -> (k: int)
    requires
        are_entries_of(entries, items, key),
        are_told_apart(items, key),
        0 <= at < items.len(),
    ensures
        0 <= k < entries.len(),
        entries[k].node == items[at],
        Some(entries[k].identity) == item_identity(items[at], key),
{
    assert(item_identity(items[at], key) is Some);
    let entry = EntryModel { identity: item_identity(items[at], key)->Some_0, node: items[at] };
    assert(entries.contains(entry));
    choose|k: int| 0 <= k < entries.len() && entries[k] == entry
}

proof fn lemma_item_of(
    entries: Seq<EntryModel>,
    items: Seq<XmlModel>,
    key: Option<Seq<char>>,
    k: int,
) -> (at: int)
    requires
        are_entries_of(entries, items, key),
        0 <= k < entries.len(),
    ensures
        0 <= at < items.len(),
        entries[k].node == items[at],
        Some(entries[k].identity) == item_identity(items[at], key),
{
    assert(entries.contains(entries[k]));
    choose|at: int|
        0 <= at < items.len() && entries[k].node == #[trigger] items[at] && Some(
            entries[k].identity,
        ) == item_identity(items[at], key)
}

proof fn lemma_unmatched_items(
    entries: Seq<EntryModel>,
    items: Seq<XmlModel>,
    others: Seq<EntryModel>,
    other_items: Seq<XmlModel>,
    key: Option<Seq<char>>,
    at: int,
)
    requires
        are_entries_of(entries, items, key),
        are_entries_of(others, other_items, key),
        are_told_apart(items, key),
        are_told_apart(other_items, key),
        0 <= at < items.len(),
    ensures
        unmatched(entries, others).contains(items[at]) <==> is_new_to(items[at], other_items, key),
{
    let keep = |entry: EntryModel| lacks_entry(others, entry.identity);
    lemma_unmatched(entries, others);
    lemma_filtered_nodes(entries, keep, items[at]);
    let identity = item_identity(items[at], key)->Some_0;
    assert(item_identity(items[at], key) is Some);
    if unmatched(entries, others).contains(items[at]) {
        let k = choose|k: int|
            0 <= k < entries.len() && keep(#[trigger] entries[k]) && entries[k].node == items[at];
        let p = lemma_item_of(entries, items, key, k);
        assert(entries[k].identity == identity);
        assert forall|j: int| 0 <= j < other_items.len() implies !same_identity(
            #[trigger] other_items[j],
            items[at],
            key,
        ) by {
            let m = lemma_entry_of(others, other_items, key, j);
            assert(!node_equiv(others[m].identity, identity));
        }
    }
    if is_new_to(items[at], other_items, key) {
        let k = lemma_entry_of(entries, items, key, at);
        assert forall|m: int| 0 <= m < others.len() implies !node_equiv(
            (#[trigger] others[m]).identity,
            identity,
        ) by {
            let j = lemma_item_of(others, other_items, key, m);
            assert(!same_identity(other_items[j], items[at], key));
        }
        assert(keep(entries[k]));
    }
}

proof fn lemma_changed_items(
    entries: Seq<EntryModel>,
    items: Seq<XmlModel>,
    others: Seq<EntryModel>,
    other_items: Seq<XmlModel>,
    key: Option<Seq<char>>,
    at: int,
)
    requires
        one_value_each(entries),
        one_value_each(others),
        are_entries_of(entries, items, key),
        are_entries_of(others, other_items, key),
        are_told_apart(items, key),
        are_told_apart(other_items, key),
        0 <= at < items.len(),
    ensures
        changed(entries, others).contains(items[at]) <==> is_changed_from(
            items[at],
            other_items,
            key,
        ),
{
    let keep = |entry: EntryModel| holds_other_value(others, entry);
    lemma_changed(entries, others);
    lemma_filtered_nodes(entries, keep, items[at]);
    assert(item_identity(items[at], key) is Some);
    if changed(entries, others).contains(items[at]) {
        let k = choose|k: int|
            0 <= k < entries.len() && keep(#[trigger] entries[k]) && entries[k].node == items[at];
        let p = lemma_item_of(entries, items, key, k);
        let m = choose|m: int|
            0 <= m < others.len() && node_equiv(
                (#[trigger] others[m]).identity,
                entries[k].identity,
            ) && !xml_equiv(others[m].node, entries[k].node);
        let j = lemma_item_of(others, other_items, key, m);
        assert(same_identity(other_items[j], items[at], key));
    }
    if is_changed_from(items[at], other_items, key) {
        let k = lemma_entry_of(entries, items, key, at);
        let j = choose|j: int|
            0 <= j < other_items.len() && same_identity(
                #[trigger] other_items[j],
                items[at],
                key,
            ) && !xml_equiv(other_items[j], items[at]);
        let m = lemma_entry_of(others, other_items, key, j);
        assert(node_equiv(others[m].identity, entries[k].identity));
        assert(keep(entries[k]));
    }
}

proof fn lemma_entry_patch(
    current: XmlModel,
    entries: Seq<EntryModel>,
    items: Seq<XmlModel>,
    others: Seq<EntryModel>,
    other_items: Seq<XmlModel>,
    key: Option<Seq<char>>,
)
    requires
        one_value_each(entries),
        one_value_each(others),
        are_entries_of(entries, items, key),
        are_entries_of(others, other_items, key),
        are_told_apart(items, key),
        are_told_apart(other_items, key),
    ensures
        ({
            let patch = collection_patch(current, entry_operations(entries, others));
            &&& patch_turns(patch, other_items, items, key)
            &&& patch is Some ==> is_delta_of(patch->Some_0, current.name)
        }),
{
    let came = unmatched(entries, others);
    let went = unmatched(others, entries);
    let updated = changed(entries, others);
    let patch = collection_patch(current, entry_operations(entries, others));
    lemma_patch(current, came, went, updated);
    assert forall|i: int| 0 <= i < items.len() implies (says(
        patch,
        "insert"@,
        #[trigger] items[i],
    ) <==> is_new_to(items[i], other_items, key)) && (says(patch, "update"@, items[i])
        <==> is_changed_from(items[i], other_items, key)) by {
        lemma_says(current, came, went, updated, items[i]);
        lemma_unmatched_items(entries, items, others, other_items, key, i);
        lemma_changed_items(entries, items, others, other_items, key, i);
    }
    assert forall|j: int| 0 <= j < other_items.len() implies (says(
        patch,
        "remove"@,
        #[trigger] other_items[j],
    ) <==> is_new_to(other_items[j], items, key)) by {
        lemma_says(current, came, went, updated, other_items[j]);
        lemma_unmatched_items(others, other_items, entries, items, key, j);
    }
    if patch is Some {
        let children = patch->Some_0.children;
        assert forall|c: int| 0 <= c < children.len() implies is_known_operation(
            #[trigger] children[c],
            other_items,
            items,
        ) by {
            let a = came.len() as int;
            let b = went.len() as int;
            if c < a {
                assert(is_operation(children[0 + c], "insert"@, came[c]));
                lemma_unmatched(entries, others);
                let keep = |entry: EntryModel| lacks_entry(others, entry.identity);
                lemma_filtered_nodes(entries, keep, came[c]);
                assert(came.contains(came[c]));
                let k = choose|k: int|
                    0 <= k < entries.len() && keep(#[trigger] entries[k]) && entries[k].node
                        == came[c];
                let p = lemma_item_of(entries, items, key, k);
                assert(is_operation(children[c], "insert"@, items[p]));
            } else if c < a + b {
                assert(is_operation(children[a + (c - a)], "remove"@, went[c - a]));
                lemma_unmatched(others, entries);
                let keep = |entry: EntryModel| lacks_entry(entries, entry.identity);
                lemma_filtered_nodes(others, keep, went[c - a]);
                assert(went.contains(went[c - a]));
                let k = choose|k: int|
                    0 <= k < others.len() && keep(#[trigger] others[k]) && others[k].node == went[c
                        - a];
                let p = lemma_item_of(others, other_items, key, k);
                assert(is_operation(children[c], "remove"@, other_items[p]));
            } else {
                assert(is_operation(children[a + b + (c - a - b)], "update"@, updated[c - a - b]));
                lemma_changed(entries, others);
                let keep = |entry: EntryModel| holds_other_value(others, entry);
                lemma_filtered_nodes(entries, keep, updated[c - a - b]);
                assert(updated.contains(updated[c - a - b]));
                let k = choose|k: int|
                    0 <= k < entries.len() && keep(#[trigger] entries[k]) && entries[k].node
                        == updated[c - a - b];
                let p = lemma_item_of(entries, items, key, k);
                assert(is_operation(children[c], "update"@, items[p]));
            }
        }
    }
}

proof fn lemma_keyed_identities(items: Seq<XmlModel>, key: Seq<char>)
    requires
        are_told_apart(items, Some(key)),
    ensures
        forall|i: int|
            0 <= i < items.len() ==> well_formed_node(
                item_identity(#[trigger] items[i], Some(key))->Some_0,
            ),
{
    assert forall|i: int| 0 <= i < items.len() implies well_formed_node(
        item_identity(#[trigger] items[i], Some(key))->Some_0,
    ) by {
        assert(item_identity(items[i], Some(key)) is Some);
    }
}

/// A keyed patch turns the earlier collection into the current one: an item whose key is
/// new is inserted, one whose key is gone is removed, one that is equal no more is updated,
/// and nothing else is said. Where keys do not tell the items apart, or the collection
/// itself changed, it is sent whole.
pub proof fn law_keyed_patches_turn_one_into_the_other(
    current: XmlModel,
    previous: XmlModel,
    key: Seq<char>,
)
    requires
        !xml_equiv(current, previous),
    ensures
        ({
            let now = visible_items(current.children);
            let then = visible_items(previous.children);
            let patch = diff_value(current, previous, StrategyModel::Keyed(key));
            let comparable = is_same_collection(current, previous) && are_told_apart(
                now,
                Some(key),
            ) && are_told_apart(then, Some(key));
            &&& !comparable ==> patch == Some(current)
            &&& comparable ==> patch_turns(patch, then, now, Some(key))
            &&& comparable && patch is Some ==> is_delta_of(patch->Some_0, current.name)
        }),
{
    reveal_with_fuel(diff_value, 2);
    let now = visible_items(current.children);
    let then = visible_items(previous.children);
    law_entries_are_items_with_their_identity(now, Some(key));
    law_entries_are_items_with_their_identity(then, Some(key));
    if are_told_apart(now, Some(key)) && are_told_apart(then, Some(key)) {
        let a = sort_entries(entries_of(now, Some(key))->Some_0);
        let b = sort_entries(entries_of(then, Some(key))->Some_0);
        law_sorting_orders_the_entries(entries_of(now, Some(key))->Some_0);
        law_sorting_orders_the_entries(entries_of(then, Some(key))->Some_0);
        lemma_keyed_identities(now, key);
        lemma_keyed_identities(then, key);
        lemma_one_value_each(now, Some(key), a);
        lemma_one_value_each(then, Some(key), b);
        lemma_entry_patch(current, a, now, b, then, Some(key));
    }
}

/// A patch of a map turns the earlier map into the current one, in the same way, by the
/// identities that the entries carry.
pub proof fn law_map_patches_turn_one_into_the_other(current: XmlModel, previous: XmlModel)
    requires
        !xml_equiv(current, previous),
        current.metadata.is_map,
        previous.metadata.is_map,
        forall|i: int|
            0 <= i < visible_items(current.children).len() && (#[trigger] visible_items(
                current.children,
            )[i]).metadata.identity is Some ==> well_formed_node(
                *visible_items(current.children)[i].metadata.identity->Some_0,
            ),
        forall|i: int|
            0 <= i < visible_items(previous.children).len() && (#[trigger] visible_items(
                previous.children,
            )[i]).metadata.identity is Some ==> well_formed_node(
                *visible_items(previous.children)[i].metadata.identity->Some_0,
            ),
    ensures
        ({
            let now = visible_items(current.children);
            let then = visible_items(previous.children);
            let patch = diff_value(current, previous, StrategyModel::Recursive);
            let slots = (exists|i: int|
                0 <= i < current.children.len() && (#[trigger] current.children[i]) is Slot) || (
            exists|i: int|
                0 <= i < previous.children.len() && (#[trigger] previous.children[i]) is Slot);
            let comparable = current.name == previous.name && attributes_equiv(
                current.attributes,
                previous.attributes,
            ) && !slots && are_told_apart(now, None) && are_told_apart(then, None);
            &&& !comparable ==> patch == Some(current)
            &&& comparable ==> patch_turns(patch, then, now, None)
            &&& comparable && patch is Some ==> is_delta_of(patch->Some_0, current.name)
        }),
{
    reveal_with_fuel(diff_value, 2);
    let now = visible_items(current.children);
    let then = visible_items(previous.children);
    law_entries_are_items_with_their_identity(now, None);
    law_entries_are_items_with_their_identity(then, None);
    if are_told_apart(now, None) && are_told_apart(then, None) {
        let a = entries_of(now, None)->Some_0;
        let b = entries_of(then, None)->Some_0;
        assert forall|i: int| 0 <= i < now.len() implies well_formed_node(
            item_identity(#[trigger] now[i], None)->Some_0,
        ) by {
            assert(item_identity(now[i], None) is Some);
        }
        assert forall|i: int| 0 <= i < then.len() implies well_formed_node(
            item_identity(#[trigger] then[i], None)->Some_0,
        ) by {
            assert(item_identity(then[i], None) is Some);
        }
        lemma_one_value_each(now, None, a);
        lemma_one_value_each(then, None, b);
        lemma_entry_patch(current, a, now, b, then, None);
    }
}

/// A collection shows its children in order: elements as they are, slots by their values,
/// absent slots not at all, and anything else inside an `item`.
pub proof fn law_collections_show_their_children(
    before: Seq<EdgeModel>,
    node: XmlModel,
    slot: SlotModel,
    text: Seq<char>,
)
    requires
        text.len() > 0,
    ensures
        visible_items(Seq::empty()) == Seq::<XmlModel>::empty(),
        visible_items(before.push(EdgeModel::Node(NodeModel::Xml(node)))) == visible_items(
            before,
        ).push(node),
        slot.value is Some ==> visible_items(before.push(EdgeModel::Slot(slot))) == visible_items(
            before,
        ).push(slot.value->Some_0),
        slot.value is None ==> visible_items(before.push(EdgeModel::Slot(slot))) == visible_items(
            before,
        ),
        ({
            let all = visible_items(before.push(EdgeModel::Node(NodeModel::Text(text))));
            &&& all.len() == visible_items(before).len() + 1
            &&& all.drop_last() == visible_items(before)
            &&& all.last().name == "item"@
            &&& all.last().attributes.len() == 0
            &&& all.last().children == seq![EdgeModel::Node(NodeModel::Text(text))]
        }),
{
    assert(before.push(EdgeModel::Node(NodeModel::Xml(node))).drop_last() =~= before);
    assert(before.push(EdgeModel::Slot(slot)).drop_last() =~= before);
    let last = EdgeModel::Node(NodeModel::Text(text));
    assert(before.push(last).drop_last() =~= before);
    let all = visible_items(before.push(last));
    assert(all.drop_last() =~= visible_items(before));
    assert(all.last().children =~= seq![last]);
}

/// Markdown and raw text stand inside an `item` as well.
pub proof fn law_other_children_are_wrapped(node: NodeModel)
    requires
        !(node is Xml),
        !(node is Text),
    ensures
        as_item(node).name == "item"@,
        as_item(node).attributes.len() == 0,
        as_item(node).children == seq![EdgeModel::Node(node)],
{
    assert(as_item(node).children =~= seq![EdgeModel::Node(node)]);
}

/// What a slot held before is deleted by an element of its role that holds `none`.
pub proof fn law_deletions_say_none(role: Seq<char>)
    ensures
        is_delta_of(deletion(role), role),
        deletion(role).children.len() == 1,
        deletion(role).children[0] matches EdgeModel::Node(NodeModel::Xml(none)) && {
            &&& none.name == "none"@
            &&& none.attributes.len() == 0
            &&& none.children.len() == 0
        },
{
}

/// A slot that is filled for the first time says its value, one that is emptied is deleted,
/// and one that stays filled is compared under its own strategy.
pub proof fn law_slots_are_compared_by_their_values(current: SlotModel, previous: SlotModel)
    ensures
        current.value is None && previous.value is None ==> diff_slot(current, previous) is None,
        current.value is Some && previous.value is None ==> diff_slot(current, previous)
            == current.value,
        current.value is None && previous.value is Some ==> diff_slot(current, previous) == Some(
            deletion(current.role),
        ),
        current.value is Some && previous.value is Some ==> diff_slot(current, previous)
            == diff_value(
            current.value->Some_0,
            previous.value->Some_0,
            current.strategy,
        ),
{
    reveal_with_fuel(diff_slot, 2);
}

/// Whether two nodes agree but for the values of their slots: everything else is equal, and
/// slots stand at the same places under the same roles and strategies.
pub open spec fn differ_in_slots_alone(current: XmlModel, previous: XmlModel) -> bool {
    &&& is_same_collection(current, previous)
    &&& current.children.len() == previous.children.len()
    &&& forall|i: int|
        0 <= i < current.children.len() ==> match (
            #[trigger] current.children[i],
            previous.children[i],
        ) {
            (EdgeModel::Node(a), EdgeModel::Node(b)) => node_equiv(a, b),
            (EdgeModel::Slot(a), EdgeModel::Slot(b)) => a.role == b.role && a.strategy
                == b.strategy,
            _ => false,
        }
}

/// Whether a position is a slot that has something to say.
pub open spec fn slot_says(current: Seq<EdgeModel>, previous: Seq<EdgeModel>, at: int, patch: XmlModel) -> bool {
    match (current[at], previous[at]) {
        (EdgeModel::Slot(a), EdgeModel::Slot(b)) => diff_slot(a, b) == Some(patch),
        _ => false,
    }
}

proof fn lemma_slot_patches(current: Seq<EdgeModel>, previous: Seq<EdgeModel>, n: int)
    requires
        0 <= n <= current.len(),
    ensures
        forall|at: int, patch: XmlModel|
            0 <= at < n && #[trigger] slot_says(current, previous, at, patch) ==> slot_patches(
                current,
                previous,
                n,
            ).contains(EdgeModel::Node(NodeModel::Xml(patch))),
        forall|c: int|
            0 <= c < slot_patches(current, previous, n).len() ==> exists|at: int, patch: XmlModel|
                0 <= at < n && #[trigger] slot_says(current, previous, at, patch)
                    && #[trigger] slot_patches(current, previous, n)[c] == EdgeModel::Node(
                    NodeModel::Xml(patch),
                ),
        slot_patches(current, previous, n).len() <= n,
    decreases n,
{
    reveal_with_fuel(edge_patch, 2);
    if n > 0 {
        lemma_slot_patches(current, previous, n - 1);
        let before = slot_patches(current, previous, n - 1);
        let all = slot_patches(current, previous, n);
        assert forall|at: int, patch: XmlModel|
            0 <= at < n && #[trigger] slot_says(current, previous, at, patch) implies all.contains(
            EdgeModel::Node(NodeModel::Xml(patch)),
        ) by {
            let edge = EdgeModel::Node(NodeModel::Xml(patch));
            if at < n - 1 {
                let k = choose|k: int| 0 <= k < before.len() && before[k] == edge;
                assert(all[k] == edge);
            } else {
                assert(all[all.len() - 1] == edge);
            }
        }
        assert forall|c: int| 0 <= c < all.len() implies exists|at: int, patch: XmlModel|
            0 <= at < n && #[trigger] slot_says(current, previous, at, patch) && #[trigger] all[c]
                == EdgeModel::Node(NodeModel::Xml(patch)) by {
            if c < before.len() {
                assert(all[c] == before[c]);
                let (at, patch) = choose|at: int, patch: XmlModel|
                    0 <= at < n - 1 && #[trigger] slot_says(current, previous, at, patch)
                        && before[c] == EdgeModel::Node(NodeModel::Xml(patch));
                assert(slot_says(current, previous, at, patch));
            } else {
                let patch = edge_patch(current[n - 1], previous[n - 1])->Some_0;
                assert(slot_says(current, previous, n - 1, patch));
            }
        }
    }
}

/// A node that changed elsewhere than in its slots is sent whole. One that changed in its
/// slots alone sends what these say, and only that, marked as a change and with its kind.
pub proof fn law_nodes_send_what_their_slots_say(current: XmlModel, previous: XmlModel)
    requires
        !xml_equiv(current, previous),
    ensures
        !differ_in_slots_alone(current, previous) ==> diff_xml(current, previous) == Some(current),
        differ_in_slots_alone(current, previous) ==> ({
            let patch = diff_xml(current, previous);
            &&& patch is None <==> forall|at: int, said: XmlModel|
                0 <= at < current.children.len() ==> !#[trigger] slot_says(
                    current.children,
                    previous.children,
                    at,
                    said,
                )
            &&& patch is Some ==> {
                &&& patch->Some_0.name == current.name
                &&& patch->Some_0.attributes[0] == (AttributeModel {
                    name: "rendering_mode"@,
                    value: "delta"@,
                })
                &&& patch->Some_0.attributes.len() == if has_attribute(
                    current.attributes,
                    "kind"@,
                ) {
                    2int
                } else {
                    1
                }
                &&& has_attribute(current.attributes, "kind"@) ==> patch->Some_0.attributes[1]
                    == (AttributeModel {
                    name: "kind"@,
                    value: attribute_value(current.attributes, "kind"@),
                })
                &&& forall|at: int, said: XmlModel|
                    0 <= at < current.children.len() && #[trigger] slot_says(
                        current.children,
                        previous.children,
                        at,
                        said,
                    ) ==> patch->Some_0.children.contains(EdgeModel::Node(NodeModel::Xml(said)))
                &&& forall|c: int|
                    0 <= c < patch->Some_0.children.len() ==> exists|at: int, said: XmlModel|
                        0 <= at < current.children.len() && #[trigger] slot_says(
                            current.children,
                            previous.children,
                            at,
                            said,
                        ) && #[trigger] patch->Some_0.children[c] == EdgeModel::Node(
                            NodeModel::Xml(said),
                        )
            }
        }),
{
    reveal_with_fuel(diff_xml, 2);
    assert(same_unmarked_shape(current, previous) == differ_in_slots_alone(current, previous)) by {
        if same_unmarked_shape(current, previous) {
            assert forall|i: int| 0 <= i < current.children.len() implies match (
                #[trigger] current.children[i],
                previous.children[i],
            ) {
                (EdgeModel::Node(a), EdgeModel::Node(b)) => node_equiv(a, b),
                (EdgeModel::Slot(a), EdgeModel::Slot(b)) => a.role == b.role && a.strategy
                    == b.strategy,
                _ => false,
            } by {}
        }
    }
    lemma_slot_patches(current.children, previous.children, current.children.len() as int);
    let patches = slot_patches(
        current.children,
        previous.children,
        current.children.len() as int,
    );
    if patches.len() > 0 {
        let (at, said) = choose|at: int, said: XmlModel|
            0 <= at < current.children.len() && #[trigger] slot_says(
                current.children,
                previous.children,
                at,
                said,
            ) && patches[0] == EdgeModel::Node(NodeModel::Xml(said));
        assert(slot_says(current.children, previous.children, at, said));
    }
}

/// A value that is compared recursively and is not a map on both sides is compared as a
/// node.
pub proof fn law_recursive_values_are_compared_as_nodes(current: XmlModel, previous: XmlModel)
    requires
        !current.metadata.is_map || !previous.metadata.is_map,
    ensures
        diff_value(current, previous, StrategyModel::Recursive) == diff_xml(current, previous),
{
    reveal_with_fuel(diff_value, 2);
}

/// Whether a child of a document is an element.
pub open spec fn is_element(edge: EdgeModel) -> bool {
    match edge {
        EdgeModel::Node(NodeModel::Xml(_)) => true,
        _ => false,
    }
}

/// The elements of a document that is gone are removed one by one, in order.
pub proof fn law_every_element_is_removed(children: Seq<EdgeModel>)
    ensures
        ({
            let elements = children.filter(|edge: EdgeModel| is_element(edge));
            &&& removals(children).len() == elements.len()
            &&& forall|i: int|
                0 <= i < elements.len() ==> is_operation(
                    #[trigger] removals(children)[i],
                    "remove"@,
                    elements[i]->Node_0->Xml_0,
                )
        }),
    decreases children.len(),
{
    reveal(Seq::filter);
    if children.len() > 0 {
        law_every_element_is_removed(children.drop_last());
        assert(crate::pom_diff::is_xml(children.last()) == is_element(children.last()));
    }
}

/// Whether two documents are lists of elements of the same names at the same places, with
/// no name twice.
pub open spec fn same_roots(current: Seq<EdgeModel>, previous: Seq<EdgeModel>) -> bool {
    &&& current.len() == previous.len()
    &&& forall|i: int|
        0 <= i < current.len() ==> is_element(#[trigger] current[i]) && is_element(previous[i])
            && current[i]->Node_0->Xml_0.name == previous[i]->Node_0->Xml_0.name
    &&& forall|i: int, j: int|
        0 <= i < j < current.len() ==> (#[trigger] current[i])->Node_0->Xml_0.name != (
        #[trigger] current[j])->Node_0->Xml_0.name
}

proof fn lemma_root_patches(current: Seq<EdgeModel>, previous: Seq<EdgeModel>, n: int)
    requires
        0 <= n <= current.len(),
    ensures
        forall|at: int|
            0 <= at < n && diff_xml(
                (#[trigger] current[at])->Node_0->Xml_0,
                previous[at]->Node_0->Xml_0,
            ) is Some ==> root_patches(current, previous, n).contains(
                EdgeModel::Node(
                    NodeModel::Xml(
                        diff_xml(
                            current[at]->Node_0->Xml_0,
                            previous[at]->Node_0->Xml_0,
                        )->Some_0,
                    ),
                ),
            ),
        forall|c: int|
            0 <= c < root_patches(current, previous, n).len() ==> exists|at: int|
                0 <= at < n && diff_xml(
                    (#[trigger] current[at])->Node_0->Xml_0,
                    previous[at]->Node_0->Xml_0,
                ) is Some && #[trigger] root_patches(current, previous, n)[c] == EdgeModel::Node(
                    NodeModel::Xml(
                        diff_xml(
                            current[at]->Node_0->Xml_0,
                            previous[at]->Node_0->Xml_0,
                        )->Some_0,
                    ),
                ),
    decreases n,
{
    if n > 0 {
        lemma_root_patches(current, previous, n - 1);
        let before = root_patches(current, previous, n - 1);
        let all = root_patches(current, previous, n);
        assert forall|at: int|
            0 <= at < n && diff_xml(
                (#[trigger] current[at])->Node_0->Xml_0,
                previous[at]->Node_0->Xml_0,
            ) is Some implies all.contains(
            EdgeModel::Node(
                NodeModel::Xml(
                    diff_xml(current[at]->Node_0->Xml_0, previous[at]->Node_0->Xml_0)->Some_0,
                ),
            ),
        ) by {
            let edge = EdgeModel::Node(
                NodeModel::Xml(
                    diff_xml(current[at]->Node_0->Xml_0, previous[at]->Node_0->Xml_0)->Some_0,
                ),
            );
            if at < n - 1 {
                let k = choose|k: int| 0 <= k < before.len() && before[k] == edge;
                assert(all[k] == edge);
            } else {
                assert(all[all.len() - 1] == edge);
            }
        }
        assert forall|c: int| 0 <= c < all.len() implies exists|at: int|
            0 <= at < n && diff_xml(
                (#[trigger] current[at])->Node_0->Xml_0,
                previous[at]->Node_0->Xml_0,
            ) is Some && #[trigger] all[c] == EdgeModel::Node(
                NodeModel::Xml(
                    diff_xml(current[at]->Node_0->Xml_0, previous[at]->Node_0->Xml_0)->Some_0,
                ),
            ) by {
            if c < before.len() {
                assert(all[c] == before[c]);
            } else {
                assert(current[n - 1] == current[n - 1]);
            }
        }
    }
}

/// Documents of the same roots send what their roots say; others send the removal of every
/// earlier element and then all of the current document. An update that must be complete
/// sends the current document in either case.
pub proof fn law_documents_send_what_their_roots_say(
    current: Seq<EdgeModel>,
    previous: Seq<EdgeModel>,
)
    requires
        !edges_equiv(current, previous),
    ensures
        ({
            let patch = diff_documents(current, previous);
            &&& !same_roots(current, previous) ==> (patch is None <==> current.len() == 0
                && removals(previous).len() == 0)
            &&& !same_roots(current, previous) && patch is Some ==> patch->Some_0 == removals(
                previous,
            ) + current
            &&& !same_roots(current, previous) ==> full_update(current, previous) == removals(
                previous,
            ) + current
            &&& same_roots(current, previous) ==> full_update(current, previous) == current
            &&& same_roots(current, previous) ==> (patch is None <==> forall|i: int|
                0 <= i < current.len() ==> diff_xml(
                    (#[trigger] current[i])->Node_0->Xml_0,
                    previous[i]->Node_0->Xml_0,
                ) is None)
            &&& same_roots(current, previous) && patch is Some ==> {
                &&& forall|i: int|
                    0 <= i < current.len() && diff_xml(
                        (#[trigger] current[i])->Node_0->Xml_0,
                        previous[i]->Node_0->Xml_0,
                    ) is Some ==> patch->Some_0.contains(
                        EdgeModel::Node(
                            NodeModel::Xml(
                                diff_xml(
                                    current[i]->Node_0->Xml_0,
                                    previous[i]->Node_0->Xml_0,
                                )->Some_0,
                            ),
                        ),
                    )
                &&& forall|c: int|
                    0 <= c < patch->Some_0.len() ==> exists|i: int|
                        0 <= i < current.len() && diff_xml(
                            (#[trigger] current[i])->Node_0->Xml_0,
                            previous[i]->Node_0->Xml_0,
                        ) is Some && #[trigger] patch->Some_0[c] == EdgeModel::Node(
                            NodeModel::Xml(
                                diff_xml(
                                    current[i]->Node_0->Xml_0,
                                    previous[i]->Node_0->Xml_0,
                                )->Some_0,
                            ),
                        )
            }
        }),
{
    assert(stable_layout(current, previous) == same_roots(current, previous)) by {
        if same_roots(current, previous) {
            assert forall|i: int| 0 <= i < previous.len() implies crate::pom_diff::is_xml(
                #[trigger] previous[i],
            ) by {
                assert(is_element(current[i]));
            }
        }
        if stable_layout(current, previous) {
            assert forall|i: int| 0 <= i < current.len() implies is_element(
                #[trigger] current[i],
            ) && is_element(previous[i]) by {
                assert(crate::pom_diff::is_xml(current[i]));
                assert(crate::pom_diff::is_xml(previous[i]));
            }
        }
    }
    lemma_root_patches(current, previous, current.len() as int);
    let patches = root_patches(current, previous, current.len() as int);
    if same_roots(current, previous) && patches.len() > 0 {
        let i = choose|i: int|
            0 <= i < current.len() && diff_xml(
                (#[trigger] current[i])->Node_0->Xml_0,
                previous[i]->Node_0->Xml_0,
            ) is Some && patches[0] == EdgeModel::Node(
                NodeModel::Xml(
                    diff_xml(current[i]->Node_0->Xml_0, previous[i]->Node_0->Xml_0)->Some_0,
                ),
            );
        assert(current[i] == current[i]);
    }
}

/// Two elements are equal exactly where they have the same name, the same attributes in any
/// order, equal children one by one, and the same part in a collection.
pub proof fn law_elements_are_compared_in_full(a: XmlModel, b: XmlModel)
    ensures
        xml_equiv(a, b) <==> {
            &&& a.name == b.name
            &&& a.attributes.len() == b.attributes.len()
            &&& forall|i: int|
                0 <= i < a.attributes.len() ==> b.attributes.contains(#[trigger] a.attributes[i])
            &&& a.children.len() == b.children.len()
            &&& forall|i: int|
                0 <= i < a.children.len() ==> edge_equiv(#[trigger] a.children[i], b.children[i])
            &&& a.metadata.is_map == b.metadata.is_map
            &&& a.metadata.identity is Some <==> b.metadata.identity is Some
            &&& a.metadata.identity is Some ==> node_equiv(
                *a.metadata.identity->Some_0,
                *b.metadata.identity->Some_0,
            )
        },
{
}

/// Children are equal exactly where they are of one kind and hold the same: texts the same
/// characters, slots the same role, strategy and value, and Markdown the same at every
/// depth.
pub proof fn law_children_are_compared_in_full(a: EdgeModel, b: EdgeModel)
    ensures
        edge_equiv(a, b) <==> match (a, b) {
            (EdgeModel::Node(NodeModel::Xml(x)), EdgeModel::Node(NodeModel::Xml(y))) => xml_equiv(
                x,
                y,
            ),
            (EdgeModel::Node(NodeModel::Text(x)), EdgeModel::Node(NodeModel::Text(y))) => x == y,
            (EdgeModel::Node(NodeModel::RawText(x)), EdgeModel::Node(NodeModel::RawText(y))) => x
                == y,
            (EdgeModel::Slot(x), EdgeModel::Slot(y)) => {
                &&& x.role == y.role
                &&& x.strategy == y.strategy
                &&& x.value is Some <==> y.value is Some
                &&& x.value is Some ==> xml_equiv(x.value->Some_0, y.value->Some_0)
            },
            (
                EdgeModel::Node(NodeModel::Markdown(x)),
                EdgeModel::Node(NodeModel::Markdown(y)),
            ) => match (x, y) {
                (
                    MarkdownModel::Heading { level: m, children: c },
                    MarkdownModel::Heading { level: n, children: d },
                ) => m == n && edges_equiv(c, d),
                (
                    MarkdownModel::Paragraph { children: c },
                    MarkdownModel::Paragraph { children: d },
                ) => edges_equiv(c, d),
                (
                    MarkdownModel::Strong { children: c },
                    MarkdownModel::Strong { children: d },
                ) => edges_equiv(c, d),
                (
                    MarkdownModel::List { kind: m, items: c },
                    MarkdownModel::List { kind: n, items: d },
                ) => m == n && c.len() == d.len() && forall|i: int|
                    0 <= i < c.len() ==> edges_equiv(#[trigger] c[i], d[i]),
                (MarkdownModel::CodeBlock { .. }, MarkdownModel::CodeBlock { .. }) => x == y,
                (MarkdownModel::CodeSpan { .. }, MarkdownModel::CodeSpan { .. }) => x == y,
                (MarkdownModel::ThematicBreak, MarkdownModel::ThematicBreak) => true,
                _ => false,
            },
            _ => false,
        },
{
    reveal_with_fuel(edge_equiv, 2);
    reveal_with_fuel(node_equiv, 2);
    reveal_with_fuel(slot_equiv, 2);
    reveal_with_fuel(crate::pom::model::markdown_equiv, 2);
    reveal_with_fuel(crate::pom::model::items_equiv, 2);
}

/// Lists of children are equal exactly where they are equal one by one.
pub proof fn law_lists_are_compared_one_by_one(a: Seq<EdgeModel>, b: Seq<EdgeModel>)
    ensures
        edges_equiv(a, b) <==> a.len() == b.len() && forall|i: int|
            0 <= i < a.len() ==> edge_equiv(#[trigger] a[i], b[i]),
{
}

} // verus!
