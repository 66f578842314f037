//! Semantic diffing for complete XML trees and documents.
//!
//! Nodes are compared directly; prompt text is never rendered here.

use vstd::prelude::*;
use crate::pom::model::{
    attributes_equiv, edges_equiv, empty_xml, is_xml_name, metadata_equiv, node_equiv,
    push_normalized, slot_free, slot_free_edge, slot_free_node, slot_free_xml, xml_edge, xml_equiv,
    AttributeModel, EdgeModel, NodeModel, SlotModel, StrategyModel, XmlModel,
};
use crate::pom::children::{BlockChildren, MixedChildren};
use crate::pom::content::{BlockContent, ContentNode, ContentRef, MixedContent};
use crate::pom::document::ResolvedDocument;
use crate::pom::diff_slot::{DiffSlot, DiffStrategy};
use crate::pom::text::TextNode;
use crate::text_chars::chars_of;
use crate::pom::xml::{attribute_value, has_attribute, XmlName, XmlNode};

verus! {

/// The words that patches are written with.
pub proof fn lemma_vocabulary()
    ensures
        is_xml_name("item"@),
        is_xml_name("insert"@),
        is_xml_name("remove"@),
        is_xml_name("update"@),
        is_xml_name("replace"@),
        is_xml_name("none"@),
        is_xml_name("kind"@),
        is_xml_name("rendering_mode"@),
        "kind"@ != "rendering_mode"@,
{
    reveal_strlit("item");
    reveal_strlit("insert");
    reveal_strlit("remove");
    reveal_strlit("update");
    reveal_strlit("replace");
    reveal_strlit("none");
    reveal_strlit("kind");
    reveal_strlit("rendering_mode");
    assert("kind"@.len() != "rendering_mode"@.len());
}

/// A node that stands for a change of the node of this name.
pub open spec fn delta(name: Seq<char>) -> XmlModel {
    XmlModel {
        attributes: seq![AttributeModel { name: "rendering_mode"@, value: "delta"@ }],
        ..empty_xml(name)
    }
}

/// One operation of a patch, applied to a value.
pub open spec fn operation(name: Seq<char>, value: XmlModel) -> XmlModel {
    XmlModel { children: seq![xml_edge(value)], ..empty_xml(name) }
}

/// The same operation on every item.
pub open spec fn operations(name: Seq<char>, items: Seq<XmlModel>) -> Seq<XmlModel> {
    items.map_values(|item: XmlModel| operation(name, item))
}

/// The patch that replaces a whole value.
pub open spec fn replacement(current: XmlModel) -> XmlModel {
    XmlModel { children: seq![xml_edge(operation("replace"@, current))], ..delta(current.name) }
}

/// The patch that removes what a role held.
pub open spec fn deletion(role: Seq<char>) -> XmlModel {
    XmlModel { children: seq![xml_edge(empty_xml("none"@))], ..delta(role) }
}

/// The patch made of operations, if there are any.
pub open spec fn collection_patch(current: XmlModel, changes: Seq<XmlModel>) -> Option<XmlModel> {
    if changes.len() == 0 {
        None
    } else {
        Some(
            XmlModel {
                children: changes.map_values(|change: XmlModel| xml_edge(change)),
                ..delta(current.name)
            },
        )
    }
}

/// A child as an item of a collection: XML as it is, anything else inside an
/// `item`.
pub open spec fn as_item(node: NodeModel) -> XmlModel {
    match node {
        NodeModel::Xml(node) => node,
        other => XmlModel {
            children: push_normalized(Seq::empty(), EdgeModel::Node(other)),
            ..empty_xml("item"@)
        },
    }
}

/// The items that a collection shows: its nodes and the values of its slots.
pub open spec fn visible_items(children: Seq<EdgeModel>) -> Seq<XmlModel>
    decreases children.len(),
{
    if children.len() == 0 {
        Seq::empty()
    } else {
        let before = visible_items(children.drop_last());
        match children.last() {
            EdgeModel::Node(node) => before.push(as_item(node)),
            EdgeModel::Slot(slot) => match slot.value {
                Some(value) => before.push(value),
                None => before,
            },
        }
    }
}

/// Whether two nodes can be compared item by item.
pub open spec fn same_collection(current: XmlModel, previous: XmlModel) -> bool {
    &&& current.name == previous.name
    &&& attributes_equiv(current.attributes, previous.attributes)
    &&& metadata_equiv(current.metadata, previous.metadata)
}

/// Whether the items agree as far as both lists go.
pub open spec fn common_prefix(current: Seq<XmlModel>, previous: Seq<XmlModel>) -> bool {
    forall|i: int|
        0 <= i < current.len() && i < previous.len() ==> xml_equiv(
            #[trigger] current[i],
            previous[i],
        )
}

/// Whether a list holds an equal item.
pub open spec fn contains_item(items: Seq<XmlModel>, item: XmlModel) -> bool {
    exists|i: int| 0 <= i < items.len() && xml_equiv(#[trigger] items[i], item)
}

/// The items that the other list does not hold.
pub open spec fn missing_items(items: Seq<XmlModel>, others: Seq<XmlModel>) -> Seq<XmlModel>
    decreases items.len(),
{
    if items.len() == 0 {
        Seq::empty()
    } else {
        let before = missing_items(items.drop_last(), others);
        if contains_item(others, items.last()) {
            before
        } else {
            before.push(items.last())
        }
    }
}

/// An item together with what tells it apart from the others.
pub struct EntryModel {
    pub identity: NodeModel,
    pub node: XmlModel,
}

/// What tells an item apart: the value of the key attribute, or, without a key,
/// the identity that the item carries.
pub open spec fn item_identity(item: XmlModel, key: Option<Seq<char>>) -> Option<NodeModel> {
    match key {
        Some(name) => if has_attribute(item.attributes, name) {
            Some(NodeModel::Text(attribute_value(item.attributes, name)))
        } else {
            None
        },
        None => match item.metadata.identity {
            Some(identity) => Some(*identity),
            None => None,
        },
    }
}

/// Whether an entry of this identity is present.
pub open spec fn has_entry(entries: Seq<EntryModel>, identity: NodeModel) -> bool {
    exists|i: int| 0 <= i < entries.len() && node_equiv(#[trigger] entries[i].identity, identity)
}

/// The items with their identities, unless one has none or two have the same.
pub open spec fn entries_of(items: Seq<XmlModel>, key: Option<Seq<char>>) -> Option<
    Seq<EntryModel>,
>
    decreases items.len(),
{
    if items.len() == 0 {
        Some(Seq::empty())
    } else {
        match (entries_of(items.drop_last(), key), item_identity(items.last(), key)) {
            (Some(before), Some(identity)) => if has_entry(before, identity) {
                None
            } else {
                Some(before.push(EntryModel { identity, node: items.last() }))
            },
            _ => None,
        }
    }
}

/// Dictionary order of texts, by the code points of their characters.
pub open spec fn text_before(a: Seq<char>, b: Seq<char>) -> bool
    decreases a.len(),
{
    if b.len() == 0 {
        false
    } else if a.len() == 0 {
        true
    } else if a[0] != b[0] {
        a[0] < b[0]
    } else {
        text_before(a.drop_first(), b.drop_first())
    }
}

/// Whether an entry's key stands before another's.
pub open spec fn entry_before(a: EntryModel, b: EntryModel) -> bool {
    text_before(a.identity->Text_0, b.identity->Text_0)
}

/// Puts an entry into a sorted list, behind everything that it does not precede.
pub open spec fn insert_entry(sorted: Seq<EntryModel>, entry: EntryModel) -> Seq<EntryModel>
    decreases sorted.len(),
{
    if sorted.len() == 0 || !entry_before(entry, sorted.last()) {
        sorted.push(entry)
    } else {
        insert_entry(sorted.drop_last(), entry).push(sorted.last())
    }
}

/// The entries sorted by key.
pub open spec fn sort_entries(entries: Seq<EntryModel>) -> Seq<EntryModel>
    decreases entries.len(),
{
    if entries.len() == 0 {
        entries
    } else {
        insert_entry(sort_entries(entries.drop_last()), entries.last())
    }
}

/// The nodes of the entries whose identity the other list lacks.
pub open spec fn unmatched(entries: Seq<EntryModel>, others: Seq<EntryModel>) -> Seq<XmlModel>
    decreases entries.len(),
{
    if entries.len() == 0 {
        Seq::empty()
    } else {
        let before = unmatched(entries.drop_last(), others);
        if has_entry(others, entries.last().identity) {
            before
        } else {
            before.push(entries.last().node)
        }
    }
}

/// The first entry of an identity differs from the node.
pub open spec fn entry_changed(others: Seq<EntryModel>, entry: EntryModel) -> bool {
    exists|i: int|
        0 <= i < others.len() && node_equiv(#[trigger] others[i].identity, entry.identity) && (
        forall|j: int|
            0 <= j < i ==> !node_equiv(#[trigger] others[j].identity, entry.identity))
            && !xml_equiv(others[i].node, entry.node)
}

/// The nodes of the entries that the other list holds with another value.
pub open spec fn changed(entries: Seq<EntryModel>, others: Seq<EntryModel>) -> Seq<XmlModel>
    decreases entries.len(),
{
    if entries.len() == 0 {
        Seq::empty()
    } else {
        let before = changed(entries.drop_last(), others);
        if entry_changed(others, entries.last()) {
            before.push(entries.last().node)
        } else {
            before
        }
    }
}

/// What turns one list of entries into the other: insertions, removals, updates.
pub open spec fn entry_operations(current: Seq<EntryModel>, previous: Seq<EntryModel>) -> Seq<
    XmlModel,
> {
    operations("insert"@, unmatched(current, previous)) + operations(
        "remove"@,
        unmatched(previous, current),
    ) + operations("update"@, changed(current, previous))
}

/// Change of a collection that only grows at its end.
pub open spec fn diff_append(current: XmlModel, previous: XmlModel) -> Option<XmlModel> {
    let now = visible_items(current.children);
    let then = visible_items(previous.children);
    if xml_equiv(current, previous) {
        None
    } else if !same_collection(current, previous) || now.len() < then.len() || !common_prefix(
        now,
        then,
    ) {
        Some(current)
    } else {
        collection_patch(current, operations("insert"@, now.skip(then.len() as int)))
    }
}

/// Change of a collection that grows or shrinks at its end.
pub open spec fn diff_sequence(current: XmlModel, previous: XmlModel) -> Option<XmlModel> {
    let now = visible_items(current.children);
    let then = visible_items(previous.children);
    let common = if now.len() < then.len() {
        now.len() as int
    } else {
        then.len() as int
    };
    if xml_equiv(current, previous) {
        None
    } else if !same_collection(current, previous) || !common_prefix(now, then) {
        Some(current)
    } else {
        collection_patch(
            current,
            operations("insert"@, now.skip(common)) + operations("remove"@, then.skip(common)),
        )
    }
}

/// Change of a collection whose order does not matter.
pub open spec fn diff_set(current: XmlModel, previous: XmlModel) -> Option<XmlModel> {
    let now = visible_items(current.children);
    let then = visible_items(previous.children);
    if xml_equiv(current, previous) {
        None
    } else if !same_collection(current, previous) {
        Some(current)
    } else {
        collection_patch(
            current,
            operations("insert"@, missing_items(now, then)) + operations(
                "remove"@,
                missing_items(then, now),
            ),
        )
    }
}

/// Change of a collection whose items are told apart by an attribute.
pub open spec fn diff_keyed(current: XmlModel, previous: XmlModel, key: Seq<char>) -> Option<
    XmlModel,
> {
    if xml_equiv(current, previous) {
        None
    } else if !same_collection(current, previous) {
        Some(current)
    } else {
        match (
            entries_of(visible_items(current.children), Some(key)),
            entries_of(visible_items(previous.children), Some(key)),
        ) {
            (Some(now), Some(then)) => collection_patch(
                current,
                entry_operations(sort_entries(now), sort_entries(then)),
            ),
            _ => Some(current),
        }
    }
}

/// Whether a slot stands among the children.
pub open spec fn has_slot(children: Seq<EdgeModel>) -> bool {
    exists|i: int| 0 <= i < children.len() && (#[trigger] children[i]) is Slot
}

/// Change of a map whose entries carry their identity.
pub open spec fn diff_map(current: XmlModel, previous: XmlModel) -> Option<XmlModel> {
    if xml_equiv(current, previous) {
        None
    } else if current.name != previous.name || !attributes_equiv(
        current.attributes,
        previous.attributes,
    ) || !current.metadata.is_map || !previous.metadata.is_map || has_slot(current.children)
        || has_slot(previous.children) {
        Some(current)
    } else {
        match (
            entries_of(visible_items(current.children), None),
            entries_of(visible_items(previous.children), None),
        ) {
            (Some(now), Some(then)) => collection_patch(current, entry_operations(now, then)),
            _ => Some(current),
        }
    }
}

/// Two children agree but for the values of slots.
pub open spec fn same_unmarked_edge(current: EdgeModel, previous: EdgeModel) -> bool {
    match (current, previous) {
        (EdgeModel::Node(a), EdgeModel::Node(b)) => node_equiv(a, b),
        (EdgeModel::Slot(a), EdgeModel::Slot(b)) => a.role == b.role && a.strategy == b.strategy,
        _ => false,
    }
}

/// Two nodes agree but for the values of their slots.
pub open spec fn same_unmarked_shape(current: XmlModel, previous: XmlModel) -> bool {
    &&& same_collection(current, previous)
    &&& current.children.len() == previous.children.len()
    &&& forall|i: int|
        0 <= i < current.children.len() ==> same_unmarked_edge(
            #[trigger] current.children[i],
            previous.children[i],
        )
}

/// The attributes of the patch of a node: its kind is carried over.
pub open spec fn delta_attributes(current: XmlModel) -> Seq<AttributeModel> {
    if has_attribute(current.attributes, "kind"@) {
        delta(current.name).attributes.push(
            AttributeModel {
                name: "kind"@,
                value: attribute_value(current.attributes, "kind"@),
            },
        )
    } else {
        delta(current.name).attributes
    }
}

/// Change of a node: nothing where it is equal, the patches of its slots where
/// only those changed, and the whole node otherwise.
pub open spec fn diff_xml(current: XmlModel, previous: XmlModel) -> Option<XmlModel>
    decreases current, 0int,
{
    if xml_equiv(current, previous) {
        None
    } else if !same_unmarked_shape(current, previous) {
        Some(current)
    } else {
        let patches = slot_patches(
            current.children,
            previous.children,
            current.children.len() as int,
        );
        if patches.len() == 0 {
            None
        } else {
            Some(
                XmlModel {
                    attributes: delta_attributes(current),
                    children: patches,
                    ..empty_xml(current.name)
                },
            )
        }
    }
}

/// The patches of the slots among the first `n` children.
pub open spec fn slot_patches(current: Seq<EdgeModel>, previous: Seq<EdgeModel>, n: int) -> Seq<
    EdgeModel,
>
    decreases current, n,
{
    if n <= 0 || n > current.len() {
        Seq::empty()
    } else {
        let before = slot_patches(current, previous, n - 1);
        match edge_patch(current[n - 1], previous[n - 1]) {
            Some(patch) => before.push(xml_edge(patch)),
            None => before,
        }
    }
}

/// The patch of a child position: a slot's patch.
pub open spec fn edge_patch(current: EdgeModel, previous: EdgeModel) -> Option<XmlModel>
    decreases current, 0int,
{
    match (current, previous) {
        (EdgeModel::Slot(a), EdgeModel::Slot(b)) => diff_slot(a, b),
        _ => None,
    }
}

/// Change of a slot.
pub open spec fn diff_slot(current: SlotModel, previous: SlotModel) -> Option<XmlModel>
    decreases current, 0int,
{
    match (current.value, previous.value) {
        (None, None) => None,
        (Some(value), None) => Some(value),
        (None, Some(_)) => Some(deletion(current.role)),
        (Some(now), Some(then)) => diff_value(now, then, current.strategy),
    }
}

/// Change of a value under a strategy.
pub open spec fn diff_value(
    current: XmlModel,
    previous: XmlModel,
    strategy: StrategyModel,
) -> Option<XmlModel>
    decreases current, 1int,
{
    match strategy {
        StrategyModel::Recursive => if current.metadata.is_map && previous.metadata.is_map {
            diff_map(current, previous)
        } else {
            diff_xml(current, previous)
        },
        StrategyModel::Replace => if xml_equiv(current, previous) {
            None
        } else {
            Some(replacement(current))
        },
        StrategyModel::Append => diff_append(current, previous),
        StrategyModel::Sequence => diff_sequence(current, previous),
        StrategyModel::UnorderedSet => diff_set(current, previous),
        StrategyModel::Keyed(key) => diff_keyed(current, previous, key),
    }
}

/// The models of nodes.
pub open spec fn xml_models(nodes: Seq<XmlNode>) -> Seq<XmlModel> {
    nodes.map_values(|node: XmlNode| node@)
}

/// A name out of the vocabulary of patches.
pub(crate) fn xml_name(value: &str) -> (name: XmlName)
    requires
        is_xml_name(value@),
    ensures
        name@ == value@,
{
    XmlName { value: value.to_owned() }
}

fn delta_node(name: XmlName) -> (node: XmlNode)
    ensures
        node@ == delta(name@),
{
    proof {
        lemma_vocabulary();
    }
    let mut node = XmlNode::new(name);
    let _ = node.push_attribute(xml_name("rendering_mode"), "delta");
    assert(node@.attributes =~= delta(name@).attributes);
    node
}

fn operation_node(name: &str, value: XmlNode) -> (node: XmlNode)
    requires
        is_xml_name(name@),
    ensures
        node@ == operation(name@, value@),
{
    let mut node = XmlNode::new(xml_name(name));
    node.push(MixedContent::xml(value));
    assert(node@.children =~= seq![xml_edge(value@)]);
    node
}

fn replace_node(current: XmlNode) -> (node: XmlNode)
    ensures
        node@ == replacement(current@),
{
    proof {
        lemma_vocabulary();
    }
    let mut node = delta_node(current.name().clone());
    node.push(MixedContent::xml(operation_node("replace", current)));
    assert(node@.children =~= replacement(current@).children);
    node
}

/// The patch that removes what a role held.
pub(crate) fn deletion_node(role: XmlName) -> (node: XmlNode)
    ensures
        node@ == deletion(role@),
{
    proof {
        lemma_vocabulary();
    }
    let mut node = delta_node(role);
    node.push(MixedContent::xml(XmlNode::new(xml_name("none"))));
    assert(node@.children =~= deletion(role@).children);
    node
}

fn item_node(content: &ContentNode) -> (item: XmlNode)
    ensures
        item@ == as_item(content@),
{
    proof {
        lemma_vocabulary();
    }
    match content {
        ContentNode::Xml(node) => node.clone(),
        other => {
            let mut item = XmlNode::new(xml_name("item"));
            item.push(MixedContent::node(other.clone()));
            item
        },
    }
}

fn visible_nodes(node: &XmlNode) -> (items: Vec<XmlNode>)
    ensures
        xml_models(items@) == visible_items(node@.children),
{
    let mut items: Vec<XmlNode> = Vec::new();
    let children = node.children();
    let count: usize = children.len();
    for i in 0..count
        invariant
            count == children@.len(),
            xml_models(items@) == visible_items(children@.take(i as int)),
    {
        let ghost before = items@;
        let ghost seen = children@.take(i as int + 1);
        assert(seen.drop_last() =~= children@.take(i as int));
        match children.get(i) {
            Some(ContentRef::Node(content)) => {
                items.push(item_node(content));
                assert(xml_models(items@) =~= xml_models(before).push(as_item(content@)));
            },
            Some(ContentRef::DiffSlot(slot)) => {
                if let Some(value) = slot.value() {
                    items.push(value.clone());
                    assert(xml_models(items@) =~= xml_models(before).push(value@));
                }
            },
            None => {},
        }
    }
    assert(children@.take(children@.len() as int) =~= children@);
    items
}

fn is_same_collection(current: &XmlNode, previous: &XmlNode) -> (same: bool)
    ensures
        same == same_collection(current@, previous@),
{
    *current.name() == *previous.name() && *current.attributes() == *previous.attributes()
        && current.metadata().equals(previous.metadata())
}

fn have_common_prefix(current: &Vec<XmlNode>, previous: &Vec<XmlNode>) -> (common: bool)
    ensures
        common == common_prefix(xml_models(current@), xml_models(previous@)),
{
    let ghost now = xml_models(current@);
    let ghost then = xml_models(previous@);
    let mut i: usize = 0;
    while i < current.len() && i < previous.len()
        invariant
            now == xml_models(current@),
            then == xml_models(previous@),
            forall|j: int|
                0 <= j < i && j < previous@.len() ==> xml_equiv(#[trigger] now[j], then[j]),
        decreases current@.len() - i,
    {
        if !current[i].equals(&previous[i]) {
            assert(!xml_equiv(now[i as int], then[i as int]));
            return false;
        }
        i += 1;
    }
    true
}

/// Appends one operation for each item from a position on.
fn push_operations(changes: &mut Vec<XmlNode>, name: &str, items: &Vec<XmlNode>, from: usize)
    requires
        is_xml_name(name@),
        from <= items@.len(),
    ensures
        xml_models(final(changes)@) == xml_models(old(changes)@) + operations(
            name@,
            xml_models(items@).skip(from as int),
        ),
{
    let ghost before = xml_models(changes@);
    let ghost added = operations(name@, xml_models(items@).skip(from as int));
    for i in from..items.len()
        invariant
            is_xml_name(name@),
            from <= items@.len(),
            added == operations(name@, xml_models(items@).skip(from as int)),
            xml_models(changes@) == before + added.take(i - from),
    {
        let ghost held = changes@;
        changes.push(operation_node(name, items[i].clone()));
        assert(added[i - from] == operation(name@, items@[i as int]@));
        assert(xml_models(changes@) =~= xml_models(held).push(added[i - from]));
        assert(before + added.take(i + 1 - from) =~= (before + added.take(i - from)).push(
            added[i - from],
        ));
    }
    assert(added.take(items@.len() - from) =~= added);
    assert(xml_models(changes@) =~= before + added);
}

fn contains_node(items: &Vec<XmlNode>, item: &XmlNode) -> (found: bool)
    ensures
        found == contains_item(xml_models(items@), item@),
{
    let ghost models = xml_models(items@);
    for i in 0..items.len()
        invariant
            models == xml_models(items@),
            forall|j: int| 0 <= j < i ==> !xml_equiv(#[trigger] models[j], item@),
    {
        if items[i].equals(item) {
            assert(xml_equiv(models[i as int], item@));
            return true;
        }
    }
    false
}

fn missing_nodes(items: &Vec<XmlNode>, others: &Vec<XmlNode>) -> (missing: Vec<XmlNode>)
    ensures
        xml_models(missing@) == missing_items(xml_models(items@), xml_models(others@)),
{
    let mut missing: Vec<XmlNode> = Vec::new();
    let ghost models = xml_models(items@);
    for i in 0..items.len()
        invariant
            models == xml_models(items@),
            xml_models(missing@) == missing_items(models.take(i as int), xml_models(others@)),
    {
        let ghost before = missing@;
        assert(models.take(i as int + 1).drop_last() =~= models.take(i as int));
        if !contains_node(others, &items[i]) {
            missing.push(items[i].clone());
            assert(xml_models(missing@) =~= xml_models(before).push(models[i as int]));
        }
    }
    assert(models.take(models.len() as int) =~= models);
    missing
}

fn patch_node(current: &XmlNode, changes: Vec<XmlNode>) -> (patch: Option<XmlNode>)
    ensures
        patch_models(patch) == collection_patch(current@, xml_models(changes@)),
{
    if changes.is_empty() {
        return None;
    }
    let mut node = delta_node(current.name().clone());
    let ghost edges = xml_models(changes@).map_values(|change: XmlModel| xml_edge(change));
    assert(edges.take(0) =~= node@.children);
    for i in 0..changes.len()
        invariant
            edges == xml_models(changes@).map_values(|change: XmlModel| xml_edge(change)),
            node@ == (XmlModel { children: edges.take(i as int), ..delta(current@.name) }),
    {
        let ghost before = node@.children;
        node.push(MixedContent::xml(changes[i].clone()));
        assert(edges[i as int] == xml_edge(changes@[i as int]@));
        assert(edges.take(i as int + 1) =~= before.push(edges[i as int]));
    }
    assert(edges.take(changes@.len() as int) =~= edges);
    Some(node)
}

fn append_patch(current: &XmlNode, previous: &XmlNode) -> (patch: Option<XmlNode>)
    ensures
        patch_models(patch) == diff_append(current@, previous@),
{
    proof {
        lemma_vocabulary();
    }
    if current.equals(previous) {
        return None;
    }
    let now = visible_nodes(current);
    let then = visible_nodes(previous);
    if !is_same_collection(current, previous) || now.len() < then.len() || !have_common_prefix(
        &now,
        &then,
    ) {
        return Some(current.clone());
    }
    let mut changes: Vec<XmlNode> = Vec::new();
    push_operations(&mut changes, "insert", &now, then.len());
    assert(xml_models(changes@) =~= operations(
        "insert"@,
        xml_models(now@).skip(then@.len() as int),
    ));
    patch_node(current, changes)
}

fn sequence_patch(current: &XmlNode, previous: &XmlNode) -> (patch: Option<XmlNode>)
    ensures
        patch_models(patch) == diff_sequence(current@, previous@),
{
    proof {
        lemma_vocabulary();
    }
    if current.equals(previous) {
        return None;
    }
    let now = visible_nodes(current);
    let then = visible_nodes(previous);
    if !is_same_collection(current, previous) || !have_common_prefix(&now, &then) {
        return Some(current.clone());
    }
    let common: usize = if now.len() < then.len() {
        now.len()
    } else {
        then.len()
    };
    let mut changes: Vec<XmlNode> = Vec::new();
    push_operations(&mut changes, "insert", &now, common);
    push_operations(&mut changes, "remove", &then, common);
    assert(xml_models(changes@) =~= operations("insert"@, xml_models(now@).skip(common as int))
        + operations("remove"@, xml_models(then@).skip(common as int)));
    patch_node(current, changes)
}

fn set_patch(current: &XmlNode, previous: &XmlNode) -> (patch: Option<XmlNode>)
    ensures
        patch_models(patch) == diff_set(current@, previous@),
{
    proof {
        lemma_vocabulary();
    }
    if current.equals(previous) {
        return None;
    }
    if !is_same_collection(current, previous) {
        return Some(current.clone());
    }
    let now = visible_nodes(current);
    let then = visible_nodes(previous);
    let inserted = missing_nodes(&now, &then);
    let removed = missing_nodes(&then, &now);
    let mut changes: Vec<XmlNode> = Vec::new();
    push_operations(&mut changes, "insert", &inserted, 0);
    push_operations(&mut changes, "remove", &removed, 0);
    assert(xml_models(inserted@).skip(0) =~= xml_models(inserted@));
    assert(xml_models(removed@).skip(0) =~= xml_models(removed@));
    assert(xml_models(changes@) =~= operations("insert"@, xml_models(inserted@)) + operations(
        "remove"@,
        xml_models(removed@),
    ));
    patch_node(current, changes)
}

/// The model of an optional patch.
pub open spec fn patch_models(patch: Option<XmlNode>) -> Option<XmlModel> {
    match patch {
        Some(patch) => Some(patch@),
        None => None,
    }
}

/// An item together with what tells it apart from the others.
struct Entry {
    identity: ContentNode,
    node: XmlNode,
}

impl View for Entry {
    type V = EntryModel;

    closed spec fn view(&self) -> EntryModel {
        EntryModel { identity: self.identity@, node: self.node@ }
    }
}

spec fn entry_models(entries: Seq<Entry>) -> Seq<EntryModel> {
    entries.map_values(|entry: Entry| entry@)
}

fn identity_of(item: &XmlNode, key: Option<&XmlName>) -> (identity: Option<ContentNode>)
    ensures
        match identity {
            Some(identity) => item_identity(
                item@,
                match key {
                    Some(key) => Some(key@),
                    None => None,
                },
            ) == Some(identity@),
            None => item_identity(
                item@,
                match key {
                    Some(key) => Some(key@),
                    None => None,
                },
            ) is None,
        },
{
    match key {
        Some(name) => match item.attributes().get(name) {
            Some(attribute) => Some(ContentNode::Text(TextNode::new(attribute.value()))),
            None => None,
        },
        None => match item.identity() {
            Some(identity) => Some(identity.clone()),
            None => None,
        },
    }
}

/// The first entry of an identity.
fn find_entry(entries: &Vec<Entry>, identity: &ContentNode) -> (found: Option<usize>)
    ensures
        match found {
            Some(at) => at < entries@.len() && node_equiv(
                entry_models(entries@)[at as int].identity,
                identity@,
            ) && has_entry(entry_models(entries@), identity@) && forall|j: int|
                0 <= j < at ==> !node_equiv(
                    #[trigger] entry_models(entries@)[j].identity,
                    identity@,
                ),
            None => !has_entry(entry_models(entries@), identity@),
        },
{
    let ghost models = entry_models(entries@);
    for i in 0..entries.len()
        invariant
            models == entry_models(entries@),
            forall|j: int|
                0 <= j < i ==> !node_equiv(#[trigger] models[j].identity, identity@),
    {
        if entries[i].identity.equals(identity) {
            assert(node_equiv(models[i as int].identity, identity@));
            return Some(i);
        }
        assert(!node_equiv(models[i as int].identity, identity@));
    }
    None
}

spec fn key_model(key: Option<&XmlName>) -> Option<Seq<char>> {
    match key {
        Some(key) => Some(key@),
        None => None,
    }
}

/// Without an identity for one item there are none for all.
proof fn lemma_entries_none(items: Seq<XmlModel>, key: Option<Seq<char>>, n: int)
    requires
        0 <= n <= items.len(),
        entries_of(items.take(n), key) is None,
    ensures
        entries_of(items, key) is None,
    decreases items.len() - n,
{
    if n < items.len() {
        assert(items.take(n + 1).drop_last() =~= items.take(n));
        lemma_entries_none(items, key, n + 1);
    } else {
        assert(items.take(n) =~= items);
    }
}

fn collect_entries(items: Vec<XmlNode>, key: Option<&XmlName>) -> (entries: Option<Vec<Entry>>)
    ensures
        match entries {
            Some(entries) => entries_of(xml_models(items@), key_model(key)) == Some(
                entry_models(entries@),
            ),
            None => entries_of(xml_models(items@), key_model(key)) is None,
        },
{
    let mut entries: Vec<Entry> = Vec::new();
    let ghost models = xml_models(items@);
    assert(entry_models(entries@) =~= Seq::empty());
    for i in 0..items.len()
        invariant
            models == xml_models(items@),
            entries_of(models.take(i as int), key_model(key)) == Some(entry_models(entries@)),
    {
        let ghost before = entries@;
        assert(models.take(i as int + 1).drop_last() =~= models.take(i as int));
        assert(models.take(i as int + 1).last() == items@[i as int]@);
        match identity_of(&items[i], key) {
            Some(identity) => {
                if find_entry(&entries, &identity).is_some() {
                    proof {
                        lemma_entries_none(models, key_model(key), i as int + 1);
                    }
                    return None;
                }
                entries.push(Entry { identity, node: items[i].clone() });
                assert(entry_models(entries@) =~= entry_models(before).push(
                    EntryModel { identity: identity@, node: items@[i as int]@ },
                ));
            },
            None => {
                proof {
                    lemma_entries_none(models, key_model(key), i as int + 1);
                }
                return None;
            },
        }
    }
    assert(models.take(models.len() as int) =~= models);
    Some(entries)
}

pub(crate) fn text_precedes(a: &str, b: &str) -> (before: bool)
    ensures
        before == text_before(a@, b@),
{
    let a_chars = chars_of(a);
    let b_chars = chars_of(b);
    let mut i: usize = 0;
    assert(a@.skip(0) =~= a@);
    assert(b@.skip(0) =~= b@);
    while i < a_chars.len() && i < b_chars.len()
        invariant
            a_chars@ == a@,
            b_chars@ == b@,
            i <= a_chars@.len(),
            i <= b_chars@.len(),
            text_before(a@, b@) == text_before(a@.skip(i as int), b@.skip(i as int)),
        decreases a_chars@.len() - i,
    {
        assert(a@.skip(i as int).drop_first() =~= a@.skip(i as int + 1));
        assert(b@.skip(i as int).drop_first() =~= b@.skip(i as int + 1));
        if a_chars[i] != b_chars[i] {
            return a_chars[i] < b_chars[i];
        }
        i += 1;
    }
    i < b_chars.len()
}

/// Where an entry is put into a sorted list.
proof fn lemma_insert_entry(sorted: Seq<EntryModel>, entry: EntryModel, at: int)
    requires
        0 <= at <= sorted.len(),
        forall|i: int| at <= i < sorted.len() ==> entry_before(entry, #[trigger] sorted[i]),
        at > 0 ==> !entry_before(entry, sorted[at - 1]),
    ensures
        insert_entry(sorted, entry) == sorted.insert(at, entry),
    decreases sorted.len(),
{
    if at < sorted.len() {
        lemma_insert_entry(sorted.drop_last(), entry, at);
        assert(sorted.drop_last().insert(at, entry).push(sorted.last()) =~= sorted.insert(
            at,
            entry,
        ));
    } else {
        assert(sorted.push(entry) =~= sorted.insert(at, entry));
    }
}

proof fn lemma_text_identities(items: Seq<XmlModel>, key: Seq<char>)
    requires
        entries_of(items, Some(key)) is Some,
    ensures
        forall|i: int|
            0 <= i < entries_of(items, Some(key))->0.len() ==> (
            #[trigger] entries_of(items, Some(key))->0[i]).identity is Text,
    decreases items.len(),
{
    if items.len() > 0 {
        lemma_text_identities(items.drop_last(), key);
    }
}

fn sort_by_key(entries: Vec<Entry>) -> (sorted: Vec<Entry>)
    requires
        forall|i: int| 0 <= i < entries@.len() ==> (#[trigger] entries@[i]).identity@ is Text,
    ensures
        entry_models(sorted@) == sort_entries(entry_models(entries@)),
{
    let mut sorted: Vec<Entry> = Vec::new();
    let ghost models = entry_models(entries@);
    assert(entry_models(sorted@) =~= models.take(0));
    for i in 0..entries.len()
        invariant
            models == entry_models(entries@),
            forall|j: int| 0 <= j < entries@.len() ==> (#[trigger] entries@[j]).identity@ is Text,
            forall|j: int| 0 <= j < sorted@.len() ==> (#[trigger] sorted@[j]).identity@ is Text,
            entry_models(sorted@) == sort_entries(models.take(i as int)),
    {
        let entry = Entry { identity: entries[i].identity.clone(), node: entries[i].node.clone() };
        let mut at: usize = sorted.len();
        while at > 0 && entry_precedes(&entry, &sorted[at - 1])
            invariant
                at <= sorted@.len(),
                entry.identity@ is Text,
                forall|j: int| 0 <= j < sorted@.len() ==> (#[trigger] sorted@[j]).identity@ is Text,
                forall|j: int|
                    at <= j < sorted@.len() ==> entry_before(
                        entry@,
                        #[trigger] entry_models(sorted@)[j],
                    ),
            decreases at,
        {
            at -= 1;
            assert(entry_models(sorted@)[at as int] == sorted@[at as int]@);
        }
        let ghost before = sorted@;
        proof {
            assert(at > 0 ==> entry_models(before)[at - 1] == before[at - 1]@);
            lemma_insert_entry(entry_models(before), entry@, at as int);
            assert(models.take(i as int + 1).drop_last() =~= models.take(i as int));
            assert(models.take(i as int + 1).last() == entry@);
        }
        sorted.insert(at, entry);
        assert(entry_models(sorted@) =~= entry_models(before).insert(at as int, entry@));
    }
    assert(models.take(models.len() as int) =~= models);
    sorted
}

fn entry_precedes(a: &Entry, b: &Entry) -> (before: bool)
    requires
        a.identity@ is Text,
        b.identity@ is Text,
    ensures
        before == entry_before(a@, b@),
{
    match (&a.identity, &b.identity) {
        (ContentNode::Text(left), ContentNode::Text(right)) => text_precedes(
            left.value(),
            right.value(),
        ),
        _ => false,
    }
}

fn unmatched_nodes(entries: &Vec<Entry>, others: &Vec<Entry>) -> (nodes: Vec<XmlNode>)
    ensures
        xml_models(nodes@) == unmatched(entry_models(entries@), entry_models(others@)),
{
    let mut nodes: Vec<XmlNode> = Vec::new();
    let ghost models = entry_models(entries@);
    for i in 0..entries.len()
        invariant
            models == entry_models(entries@),
            xml_models(nodes@) == unmatched(models.take(i as int), entry_models(others@)),
    {
        let ghost before = nodes@;
        assert(models.take(i as int + 1).drop_last() =~= models.take(i as int));
        assert(models.take(i as int + 1).last() == entries@[i as int]@);
        if find_entry(others, &entries[i].identity).is_none() {
            nodes.push(entries[i].node.clone());
            assert(xml_models(nodes@) =~= xml_models(before).push(entries@[i as int]@.node));
        }
    }
    assert(models.take(models.len() as int) =~= models);
    nodes
}

fn changed_nodes(entries: &Vec<Entry>, others: &Vec<Entry>) -> (nodes: Vec<XmlNode>)
    ensures
        xml_models(nodes@) == changed(entry_models(entries@), entry_models(others@)),
{
    let mut nodes: Vec<XmlNode> = Vec::new();
    let ghost models = entry_models(entries@);
    let ghost held = entry_models(others@);
    for i in 0..entries.len()
        invariant
            models == entry_models(entries@),
            held == entry_models(others@),
            xml_models(nodes@) == changed(models.take(i as int), held),
    {
        let ghost before = nodes@;
        let ghost entry = entries@[i as int]@;
        assert(models.take(i as int + 1).drop_last() =~= models.take(i as int));
        assert(models.take(i as int + 1).last() == entry);
        match find_entry(others, &entries[i].identity) {
            Some(at) => {
                assert(held[at as int] == others@[at as int]@);
                if !others[at].node.equals(&entries[i].node) {
                    assert(entry_changed(held, entry));
                    nodes.push(entries[i].node.clone());
                    assert(xml_models(nodes@) =~= xml_models(before).push(entry.node));
                } else {
                    assert(!entry_changed(held, entry)) by {
                        if entry_changed(held, entry) {
                            let k = choose|k: int|
                                0 <= k < held.len() && node_equiv(
                                    #[trigger] held[k].identity,
                                    entry.identity,
                                ) && (forall|j: int|
                                    0 <= j < k ==> !node_equiv(
                                        #[trigger] held[j].identity,
                                        entry.identity,
                                    )) && !xml_equiv(held[k].node, entry.node);
                            assert(node_equiv(held[k].identity, entry.identity));
                            assert(node_equiv(held[at as int].identity, entry.identity));
                            assert(k == at);
                        }
                    }
                }
            },
            None => {},
        }
    }
    assert(models.take(models.len() as int) =~= models);
    nodes
}

fn entry_patch(current: &XmlNode, now: Vec<Entry>, then: Vec<Entry>) -> (patch: Option<XmlNode>)
    ensures
        patch_models(patch) == collection_patch(
            current@,
            entry_operations(entry_models(now@), entry_models(then@)),
        ),
{
    proof {
        lemma_vocabulary();
    }
    let inserted = unmatched_nodes(&now, &then);
    let removed = unmatched_nodes(&then, &now);
    let updated = changed_nodes(&now, &then);
    let mut changes: Vec<XmlNode> = Vec::new();
    push_operations(&mut changes, "insert", &inserted, 0);
    push_operations(&mut changes, "remove", &removed, 0);
    push_operations(&mut changes, "update", &updated, 0);
    assert(xml_models(inserted@).skip(0) =~= xml_models(inserted@));
    assert(xml_models(removed@).skip(0) =~= xml_models(removed@));
    assert(xml_models(updated@).skip(0) =~= xml_models(updated@));
    assert(xml_models(changes@) =~= entry_operations(entry_models(now@), entry_models(then@)));
    patch_node(current, changes)
}

fn keyed_patch(current: &XmlNode, previous: &XmlNode, key: &XmlName) -> (patch: Option<XmlNode>)
    ensures
        patch_models(patch) == diff_keyed(current@, previous@, key@),
{
    if current.equals(previous) {
        return None;
    }
    if !is_same_collection(current, previous) {
        return Some(current.clone());
    }
    let now = collect_entries(visible_nodes(current), Some(key));
    let then = collect_entries(visible_nodes(previous), Some(key));
    match (now, then) {
        (Some(now), Some(then)) => {
            proof {
                lemma_text_identities(visible_items(current@.children), key@);
                lemma_text_identities(visible_items(previous@.children), key@);
                assert forall|i: int| 0 <= i < now@.len() implies (
                #[trigger] now@[i]).identity@ is Text by {
                    assert(entry_models(now@)[i].identity is Text);
                }
                assert forall|i: int| 0 <= i < then@.len() implies (
                #[trigger] then@[i]).identity@ is Text by {
                    assert(entry_models(then@)[i].identity is Text);
                }
            }
            entry_patch(current, sort_by_key(now), sort_by_key(then))
        },
        _ => Some(current.clone()),
    }
}

fn contains_slot(children: &MixedChildren) -> (found: bool)
    ensures
        found == has_slot(children@),
{
    let count: usize = children.len();
    for i in 0..count
        invariant
            count == children@.len(),
            forall|j: int| 0 <= j < i ==> !((#[trigger] children@[j]) is Slot),
    {
        if let Some(ContentRef::DiffSlot(_)) = children.get(i) {
            assert(children@[i as int] is Slot);
            return true;
        }
    }
    false
}

fn map_patch(current: &XmlNode, previous: &XmlNode) -> (patch: Option<XmlNode>)
    ensures
        patch_models(patch) == diff_map(current@, previous@),
{
    if current.equals(previous) {
        return None;
    }
    if *current.name() != *previous.name() || *current.attributes() != *previous.attributes()
        || !current.is_map() || !previous.is_map() || contains_slot(current.children())
        || contains_slot(previous.children()) {
        return Some(current.clone());
    }
    let now = collect_entries(visible_nodes(current), None);
    let then = collect_entries(visible_nodes(previous), None);
    match (now, then) {
        (Some(now), Some(then)) => entry_patch(current, now, then),
        _ => Some(current.clone()),
    }
}

fn is_same_unmarked_shape(current: &XmlNode, previous: &XmlNode) -> (same: bool)
    ensures
        same == same_unmarked_shape(current@, previous@),
{
    let count: usize = current.children().len();
    if !is_same_collection(current, previous) || count != previous.children().len() {
        return false;
    }
    let now = current.children();
    let then = previous.children();
    for i in 0..count
        invariant
            count == now@.len(),
            count == then@.len(),
            now@ == current@.children,
            then@ == previous@.children,
            forall|j: int| 0 <= j < i ==> same_unmarked_edge(#[trigger] now@[j], then@[j]),
    {
        let same = match (now.get(i), then.get(i)) {
            (Some(ContentRef::Node(a)), Some(ContentRef::Node(b))) => a.equals(b),
            (Some(ContentRef::DiffSlot(a)), Some(ContentRef::DiffSlot(b))) => *a.role() == *b.role()
                && a.strategy().equals(b.strategy()),
            _ => false,
        };
        if !same {
            assert(!same_unmarked_edge(now@[i as int], then@[i as int]));
            return false;
        }
    }
    true
}

/// Compares two nodes.
///
/// Nothing comes back where they are equal. Where only values of slots differ, a
/// patch of those slots comes back; the whole current node otherwise.
pub fn diff_xml_nodes(current: &XmlNode, previous: &XmlNode) -> (patch: Option<XmlNode>)
    ensures
        patch_models(patch) == diff_xml(current@, previous@),
    decreases current@, 0int,
{
    proof {
        lemma_vocabulary();
    }
    if current.equals(previous) {
        return None;
    }
    if !is_same_unmarked_shape(current, previous) {
        return Some(current.clone());
    }
    let mut node = delta_node(current.name().clone());
    if let Some(kind) = current.attributes().get(&xml_name("kind")) {
        let ghost held = node@.attributes;
        assert(!has_attribute(held, "kind"@));
        let _ = node.push_attribute(xml_name("kind"), kind.value());
    }
    assert(node@.attributes =~= delta_attributes(current@));
    let now = current.children();
    let then = previous.children();
    let count: usize = now.len();
    for i in 0..count
        invariant
            count == now@.len(),
            count == then@.len(),
            now@ == current@.children,
            node@ == (XmlModel {
                attributes: delta_attributes(current@),
                children: slot_patches(now@, then@, i as int),
                ..empty_xml(current@.name)
            }),
    {
        if let (Some(ContentRef::DiffSlot(a)), Some(ContentRef::DiffSlot(b))) = (
            now.get(i),
            then.get(i),
        ) {
            assert(now@[i as int] == EdgeModel::Slot(a@));
            assert(then@[i as int] == EdgeModel::Slot(b@));
            assert(edge_patch(now@[i as int], then@[i as int]) == diff_slot(a@, b@));
            assert(decreases_to!(current@ => current@.children));
            assert(decreases_to!(current@.children => current@.children[i as int]));
            assert(decreases_to!(current@ => current@.children[i as int]->Slot_0));
            let patch = slot_patch(a, b);
            if let Some(patch) = patch {
                node.push(MixedContent::xml(patch));
            }
        } else {
            assert(edge_patch(now@[i as int], then@[i as int]) is None);
        }
    }
    if node.children().is_empty() {
        None
    } else {
        Some(node)
    }
}

fn slot_patch(current: &DiffSlot, previous: &DiffSlot) -> (patch: Option<XmlNode>)
    ensures
        patch_models(patch) == diff_slot(current@, previous@),
    decreases current@, 0int,
{
    match (current.value(), previous.value()) {
        (None, None) => None,
        (Some(value), None) => Some(value.clone()),
        (None, Some(_)) => Some(deletion_node(current.role().clone())),
        (Some(now), Some(then)) => diff_xml_values(now, then, current.strategy()),
    }
}

/// Compares two values under a strategy.
pub fn diff_xml_values(
    current: &XmlNode,
    previous: &XmlNode,
    strategy: &DiffStrategy,
) -> (patch: Option<XmlNode>)
    ensures
        patch_models(patch) == diff_value(current@, previous@, strategy@),
    decreases current@, 1int,
{
    match strategy {
        DiffStrategy::Recursive => if current.is_map() && previous.is_map() {
            map_patch(current, previous)
        } else {
            diff_xml_nodes(current, previous)
        },
        DiffStrategy::Replace => if current.equals(previous) {
            None
        } else {
            Some(replace_node(current.clone()))
        },
        DiffStrategy::Append => append_patch(current, previous),
        DiffStrategy::Sequence => sequence_patch(current, previous),
        DiffStrategy::UnorderedSet => set_patch(current, previous),
        DiffStrategy::Keyed(key) => keyed_patch(current, previous, key),
    }
}

/// Whether a child is an XML node.
pub open spec fn is_xml(edge: EdgeModel) -> bool {
    edge is Node && edge->Node_0 is Xml
}

/// The XML node that a child is.
pub open spec fn xml_of(edge: EdgeModel) -> XmlModel {
    edge->Node_0->Xml_0
}

/// Whether a document is made of XML nodes alone.
pub open spec fn only_xml(children: Seq<EdgeModel>) -> bool {
    forall|i: int| 0 <= i < children.len() ==> is_xml(#[trigger] children[i])
}

/// Whether two documents are made of XML nodes alone, of the same names at the
/// same positions, with no name twice.
pub open spec fn stable_layout(current: Seq<EdgeModel>, previous: Seq<EdgeModel>) -> bool {
    &&& only_xml(current)
    &&& only_xml(previous)
    &&& current.len() == previous.len()
    &&& forall|i: int|
        0 <= i < current.len() ==> xml_of(#[trigger] current[i]).name == xml_of(previous[i]).name
    &&& forall|i: int, j: int|
        0 <= i < j < current.len() ==> xml_of(#[trigger] current[i]).name != xml_of(
            #[trigger] current[j],
        ).name
}

/// The patches of the first `n` root nodes.
pub open spec fn root_patches(current: Seq<EdgeModel>, previous: Seq<EdgeModel>, n: int) -> Seq<
    EdgeModel,
>
    decreases n,
{
    if n <= 0 {
        Seq::empty()
    } else {
        let before = root_patches(current, previous, n - 1);
        match diff_xml(xml_of(current[n - 1]), xml_of(previous[n - 1])) {
            Some(patch) => before.push(xml_edge(patch)),
            None => before,
        }
    }
}

/// One removal for each XML node of a document.
pub open spec fn removals(children: Seq<EdgeModel>) -> Seq<EdgeModel>
    decreases children.len(),
{
    if children.len() == 0 {
        Seq::empty()
    } else {
        let before = removals(children.drop_last());
        if is_xml(children.last()) {
            before.push(xml_edge(operation("remove"@, xml_of(children.last()))))
        } else {
            before
        }
    }
}

/// A document, unless it is empty.
pub open spec fn nonempty(children: Seq<EdgeModel>) -> Option<Seq<EdgeModel>> {
    if children.len() == 0 {
        None
    } else {
        Some(children)
    }
}

/// Change of a document: nothing where it is equal, the patches of its roots
/// where their layout is stable, and otherwise a removal for every earlier XML
/// root in front of the complete current document.
pub open spec fn diff_documents(current: Seq<EdgeModel>, previous: Seq<EdgeModel>) -> Option<
    Seq<EdgeModel>,
> {
    if edges_equiv(current, previous) {
        None
    } else if stable_layout(current, previous) {
        nonempty(root_patches(current, previous, current.len() as int))
    } else {
        nonempty(removals(previous) + current)
    }
}

/// The complete current document, with removals in front where the layout is
/// not stable.
pub open spec fn full_update(current: Seq<EdgeModel>, previous: Seq<EdgeModel>) -> Seq<EdgeModel> {
    if edges_equiv(current, previous) || stable_layout(current, previous) {
        current
    } else {
        removals(previous) + current
    }
}

/// A node without slots is patched as a whole or not at all.
pub proof fn lemma_slot_free_diff(current: XmlModel, previous: XmlModel)
    requires
        slot_free_xml(current),
    ensures
        diff_xml(current, previous) == (if same_unmarked_shape(current, previous) || xml_equiv(
            current,
            previous,
        ) {
            None
        } else {
            Some(current)
        }),
{
    if same_unmarked_shape(current, previous) {
        lemma_no_slot_patches(
            current.children,
            previous.children,
            current.children.len() as int,
        );
    }
}

proof fn lemma_no_slot_patches(current: Seq<EdgeModel>, previous: Seq<EdgeModel>, n: int)
    requires
        slot_free(current),
        n <= current.len(),
    ensures
        slot_patches(current, previous, n).len() == 0,
    decreases n,
{
    if n > 0 {
        lemma_no_slot_patches(current, previous, n - 1);
        assert(slot_free_edge(current[n - 1]));
        assert(edge_patch(current[n - 1], previous[n - 1]) is None);
    }
}

proof fn lemma_removals_slot_free(children: Seq<EdgeModel>)
    requires
        slot_free(children),
    ensures
        slot_free(removals(children)),
    decreases children.len(),
{
    if children.len() > 0 {
        assert(slot_free(children.drop_last()));
        lemma_removals_slot_free(children.drop_last());
        if is_xml(children.last()) {
            let node = xml_of(children.last());
            assert(slot_free_edge(children.last()));
            assert(slot_free_node(children.last()->Node_0));
            assert(slot_free_node(xml_edge(node)->Node_0));
            let removal = operation("remove"@, node);
            assert(slot_free_edge(removal.children[0]));
            assert(slot_free_xml(removal));
            assert(slot_free_node(xml_edge(removal)->Node_0));
            assert(slot_free_edge(xml_edge(removal)));
        }
    }
}

proof fn lemma_root_patches_slot_free(current: Seq<EdgeModel>, previous: Seq<EdgeModel>, n: int)
    requires
        slot_free(current),
        only_xml(current),
        n <= current.len(),
    ensures
        slot_free(root_patches(current, previous, n)),
    decreases n,
{
    if n > 0 {
        lemma_root_patches_slot_free(current, previous, n - 1);
        let edge = current[n - 1];
        assert(slot_free_edge(edge));
        assert(slot_free_node(edge->Node_0));
        assert(is_xml(edge));
        lemma_slot_free_diff(xml_of(edge), xml_of(previous[n - 1]));
        assert(edge == xml_edge(xml_of(edge)));
    }
}

fn is_only_xml(document: &ResolvedDocument) -> (only: bool)
    ensures
        only == only_xml(document@),
{
    let children = document.children();
    let count: usize = children.len();
    for i in 0..count
        invariant
            count == children@.len(),
            children@ == document@,
            forall|j: int| 0 <= j < i ==> is_xml(#[trigger] children@[j]),
    {
        if let Some(ContentRef::Node(ContentNode::Xml(_))) = children.get(i) {
        } else {
            assert(!is_xml(children@[i as int]));
            return false;
        }
    }
    true
}

fn root_node(document: &ResolvedDocument, index: usize) -> (node: &XmlNode)
    requires
        only_xml(document@),
        index < document@.len(),
    ensures
        node@ == xml_of(document@[index as int]),
{
    assert(is_xml(document@[index as int]));
    if let Some(ContentRef::Node(ContentNode::Xml(node))) = document.children().get(index) {
        node
    } else {
        vstd::pervasive::unreached()
    }
}

fn is_stable_layout(current: &ResolvedDocument, previous: &ResolvedDocument) -> (stable: bool)
    ensures
        stable == stable_layout(current@, previous@),
{
    let count: usize = current.children().len();
    if !is_only_xml(current) || !is_only_xml(previous) || count != previous.children().len() {
        return false;
    }
    for i in 0..count
        invariant
            count == current@.len(),
            count == previous@.len(),
            only_xml(current@),
            only_xml(previous@),
            forall|j: int|
                0 <= j < i ==> xml_of(#[trigger] current@[j]).name == xml_of(previous@[j]).name,
            forall|j: int, k: int|
                0 <= j < k < i ==> xml_of(#[trigger] current@[j]).name != xml_of(
                    #[trigger] current@[k],
                ).name,
    {
        let root = root_node(current, i);
        if *root.name() != *root_node(previous, i).name() {
            assert(xml_of(current@[i as int]).name != xml_of(previous@[i as int]).name);
            return false;
        }
        for j in 0..i
            invariant
                i < count,
                count == current@.len(),
                only_xml(current@),
                root@ == xml_of(current@[i as int]),
                forall|k: int| 0 <= k < j ==> xml_of(#[trigger] current@[k]).name != root@.name,
        {
            if *root_node(current, j).name() == *root.name() {
                assert(xml_of(current@[j as int]).name == xml_of(current@[i as int]).name);
                return false;
            }
        }
    }
    true
}

fn document_fallback(current: &ResolvedDocument, previous: &ResolvedDocument) -> (children:
    BlockChildren)
    ensures
        children@ == removals(previous@) + current@,
        slot_free(children@),
{
    proof {
        lemma_vocabulary();
    }
    let mut children = BlockChildren::new();
    let roots = previous.children();
    let count: usize = roots.len();
    for i in 0..count
        invariant
            count == roots@.len(),
            is_xml_name("remove"@),
            children@ == removals(roots@.take(i as int)),
    {
        assert(roots@.take(i as int + 1).drop_last() =~= roots@.take(i as int));
        if let Some(ContentRef::Node(ContentNode::Xml(node))) = roots.get(i) {
            children.push(BlockContent::xml(operation_node("remove", node.clone())));
        }
    }
    assert(roots@.take(roots@.len() as int) =~= roots@);
    proof {
        lemma_removals_slot_free(roots@);
        use_type_invariant(current);
    }
    children.extend(current.children().clone());
    children
}

/// Compares two complete documents for an adjacent projection update.
///
/// A stable document made only of uniquely named, same-position XML roots is
/// compared root by root with [`diff_xml_nodes`]. Other document shapes use a
/// complete-current fallback: every previous top-level XML root is wrapped in a
/// removal in front of the complete current document. Text, Markdown and raw
/// text are never turned into removals; a document made only of those yields no
/// patch when it disappears.
pub fn diff_resolved_documents(current: &ResolvedDocument, previous: &ResolvedDocument) -> (patch:
    Option<ResolvedDocument>)
    ensures
        match patch {
            Some(patch) => diff_documents(current@, previous@) == Some(patch@),
            None => diff_documents(current@, previous@) is None,
        },
{
    proof {
        use_type_invariant(current);
    }
    if current.children().equals(previous.children()) {
        return None;
    }
    let mut children = BlockChildren::new();
    if is_stable_layout(current, previous) {
        let count: usize = current.children().len();
        for i in 0..count
            invariant
                count == current@.len(),
                stable_layout(current@, previous@),
                children@ == root_patches(current@, previous@, i as int),
        {
            if let Some(patch) = diff_xml_nodes(root_node(current, i), root_node(previous, i)) {
                children.push(BlockContent::xml(patch));
            }
        }
        proof {
            lemma_root_patches_slot_free(current@, previous@, count as int);
        }
    } else {
        children = document_fallback(current, previous);
    }
    if children.is_empty() {
        None
    } else {
        Some(ResolvedDocument::new(children))
    }
}

/// Produces a complete current-document update for transport fallbacks.
///
/// Unlike [`diff_resolved_documents`], this keeps every current child. A stable
/// layout needs no removals because each current root replaces its earlier one.
/// Other shapes first remove every earlier XML root.
pub fn full_document_update(current: &ResolvedDocument, previous: &ResolvedDocument) -> (update:
    ResolvedDocument)
    ensures
        update@ == full_update(current@, previous@),
{
    if current.children().equals(previous.children()) || is_stable_layout(current, previous) {
        return current.clone();
    }
    ResolvedDocument::new(document_fallback(current, previous))
}

} // verus!
