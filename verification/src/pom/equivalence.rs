//! Equality of documents is an equivalence relation.

use vstd::prelude::*;
use crate::pom::model::{
    attributes_equiv, edge_equiv, edges_equiv, items_equiv, markdown_equiv, metadata_equiv,
    node_equiv, slot_equiv, unique_attribute_names, well_formed_blocks, well_formed_edge,
    well_formed_inlines, well_formed_markdown, well_formed_metadata, well_formed_mixed,
    well_formed_node, well_formed_slot, well_formed_xml, xml_equiv, AttributeModel, EdgeModel,
    MarkdownModel, NodeModel, XmlModel,
};

verus! {

/// Every XML node is equal to itself.
pub proof fn law_xml_equal_to_itself(a: XmlModel)
    ensures
        xml_equiv(a, a),
    decreases a,
{
    assert forall|i: int| 0 <= i < a.attributes.len() implies a.attributes.contains(
        #[trigger] a.attributes[i],
    ) by {}
    law_edges_equal_to_themselves(a.children);
    if let Some(identity) = a.metadata.identity {
        assert(decreases_to!(a => a.metadata));
        assert(decreases_to!(a.metadata => a.metadata.identity->0));
        law_node_equal_to_itself(*identity);
    }
    assert(metadata_equiv(a.metadata, a.metadata));
}

/// Every child list is equal to itself.
pub proof fn law_edges_equal_to_themselves(a: Seq<EdgeModel>)
    ensures
        edges_equiv(a, a),
    decreases a,
{
    assert forall|i: int| 0 <= i < a.len() implies edge_equiv(#[trigger] a[i], a[i]) by {
        match a[i] {
            EdgeModel::Node(node) => {
                assert(decreases_to!(a => a[i]));
                assert(decreases_to!(a[i] => a[i]->Node_0));
                law_node_equal_to_itself(node);
            },
            EdgeModel::Slot(slot) => {
                assert(decreases_to!(a => a[i]));
                assert(decreases_to!(a[i] => a[i]->Slot_0));
                if let Some(value) = slot.value {
                    assert(decreases_to!(slot => slot.value));
                    law_xml_equal_to_itself(value);
                }
                assert(slot_equiv(slot, slot));
            },
        }
    }
}

/// Every node is equal to itself.
pub proof fn law_node_equal_to_itself(a: NodeModel)
    ensures
        node_equiv(a, a),
    decreases a,
{
    match a {
        NodeModel::Markdown(node) => {
            match node {
                MarkdownModel::Heading { level, children } => {
                    law_edges_equal_to_themselves(children);
                },
                MarkdownModel::Paragraph { children } => {
                    law_edges_equal_to_themselves(children);
                },
                MarkdownModel::List { kind, items } => {
                    assert forall|i: int| 0 <= i < items.len() implies edges_equiv(
                        #[trigger] items[i],
                        items[i],
                    ) by {
                        assert(decreases_to!(a => a->Markdown_0));
                        assert(decreases_to!(node => node->items));
                        assert(decreases_to!(items => items[i]));
                        law_edges_equal_to_themselves(items[i]);
                    }
                    assert(items_equiv(items, items));
                },
                MarkdownModel::Strong { children } => {
                    law_edges_equal_to_themselves(children);
                },
                _ => {},
            }
            assert(markdown_equiv(node, node));
        },
        NodeModel::Xml(node) => {
            law_xml_equal_to_itself(node);
        },
        _ => {},
    }
}

/// With the same names never twice, holding the same attributes goes both ways.
pub proof fn law_attributes_symmetric(a: Seq<AttributeModel>, b: Seq<AttributeModel>)
    requires
        unique_attribute_names(a),
        unique_attribute_names(b),
        attributes_equiv(a, b),
    ensures
        attributes_equiv(b, a),
{
    assert(a.no_duplicates());
    assert(b.no_duplicates());
    a.unique_seq_to_set();
    b.unique_seq_to_set();
    assert forall|x: AttributeModel| a.to_set().contains(x) implies b.to_set().contains(x) by {
        let i = choose|i: int| 0 <= i < a.len() && a[i] == x;
        assert(b.contains(a[i]));
    }
    vstd::set_lib::lemma_subset_equality(a.to_set(), b.to_set());
    assert forall|i: int| 0 <= i < b.len() implies a.contains(#[trigger] b[i]) by {
        assert(b.to_set().contains(b[i]));
        assert(a.to_set().contains(b[i]));
    }
}

/// Equality of XML nodes goes both ways.
pub proof fn law_xml_symmetric(a: XmlModel, b: XmlModel)
    requires
        well_formed_xml(a),
        well_formed_xml(b),
        xml_equiv(a, b),
    ensures
        xml_equiv(b, a),
    decreases a, 0int,
{
    law_attributes_symmetric(a.attributes, b.attributes);
    assert forall|i: int| 0 <= i < a.children.len() implies well_formed_edge(
        #[trigger] a.children[i],
    ) && well_formed_edge(b.children[i]) by {
        assert(well_formed_mixed(a.children) && well_formed_mixed(b.children));
        assert(well_formed_edge(b.children[i]));
    }
    lemma_edges_symmetric(a.children, b.children);
    assert(metadata_equiv(a.metadata, b.metadata));
    assert(well_formed_metadata(a.metadata) && well_formed_metadata(b.metadata));
    if let (Some(x), Some(y)) = (a.metadata.identity, b.metadata.identity) {
        assert(decreases_to!(a => a.metadata));
        assert(decreases_to!(a.metadata => a.metadata.identity->0));
        law_node_symmetric(*x, *y);
    }
    assert(metadata_equiv(b.metadata, a.metadata));
}

/// Equality of child lists goes both ways.
pub proof fn law_edges_symmetric(a: Seq<EdgeModel>, b: Seq<EdgeModel>)
    requires
        well_formed_blocks(a),
        well_formed_blocks(b),
        edges_equiv(a, b),
    ensures
        edges_equiv(b, a),
{
    assert forall|i: int| 0 <= i < a.len() implies well_formed_edge(#[trigger] a[i])
        && well_formed_edge(b[i]) by {
        assert(well_formed_edge(b[i]));
    }
    lemma_edges_symmetric(a, b);
}

proof fn lemma_edges_symmetric(a: Seq<EdgeModel>, b: Seq<EdgeModel>)
    requires
        forall|i: int|
            0 <= i < a.len() ==> well_formed_edge(#[trigger] a[i]) && well_formed_edge(b[i]),
        edges_equiv(a, b),
    ensures
        edges_equiv(b, a),
    decreases a, 0int,
{
    assert forall|i: int| 0 <= i < b.len() implies edge_equiv(#[trigger] b[i], a[i]) by {
        assert(well_formed_edge(a[i]) && well_formed_edge(b[i]));
        assert(edge_equiv(a[i], b[i]));
        assert(decreases_to!(a => a[i]));
        match (a[i], b[i]) {
            (EdgeModel::Node(x), EdgeModel::Node(y)) => {
                assert(decreases_to!(a[i] => a[i]->Node_0));
                law_node_symmetric(x, y);
            },
            (EdgeModel::Slot(x), EdgeModel::Slot(y)) => {
                assert(decreases_to!(a[i] => a[i]->Slot_0));
                assert(slot_equiv(x, y));
                assert(well_formed_slot(x) && well_formed_slot(y));
                if let (Some(v), Some(w)) = (x.value, y.value) {
                    assert(decreases_to!(x => x.value));
                    law_xml_symmetric(v, w);
                }
                assert(slot_equiv(y, x));
            },
            _ => {},
        }
    }
}

/// Equality of nodes goes both ways.
pub proof fn law_node_symmetric(a: NodeModel, b: NodeModel)
    requires
        well_formed_node(a),
        well_formed_node(b),
        node_equiv(a, b),
    ensures
        node_equiv(b, a),
    decreases a, 0int,
{
    match (a, b) {
        (NodeModel::Markdown(x), NodeModel::Markdown(y)) => {
            lemma_markdown_symmetric(x, y);
        },
        (NodeModel::Xml(x), NodeModel::Xml(y)) => {
            law_xml_symmetric(x, y);
        },
        _ => {},
    }
}

proof fn lemma_inlines_symmetric(a: Seq<EdgeModel>, b: Seq<EdgeModel>)
    requires
        well_formed_inlines(a),
        well_formed_inlines(b),
        edges_equiv(a, b),
    ensures
        edges_equiv(b, a),
    decreases a, 1int,
{
    assert forall|i: int| 0 <= i < a.len() implies well_formed_edge(#[trigger] a[i])
        && well_formed_edge(b[i]) by {
        assert(well_formed_edge(b[i]));
    }
    lemma_edges_symmetric(a, b);
}

proof fn lemma_markdown_symmetric(a: MarkdownModel, b: MarkdownModel)
    requires
        well_formed_markdown(a),
        well_formed_markdown(b),
        markdown_equiv(a, b),
    ensures
        markdown_equiv(b, a),
    decreases a, 0int,
{
    match a {
        MarkdownModel::Heading { level, children } => {
            lemma_inlines_symmetric(children, b->Heading_children);
        },
        MarkdownModel::Paragraph { children } => {
            lemma_inlines_symmetric(children, b->Paragraph_children);
        },
        MarkdownModel::List { kind, items } => {
            assert(items_equiv(items, b->items));
            assert forall|i: int| 0 <= i < items.len() implies edges_equiv(
                b->items[i],
                #[trigger] items[i],
            ) by {
                assert(edges_equiv(items[i], b->items[i]));
                assert(well_formed_blocks(items[i]));
                assert(well_formed_blocks(b->items[i]));
                assert(decreases_to!(a => a->items));
                assert(decreases_to!(items => items[i]));
                assert forall|j: int| 0 <= j < items[i].len() implies well_formed_edge(
                    #[trigger] items[i][j],
                ) && well_formed_edge(b->items[i][j]) by {
                    assert(well_formed_edge(b->items[i][j]));
                }
                lemma_edges_symmetric(items[i], b->items[i]);
            }
            assert(items_equiv(b->items, items)) by {
                assert forall|i: int| 0 <= i < b->items.len() implies edges_equiv(
                    #[trigger] b->items[i],
                    items[i],
                ) by {
                    assert(edges_equiv(b->items[i], items[i]));
                }
            }
        },
        MarkdownModel::Strong { children } => {
            lemma_inlines_symmetric(children, b->Strong_children);
        },
        _ => {},
    }
}

/// Holding the same attributes carries over.
pub proof fn law_attributes_transitive(
    a: Seq<AttributeModel>,
    b: Seq<AttributeModel>,
    c: Seq<AttributeModel>,
)
    requires
        attributes_equiv(a, b),
        attributes_equiv(b, c),
    ensures
        attributes_equiv(a, c),
{
    assert forall|i: int| 0 <= i < a.len() implies c.contains(#[trigger] a[i]) by {
        assert(b.contains(a[i]));
        let j = choose|j: int| 0 <= j < b.len() && b[j] == a[i];
        assert(c.contains(b[j]));
    }
}

/// Equality of XML nodes carries over.
pub proof fn law_xml_transitive(a: XmlModel, b: XmlModel, c: XmlModel)
    requires
        xml_equiv(a, b),
        xml_equiv(b, c),
    ensures
        xml_equiv(a, c),
    decreases a,
{
    law_attributes_transitive(a.attributes, b.attributes, c.attributes);
    law_edges_transitive(a.children, b.children, c.children);
    assert(metadata_equiv(a.metadata, b.metadata));
    assert(metadata_equiv(b.metadata, c.metadata));
    if let (Some(x), Some(y), Some(z)) = (
        a.metadata.identity,
        b.metadata.identity,
        c.metadata.identity,
    ) {
        assert(decreases_to!(a => a.metadata));
        assert(decreases_to!(a.metadata => a.metadata.identity->0));
        law_node_transitive(*x, *y, *z);
    }
    assert(metadata_equiv(a.metadata, c.metadata));
}

/// Equality of child lists carries over.
pub proof fn law_edges_transitive(a: Seq<EdgeModel>, b: Seq<EdgeModel>, c: Seq<EdgeModel>)
    requires
        edges_equiv(a, b),
        edges_equiv(b, c),
    ensures
        edges_equiv(a, c),
    decreases a,
{
    assert forall|i: int| 0 <= i < a.len() implies edge_equiv(#[trigger] a[i], c[i]) by {
        assert(edge_equiv(a[i], b[i]));
        assert(edge_equiv(b[i], c[i]));
        assert(decreases_to!(a => a[i]));
        match (a[i], b[i], c[i]) {
            (EdgeModel::Node(x), EdgeModel::Node(y), EdgeModel::Node(z)) => {
                assert(decreases_to!(a[i] => a[i]->Node_0));
                law_node_transitive(x, y, z);
            },
            (EdgeModel::Slot(x), EdgeModel::Slot(y), EdgeModel::Slot(z)) => {
                assert(decreases_to!(a[i] => a[i]->Slot_0));
                assert(slot_equiv(x, y));
                assert(slot_equiv(y, z));
                if let (Some(u), Some(v), Some(w)) = (x.value, y.value, z.value) {
                    assert(decreases_to!(x => x.value));
                    law_xml_transitive(u, v, w);
                }
                assert(slot_equiv(x, z));
            },
            _ => {},
        }
    }
}

/// Equality of nodes carries over.
pub proof fn law_node_transitive(a: NodeModel, b: NodeModel, c: NodeModel)
    requires
        node_equiv(a, b),
        node_equiv(b, c),
    ensures
        node_equiv(a, c),
    decreases a,
{
    match (a, b, c) {
        (NodeModel::Markdown(x), NodeModel::Markdown(y), NodeModel::Markdown(z)) => {
            assert(markdown_equiv(x, y));
            assert(markdown_equiv(y, z));
            match x {
                MarkdownModel::Heading { level, children } => {
                    law_edges_transitive(children, y->Heading_children, z->Heading_children);
                },
                MarkdownModel::Paragraph { children } => {
                    law_edges_transitive(children, y->Paragraph_children, z->Paragraph_children);
                },
                MarkdownModel::List { kind, items } => {
                    assert(items_equiv(items, y->items));
                    assert(items_equiv(y->items, z->items));
                    assert forall|i: int| 0 <= i < items.len() implies edges_equiv(
                        #[trigger] items[i],
                        z->items[i],
                    ) by {
                        assert(edges_equiv(items[i], y->items[i]));
                        assert(edges_equiv(y->items[i], z->items[i]));
                        assert(decreases_to!(a => a->Markdown_0));
                        assert(decreases_to!(x => x->items));
                        assert(decreases_to!(items => items[i]));
                        law_edges_transitive(items[i], y->items[i], z->items[i]);
                    }
                    assert(items_equiv(items, z->items));
                },
                MarkdownModel::Strong { children } => {
                    law_edges_transitive(children, y->Strong_children, z->Strong_children);
                },
                _ => {},
            }
            assert(markdown_equiv(x, z));
        },
        (NodeModel::Xml(x), NodeModel::Xml(y), NodeModel::Xml(z)) => {
            law_xml_transitive(x, y, z);
        },
        _ => {},
    }
}

} // verus!
