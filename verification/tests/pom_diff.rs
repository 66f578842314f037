use agentview::pom::{
    BlockChildren, BlockContent, ContentNode, ContentRef, DiffSlot, DiffStrategy, Document,
    InlineChildren, InlineContent, MixedContent, ParagraphNode, RawTextNode, ResolvedDocument,
    TextNode, XmlName, XmlNode,
};
use agentview::pom_diff::{diff_resolved_documents, diff_xml_values, full_document_update};
use agentview::pom_renderer::render_pom_document;
use agentview::pom_resolution::resolve_artifact_document;

fn xml_name(name: &str) -> XmlName {
    XmlName::new(name).expect("a valid name")
}

fn xml(name: &str, text: &str) -> XmlNode {
    let mut node = XmlNode::new(xml_name(name));
    node.push(MixedContent::text(TextNode::new(text)));
    node
}

fn xml_with_attribute(name: &str, attribute: (&str, &str), text: &str) -> XmlNode {
    let mut node = xml(name, text);
    node.push_attribute(xml_name(attribute.0), attribute.1)
        .expect("fresh XML node has no attributes");
    node
}

fn resolved(children: BlockChildren) -> ResolvedDocument {
    resolve_artifact_document(Document::new(children)).expect("no slots")
}

fn xml_document<const N: usize>(nodes: [XmlNode; N]) -> ResolvedDocument {
    let mut children = BlockChildren::new();
    for node in nodes {
        children.push(BlockContent::xml(node));
    }
    resolved(children)
}

fn text_document(text: &str) -> ResolvedDocument {
    let mut inline = InlineChildren::new();
    inline.push(InlineContent::try_text(text).expect("test text is valid"));
    let mut children = BlockChildren::new();
    children.push(BlockContent::paragraph(ParagraphNode::new(inline)));
    resolved(children)
}

fn raw_document(text: &str) -> ResolvedDocument {
    let mut children = BlockChildren::new();
    children.push(BlockContent::raw_text(RawTextNode::new(text)));
    resolved(children)
}

fn empty_document() -> ResolvedDocument {
    resolved(BlockChildren::new())
}

fn remove(node: XmlNode) -> XmlNode {
    let mut operation = XmlNode::new(xml_name("remove"));
    operation.push(MixedContent::xml(node));
    operation
}

fn rendered(document: &ResolvedDocument) -> String {
    render_pom_document(document).expect("test POM renders")
}

fn xml_roots(document: &ResolvedDocument) -> Vec<XmlNode> {
    let mut roots = Vec::new();
    for index in 0..document.children().len() {
        if let Some(ContentRef::Node(ContentNode::Xml(node))) = document.children().get(index) {
            roots.push(node.clone());
        }
    }
    roots
}

fn apply_removals(previous: &ResolvedDocument, patch: &ResolvedDocument) -> Vec<XmlNode> {
    let mut roots = xml_roots(previous);
    for operation in xml_roots(patch) {
        assert_eq!(operation.name().as_str(), "remove");
        let target = match operation.children().get(0) {
            Some(ContentRef::Node(ContentNode::Xml(node))) => node,
            _ => panic!("expected one XML removal target"),
        };
        assert!(operation.children().get(1).is_none());
        let position = roots
            .iter()
            .position(|root| root == target)
            .expect("remove target existed in the prior document");
        roots.remove(position);
    }
    roots
}

#[test]
fn disappearing_xml_root_emits_an_applicable_remove_operation() {
    let previous = xml_document([xml("policy", "read only")]);
    let current = empty_document();

    let patch = diff_resolved_documents(&current, &previous).expect("XML removal patch");

    assert_eq!(patch, xml_document([remove(xml("policy", "read only"))]));
    assert_eq!(
        rendered(&patch),
        "<remove>\n  <policy>read only</policy>\n</remove>"
    );
    assert!(apply_removals(&previous, &patch).is_empty());
}

#[test]
fn plain_xml_text_and_attribute_changes_replace_the_complete_root() {
    let previous = xml_document([xml_with_attribute("status", ("priority", "low"), "running")]);
    let current = xml_document([xml_with_attribute("status", ("priority", "high"), "done")]);

    let patch = diff_resolved_documents(&current, &previous).expect("changed root patch");

    assert_eq!(patch, current);
    assert_eq!(rendered(&patch), "<status priority=\"high\">done</status>");
}

#[test]
fn full_document_update_retains_unchanged_stable_roots() {
    let previous = xml_document([xml("policy", "old"), xml("state", "unchanged")]);
    let current = xml_document([xml("policy", "new"), xml("state", "unchanged")]);

    assert_eq!(full_document_update(&current, &previous), current);
}

#[test]
fn changed_root_name_removes_the_old_xml_before_emitting_the_new_root() {
    let previous = xml_document([xml("policy", "old")]);
    let current = xml_document([xml("context", "new")]);

    let patch = diff_resolved_documents(&current, &previous).expect("replacement patch");

    assert_eq!(
        patch,
        xml_document([remove(xml("policy", "old")), xml("context", "new")])
    );
    assert_eq!(
        rendered(&patch),
        "<remove>\n  <policy>old</policy>\n</remove>\n\n<context>new</context>"
    );
}

#[test]
fn reordered_xml_roots_fall_back_to_removals_before_the_complete_current_document() {
    let previous = xml_document([xml("alpha", "A"), xml("beta", "B")]);
    let current = xml_document([xml("beta", "B"), xml("alpha", "A")]);

    let patch = diff_resolved_documents(&current, &previous).expect("reorder fallback");

    assert_eq!(
        patch,
        xml_document([
            remove(xml("alpha", "A")),
            remove(xml("beta", "B")),
            xml("beta", "B"),
            xml("alpha", "A"),
        ])
    );
}

#[test]
fn duplicate_xml_root_names_use_the_same_conservative_fallback() {
    let previous = xml_document([xml("entry", "first"), xml("entry", "second")]);
    let current = xml_document([xml("entry", "changed"), xml("entry", "second")]);

    let patch = diff_resolved_documents(&current, &previous).expect("duplicate root fallback");

    assert_eq!(
        patch,
        xml_document([
            remove(xml("entry", "first")),
            remove(xml("entry", "second")),
            xml("entry", "changed"),
            xml("entry", "second"),
        ])
    );
}

#[test]
fn text_and_xml_transitions_keep_text_atomic_and_xml_removals_explicit() {
    let text = text_document("plain context");
    let xml_document_value = xml_document([xml("context", "structured")]);

    assert_eq!(
        diff_resolved_documents(&xml_document_value, &text),
        Some(xml_document_value.clone()),
        "text to XML is a full-current fallback"
    );

    let patch = diff_resolved_documents(&text, &xml_document_value).expect("XML-to-text fallback");
    assert_eq!(patch, {
        let mut children = BlockChildren::new();
        children.push(BlockContent::xml(remove(xml("context", "structured"))));
        children.extend(text.children().clone());
        resolved(children)
    });
    assert_eq!(
        rendered(&patch),
        "<remove>\n  <context>structured</context>\n</remove>\n\nplain context"
    );
}

#[test]
fn standalone_text_change_is_full_current_and_text_disappearance_is_silent() {
    let previous = text_document("old note");
    let current = text_document("new note");

    assert_eq!(diff_resolved_documents(&current, &previous), Some(current));
    assert_eq!(
        diff_resolved_documents(&empty_document(), &previous),
        None,
        "text has no synthetic delete operation"
    );
}

#[test]
fn raw_text_is_an_atomic_document_value_and_never_emits_xml_removals() {
    let previous = raw_document("<policy>old</policy>");
    let current = raw_document("<context>new</context>");

    let patch = diff_resolved_documents(&current, &previous)
        .expect("changed raw text produces the complete current document");
    assert_eq!(patch, current);
    assert_eq!(rendered(&patch), "<context>new</context>");
    assert!(!rendered(&patch).contains("<remove>"));

    assert_eq!(
        diff_resolved_documents(&empty_document(), &previous),
        None,
        "raw text disappearance has no synthetic XML deletion"
    );
}

#[test]
fn an_unchanged_document_has_no_patch() {
    let document = xml_document([xml("policy", "read only"), xml("state", "idle")]);
    assert_eq!(diff_resolved_documents(&document, &document), None);
}

fn list(name: &str, items: &[&str]) -> XmlNode {
    let mut node = XmlNode::new(xml_name(name));
    for item in items {
        node.push(MixedContent::xml(xml("item", item)));
    }
    node
}

#[test]
fn an_appended_item_is_sent_alone() {
    let previous = list("log", &["one", "two"]);
    let current = list("log", &["one", "two", "three"]);
    let patch = diff_xml_values(&current, &previous, &DiffStrategy::Append)
        .expect("an item was appended");
    assert_eq!(
        rendered(&xml_document([patch])),
        "<log rendering_mode=\"delta\">\n  <insert>\n    <item>three</item>\n  </insert>\n</log>"
    );
    assert!(diff_xml_values(&current, &current, &DiffStrategy::Append).is_none());
}

#[test]
fn a_slot_knows_its_role_and_value() {
    let slot = DiffSlot::present(DiffStrategy::Append, list("log", &["one"]));
    assert_eq!(slot.role().as_str(), "log");
    assert!(slot.is_present());
    let gone = DiffSlot::absent(xml_name("log"), DiffStrategy::Append);
    assert!(!gone.is_present());
    assert!(gone.value().is_none());
}
