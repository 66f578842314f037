use agentview::component::durable_keys::DurableSessionId;
use agentview::control::ControlReply;
use agentview::json::{JsonObject, JsonValue};
use agentview::llm_call::{
    AgentTurnEvent, AgentTurnPhase, AgentTurnProgress, ExecutorCommit,
};
use agentview::pom::{
    BlockChildren, BlockContent, CodeBlockNode, CodeSpanNode, ContentContext, ContentKind,
    ContentNode, DiffSlot, DiffStrategy, Document, HeadingLevel, InlineChildren, InlineContent,
    ListItem, ListKind, ListNode, MarkdownKind, MarkdownNode, MixedContent, ParagraphNode,
    PomError, RawTextNode, StrongNode, TextNode, XmlAttributes, XmlName, XmlNode,
};
use agentview::pom_cursor::UserDocumentCursor;
use agentview::pom_renderer::{render_pom_document, PomRenderError};
use agentview::pom_resolution::{
    resolve_artifact_document, resolve_system_document, resolve_user_document, PomResolutionError,
};
use agentview::prompt_context::Role;

fn name(text: &str) -> XmlName {
    XmlName::new(text).unwrap()
}

fn inline(contents: Vec<InlineContent>) -> InlineChildren {
    let mut children = InlineChildren::new();
    for content in contents {
        children.push(content);
    }
    children
}

fn text(value: &str) -> InlineContent {
    InlineContent::try_text(value).unwrap()
}

fn paragraph(contents: Vec<InlineContent>) -> BlockContent {
    BlockContent::paragraph(ParagraphNode::new(inline(contents)))
}

fn render(blocks: Vec<BlockContent>) -> Result<String, PomRenderError> {
    let mut children = BlockChildren::new();
    for block in blocks {
        children.push(block);
    }
    render_pom_document(&resolve_system_document(Document::new(children)))
}

fn rendered(blocks: Vec<BlockContent>) -> String {
    render(blocks).unwrap()
}

#[test]
fn markdown_characters_are_escaped() {
    assert_eq!(
        rendered(vec![paragraph(vec![text("a*b_[c]`#\\ <&>")])]),
        "a\\*b\\_\\[c\\]\\`\\#\\\\ \\<\\&\\>"
    );
    assert_eq!(rendered(vec![paragraph(vec![text("- item")])]), "\\- item");
    assert_eq!(rendered(vec![paragraph(vec![text("12. item")])]), "12\\. item");
    assert_eq!(rendered(vec![paragraph(vec![text("12.5")])]), "12.5");
    assert_eq!(
        rendered(vec![paragraph(vec![text("    code")])]),
        "&#32;   code"
    );
    assert_eq!(rendered(vec![paragraph(vec![text("a - b")])]), "a - b");
}

#[test]
fn indentation_is_encoded_once() {
    for (raw, encoded) in [
        ("    code", "&#32;   code"),
        ("\tcode", "&#9;code"),
        ("  \tcode", "&#32; \tcode"),
        ("   code", "   code"),
        ("&#32;   code", "\\&\\#32;   code"),
    ] {
        assert_eq!(rendered(vec![paragraph(vec![text(raw)])]), encoded);
    }
}

#[test]
fn stored_slots_are_named_like_their_values() {
    let slot = DiffSlot::from_parts(
        name("a"),
        DiffStrategy::Replace,
        Some(XmlNode::new(name("a"))),
    )
    .unwrap();
    assert!(slot.is_present());
    assert!(!DiffSlot::from_parts(name("a"), DiffStrategy::Replace, None)
        .unwrap()
        .is_present());
    let mismatch = DiffSlot::from_parts(
        name("a"),
        DiffStrategy::Replace,
        Some(XmlNode::new(name("b"))),
    )
    .unwrap_err();
    assert_eq!((mismatch.role, mismatch.root), (name("a"), name("b")));
}

#[test]
fn raw_text_in_xml_is_escaped_character_by_character() {
    let inside = |raw: &str| -> String {
        let mut node = XmlNode::new(name("a"));
        node.push(MixedContent::raw_text(RawTextNode::new(raw)));
        let text = rendered(vec![BlockContent::xml(node)]);
        text.trim_start_matches("<a>").trim_end_matches("</a>").to_owned()
    };
    assert_eq!(inside("x&y<"), "x&amp;y&lt;");
    assert_eq!(inside("z>'\""), "z&gt;'\"");
    assert_eq!(inside("x&y<z>'\""), inside("x&y<") + &inside("z>'\""));
}

#[test]
fn blocks_are_kept_apart() {
    let heading = Document::build(|builder| {
        builder.heading(HeadingLevel::H3, |inline| inline.try_text("Title").unwrap());
        builder.thematic_break();
        builder.code_block(Some("rust".to_owned()), TextNode::new("let a = 1;"));
        builder.paragraph(|inline| {
            inline.try_text("see ").unwrap();
            inline.strong(|strong| strong.try_text(" this ").unwrap());
            inline.code_span(TextNode::new("a`b"));
        });
    });
    assert_eq!(
        render_pom_document(&resolve_system_document(heading)).unwrap(),
        "### Title\n\n---\n\n~~~ rust\nlet a = 1;\n~~~\n\nsee  **this** ``a`b``"
    );
}

#[test]
fn lists_are_numbered_and_indented() {
    let item = |value: &str| {
        let mut children = BlockChildren::new();
        children.push(paragraph(vec![text(value)]));
        children
    };
    let mut second = item("two");
    second.push(paragraph(vec![text("more")]));
    let mut broken = BlockChildren::new();
    broken.push(BlockContent::thematic_break());
    let list = ListNode::new(
        ListKind::Ordered { start: 9 },
        vec![
            ListItem::new(item("one")),
            ListItem::new(second),
            ListItem::new(BlockChildren::new()),
            ListItem::new(broken),
        ],
    );
    assert_eq!(
        rendered(vec![BlockContent::list(list)]),
        "9. one\n10. two\n\n    more\n11.\n12.\n    ---"
    );
    let unordered = ListNode::new(ListKind::Unordered, vec![ListItem::new(item("x"))]);
    assert_eq!(rendered(vec![BlockContent::list(unordered)]), "- x");
}

#[test]
fn markers_past_nine_digits_start_again() {
    let one = || {
        let mut children = BlockChildren::new();
        children.push(paragraph(vec![text("x")]));
        ListItem::new(children)
    };
    let list = ListNode::new(
        ListKind::Ordered { start: 999_999_999 },
        vec![one(), one()],
    );
    assert_eq!(
        rendered(vec![BlockContent::list(list)]),
        "999999999. x\n999999999. x"
    );
    let long = ListNode::new(
        ListKind::Ordered {
            start: 1_000_000_000,
        },
        vec![one()],
    );
    assert_eq!(
        render(vec![BlockContent::list(long)]),
        Err(PomRenderError::OrderedListMarkerTooLong {
            marker: 1_000_000_000,
            item_index: 0
        })
    );
}

#[test]
fn what_has_no_text_form_is_refused() {
    assert_eq!(
        render(vec![paragraph(Vec::new())]),
        Err(PomRenderError::InvalidEmptyParagraph)
    );
    assert_eq!(
        render(vec![BlockContent::list(ListNode::new(
            ListKind::Unordered,
            Vec::new()
        ))]),
        Err(PomRenderError::InvalidEmptyList)
    );
    assert_eq!(
        render(vec![BlockContent::code_block(CodeBlockNode::new(
            Some("two words".to_owned()),
            TextNode::new("")
        ))]),
        Err(PomRenderError::InvalidCodeBlockLanguage {
            value: "two words".to_owned()
        })
    );
    assert_eq!(
        render(vec![paragraph(vec![InlineContent::code_span(
            CodeSpanNode::new(TextNode::new("a\nb"))
        )])]),
        Err(PomRenderError::InvalidCodeSpanBody {
            value: "a\nb".to_owned()
        })
    );
    assert_eq!(
        render(vec![paragraph(vec![InlineContent::strong(
            StrongNode::new(inline(vec![text("  ")]))
        )])]),
        Err(PomRenderError::InvalidStrongContent)
    );
    let mut node = XmlNode::new(name("a"));
    node.push(MixedContent::text(TextNode::new("\u{1}")));
    assert_eq!(
        render(vec![BlockContent::xml(node)]),
        Err(PomRenderError::InvalidXmlCharacter { code_point: 1 })
    );
}

#[test]
fn xml_is_nested_and_escaped() {
    let mut inner = XmlNode::new(name("b"));
    inner
        .push_attribute(name("k"), "<\"'\t\n&>")
        .unwrap();
    inner.push(MixedContent::text(TextNode::new("x < y\n")));
    let mut outer = XmlNode::new(name("a"));
    outer.push(MixedContent::xml(inner));
    outer.push(MixedContent::xml(XmlNode::new(name("c"))));
    assert_eq!(
        rendered(vec![BlockContent::xml(outer)]),
        "<a>\n  <b k=\"&lt;&quot;&apos;&#9;&#10;&amp;&gt;\">x &lt; y&#10;</b>\n  <c />\n</a>"
    );
}

#[test]
fn different_attribute_values_are_written_differently() {
    let written = |value: &str| {
        let mut node = XmlNode::new(name("a"));
        node.push_attribute(name("k"), value).unwrap();
        rendered(vec![BlockContent::xml(node)])
    };
    assert_eq!(written("'"), "<a k=\"&apos;\" />");
    assert_eq!(written("&apos;"), "<a k=\"&amp;apos;\" />");
    assert_eq!(written("&"), "<a k=\"&amp;\" />");
    assert_eq!(written("&amp;"), "<a k=\"&amp;amp;\" />");
    assert_eq!(written("\n"), "<a k=\"&#10;\" />");
    assert_eq!(written("&#10;"), "<a k=\"&amp;#10;\" />");
}

#[test]
fn mixed_xml_keeps_its_flow() {
    let mut node = XmlNode::new(name("a"));
    node.push(MixedContent::text(TextNode::new("before ")));
    node.push(MixedContent::xml(XmlNode::new(name("b"))));
    assert_eq!(
        rendered(vec![BlockContent::xml(node)]),
        "<a>before <b /></a>"
    );
    let mut node = XmlNode::new(name("a"));
    node.push(MixedContent::text(TextNode::new("before")));
    node.push(MixedContent::markdown(MarkdownNode::ThematicBreak));
    assert_eq!(
        rendered(vec![BlockContent::xml(node)]),
        "<a>\nbefore\n\n---\n</a>"
    );
}

#[test]
fn raw_text_is_kept_as_it_is() {
    assert_eq!(
        render_pom_document(&resolve_system_document(Document::from_raw_text("# *raw*"))).unwrap(),
        "# *raw*"
    );
    assert!(RawTextNode::new("").is_empty());
}

#[test]
fn names_levels_and_contexts_are_checked() {
    assert!(XmlName::new("a-b.c_1").is_ok());
    for bad in ["", "1a", "a b", "a<"] {
        assert_eq!(
            XmlName::new(bad),
            Err(PomError::InvalidXmlName {
                value: bad.to_owned()
            })
        );
    }
    assert_eq!(HeadingLevel::try_from(6).unwrap().number(), 6);
    assert_eq!(
        HeadingLevel::try_from(7),
        Err(PomError::InvalidHeadingLevel { value: 7 })
    );
    let mut attributes = XmlAttributes::new();
    attributes.try_insert("a", "1").unwrap();
    assert_eq!(
        attributes.try_insert("a", "2"),
        Err(PomError::DuplicateXmlAttribute { name: name("a") })
    );
    assert_eq!(attributes.get(&name("a")).unwrap().value(), "1");
    assert!(matches!(
        BlockContent::try_from_node(ContentNode::Text(TextNode::new("x"))),
        Err(PomError::WrongContentContext {
            expected: ContentContext::Block,
            actual: ContentKind::Text
        })
    ));
    assert!(matches!(
        InlineContent::try_from_node(ContentNode::Markdown(MarkdownNode::ThematicBreak)),
        Err(PomError::WrongContentContext {
            expected: ContentContext::Inline,
            actual: ContentKind::Markdown(MarkdownKind::ThematicBreak)
        })
    ));
    assert!(matches!(
        InlineContent::try_text("a\nb"),
        Err(PomError::InvalidInlineNewline { value }) if value == "a\nb"
    ));
}

fn slot(role: &str, value: &str) -> BlockContent {
    let mut node = XmlNode::new(name(role));
    node.push(MixedContent::text(TextNode::new(value)));
    BlockContent::xml_slot(DiffSlot::present(DiffStrategy::Replace, node))
}

fn document(blocks: Vec<BlockContent>) -> Document {
    let mut children = BlockChildren::new();
    for block in blocks {
        children.push(block);
    }
    Document::new(children)
}

#[test]
fn slots_are_sent_when_they_change() {
    let (first, cursor) = resolve_user_document(
        document(vec![slot("state", "one")]),
        &UserDocumentCursor::new(),
    )
    .unwrap();
    assert_eq!(render_pom_document(&first).unwrap(), "<state>one</state>");
    assert!(cursor.contains(&name("state")));

    let (same, cursor) =
        resolve_user_document(document(vec![slot("state", "one")]), &cursor).unwrap();
    assert_eq!(render_pom_document(&same).unwrap(), "");

    let (changed, cursor) =
        resolve_user_document(document(vec![slot("state", "two")]), &cursor).unwrap();
    assert_eq!(
        render_pom_document(&changed).unwrap(),
        "<state rendering_mode=\"delta\">\n  <replace>\n    <state>two</state>\n  </replace>\n</state>"
    );
    assert_eq!(cursor.len(), 1);
}

#[test]
fn a_removed_baseline_sends_all_of_the_slot_again() {
    let (_, mut cursor) = resolve_user_document(
        document(vec![slot("state", "one")]),
        &UserDocumentCursor::new(),
    )
    .unwrap();
    assert!(cursor.remove(&name("state")));
    assert!(!cursor.remove(&name("state")));
    let (again, _) = resolve_user_document(document(vec![slot("state", "one")]), &cursor).unwrap();
    assert_eq!(render_pom_document(&again).unwrap(), "<state>one</state>");
}

#[test]
fn slots_have_roles_of_their_own() {
    assert_eq!(
        resolve_user_document(
            document(vec![slot("state", "one"), slot("state", "two")]),
            &UserDocumentCursor::new(),
        )
        .err(),
        Some(PomResolutionError::DuplicateUserDiffSlotRole {
            role: name("state")
        })
    );
    assert_eq!(
        resolve_artifact_document(document(vec![slot("state", "one")])).err(),
        Some(PomResolutionError::ArtifactContainsDiffSlot)
    );
}

#[test]
fn json_members_do_not_depend_on_their_order() {
    let one = JsonObject::new()
        .with_member("b", JsonValue::Bool(true))
        .with_member("a", JsonValue::Null);
    let other = JsonObject::new()
        .with_member("a", JsonValue::Text("old".to_owned()))
        .with_member("b", JsonValue::Bool(true))
        .with_member("a", JsonValue::Null);
    assert_eq!(other.len(), 2);
    assert_eq!(other.get("a"), Some(&JsonValue::Null));
    assert_eq!(JsonValue::Object(one), JsonValue::Object(other));
    assert_ne!(
        JsonValue::Number("1".to_owned()),
        JsonValue::Text("1".to_owned())
    );
}

#[test]
fn both_json_zeros_are_the_same_number() {
    let number = |text: &str| JsonValue::Number(text.to_owned());
    assert_eq!(number("-0.0"), number("0.0"));
    assert_eq!(number("0.0"), number("-0.0"));
    assert_eq!(number("-0.0"), number("-0.0"));
    assert_ne!(number("-0.0"), number("0"));
    assert_ne!(number("1.0"), number("-1.0"));
    assert!(matches!(number("-0.0").clone(), JsonValue::Number(text) if text == "-0.0"));
}

#[test]
fn replies_are_text_or_structured() {
    let reply = ControlReply::structured(JsonValue::Bool(false));
    assert_eq!(reply.as_structured(), Some(&JsonValue::Bool(false)));
    assert!(ControlReply::text("done").as_structured().is_none());
}

#[test]
fn observers_hear_of_a_turn_in_order() {
    let mut turn = AgentTurnProgress::new("call-1");
    assert!(matches!(
        turn.start("hello"),
        AgentTurnEvent::UserPromptRendered { call_id, text } if call_id == "call-1" && text == "hello"
    ));
    assert!(matches!(
        turn.dropped(),
        Some(AgentTurnEvent::Aborted { call_id }) if call_id == "call-1"
    ));
    assert!(turn.executed(None).is_none());
    turn.complete();
    assert_eq!(turn.phase(), AgentTurnPhase::Completed);
    assert!(turn.dropped().is_none());

    let mut failing = AgentTurnProgress::new("call-2");
    failing.start("hello");
    assert!(matches!(
        failing.executed(Some("down")),
        Some(AgentTurnEvent::Failed { error, .. }) if error == "down"
    ));
    assert_eq!(failing.phase(), AgentTurnPhase::Failed);
}

#[test]
fn a_text_commit_is_an_assistant_turn() {
    let commit = ExecutorCommit::text("answer");
    assert_eq!(commit.append.len(), 1);
    assert_eq!(commit.append[0].role, Role::Assistant);
    assert_eq!(commit.append[0].text, "answer");
}

#[test]
fn character_classes_are_those_of_unicode() {
    for code in 0..=0x10FFFFu32 {
        let Some(c) = char::from_u32(code) else {
            continue;
        };
        let text = c.to_string();
        assert_eq!(
            DurableSessionId::new(&text).is_err(),
            c.is_control(),
            "U+{code:04X}"
        );
        assert_eq!(
            XmlName::new(&text).is_ok(),
            c.is_ascii_alphabetic() || c == '_',
            "U+{code:04X}"
        );
        let block = CodeBlockNode::new(Some(text), TextNode::new(""));
        assert_eq!(
            render(vec![BlockContent::code_block(block)]).is_err(),
            c.is_whitespace(),
            "U+{code:04X}"
        );
    }
}
