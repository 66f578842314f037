//! What documents are made of, and how values are compared and written down.

use vstd::prelude::*;
use vstd::utf8::encode_utf8;
use crate::component::operation::{big_endian, idempotency_key, key_part};
use crate::component::operation::{lemma_big_endian, operation_message, sha256_digest};
use crate::component::operation::OperationModel;
use crate::hex::{hex_digit, hex_text};
use crate::json::{number_value, sorted_members, with_member, JsonModel, MemberModel};
use crate::json::names_before;
use crate::pom::content::{content_kind, markdown_kind, ContentKind, MarkdownKind};
use crate::pom::markdown::{heading_level, heading_number, HeadingLevel};
use crate::pom::model::{is_block_markdown, is_block_node, is_inline_node, is_xml_name};
use crate::pom::model::{push_normalized, single_line, slot_free, slot_free_edge, EdgeModel};
use crate::pom::model::{unique_attribute_names, AttributeModel, MarkdownModel, NodeModel};
use crate::pom::model::{SlotModel, XmlModel};
use crate::pom::xml::{attribute_value, child_slots, has_attribute};
use crate::pom_cursor::{cursor_within, same_baseline, BaselineModel};
use crate::pom::model::xml_equiv;
use crate::pom_diff::text_before;
use crate::pom_laws::law_text_order_transitive;
use crate::prompt_context::{with_system_once, ContextModel};
use crate::text_chars::is_whitespace;

verus! {

/// An XML name is a letter of the Latin alphabet or an underscore, and behind it such
/// letters, digits, underscores, hyphens and full stops.
pub proof fn law_xml_names(name: Seq<char>)
    ensures
        is_xml_name(name) <==> {
            &&& name.len() > 0
            &&& 65 <= name[0] as int <= 90 || 97 <= name[0] as int <= 122 || name[0] == '_'
            &&& forall|i: int|
                1 <= i < name.len() ==> {
                    let c = #[trigger] name[i];
                    65 <= c as int <= 90 || 97 <= c as int <= 122 || 48 <= c as int <= 57 || c
                        == '_' || c == '-' || c == '.'
                }
        },
{
    if name.len() > 0 && (65 <= name[0] as int <= 90 || 97 <= name[0] as int <= 122 || name[0]
        == '_') && (forall|i: int|
        1 <= i < name.len() ==> {
            let c = #[trigger] name[i];
            65 <= c as int <= 90 || 97 <= c as int <= 122 || 48 <= c as int <= 57 || c == '_' || c
                == '-' || c == '.'
        }) {
        assert forall|i: int| 0 <= i < name.len() implies crate::pom::model::is_name_part(
            #[trigger] name[i],
        ) by {}
    }
}

/// Text that is put behind text joins it, and empty text leaves no trace. Everything else
/// stands as it is, and nothing before it changes.
pub proof fn law_text_joins_text(children: Seq<EdgeModel>, before: Seq<char>, text: Seq<char>)
    ensures
        push_normalized(children, EdgeModel::Node(NodeModel::Text(Seq::empty()))) == children,
        text.len() > 0 ==> push_normalized(
            children.push(EdgeModel::Node(NodeModel::Text(before))),
            EdgeModel::Node(NodeModel::Text(text)),
        ) == children.push(EdgeModel::Node(NodeModel::Text(before + text))),
        text.len() > 0 && (children.len() == 0 || !(children.last() is Node)
            || !(children.last()->Node_0 is Text)) ==> push_normalized(
            children,
            EdgeModel::Node(NodeModel::Text(text)),
        ) == children.push(EdgeModel::Node(NodeModel::Text(text))),
{
    assert(children.push(EdgeModel::Node(NodeModel::Text(before))).drop_last() =~= children);
}

/// What is no text is put behind the children as it is.
pub proof fn law_other_content_is_appended(children: Seq<EdgeModel>, edge: EdgeModel)
    requires
        edge is Slot || !(edge->Node_0 is Text),
    ensures
        push_normalized(children, edge) == children.push(edge),
{
}

/// Strong text and code spans stand in a line, and every other Markdown is a block of its
/// own. Elements stand in either, raw text only among blocks, and text only in a line, where
/// it does not break it.
pub proof fn law_blocks_and_lines_part_content(node: NodeModel, markdown: MarkdownModel)
    ensures
        is_block_markdown(markdown) <==> !(markdown is Strong) && !(markdown is CodeSpan),
        node is Markdown ==> (is_block_node(node) <==> is_block_markdown(node->Markdown_0)),
        node is Markdown ==> (is_inline_node(node) <==> !is_block_markdown(node->Markdown_0)),
        node is Xml ==> is_block_node(node) && is_inline_node(node),
        node is RawText ==> is_block_node(node) && !is_inline_node(node),
        node is Text ==> !is_block_node(node),
        node is Text ==> (is_inline_node(node) <==> single_line(node->Text_0)),
{
}

/// A single line holds no line feed and no carriage return.
pub proof fn law_single_lines_have_no_breaks(text: Seq<char>)
    ensures
        single_line(text) <==> forall|i: int|
            0 <= i < text.len() ==> (#[trigger] text[i]) as int != 10 && text[i] as int != 13,
{
    if single_line(text) {
        assert forall|i: int| 0 <= i < text.len() implies (#[trigger] text[i]) as int != 10
            && text[i] as int != 13 by {
            assert(text.contains(text[i]));
        }
    }
}

/// The six heading levels are numbered from one to six, and a level is found by its number.
pub proof fn law_heading_levels_are_numbered(level: HeadingLevel, number: u8)
    ensures
        1 <= heading_number(level) <= 6,
        heading_level(heading_number(level) as u8) == level,
        1 <= number <= 6 ==> heading_number(heading_level(number)) == number,
        heading_number(HeadingLevel::H1) == 1,
        heading_number(HeadingLevel::H6) == 6,
{
}

/// Every node has the kind that it is.
pub proof fn law_kinds_tell_nodes_apart(node: NodeModel, markdown: MarkdownModel)
    ensures
        node is Xml <==> content_kind(node) == ContentKind::Xml,
        node is Text <==> content_kind(node) == ContentKind::Text,
        node is RawText <==> content_kind(node) == ContentKind::RawText,
        node is Markdown ==> content_kind(node) == ContentKind::Markdown(
            markdown_kind(node->Markdown_0),
        ),
        markdown is Heading <==> markdown_kind(markdown) == MarkdownKind::Heading,
        markdown is Paragraph <==> markdown_kind(markdown) == MarkdownKind::Paragraph,
        markdown is List <==> markdown_kind(markdown) == MarkdownKind::List,
        markdown is CodeBlock <==> markdown_kind(markdown) == MarkdownKind::CodeBlock,
        markdown is ThematicBreak <==> markdown_kind(markdown) == MarkdownKind::ThematicBreak,
        markdown is Strong <==> markdown_kind(markdown) == MarkdownKind::Strong,
        markdown is CodeSpan <==> markdown_kind(markdown) == MarkdownKind::CodeSpan,
{
}

/// An element has an attribute exactly where one of that name stands in it, and reads its
/// value there.
pub proof fn law_attributes_are_found_by_name(attributes: Seq<AttributeModel>, at: int)
    requires
        unique_attribute_names(attributes),
        0 <= at < attributes.len(),
    ensures
        has_attribute(attributes, attributes[at].name),
        attribute_value(attributes, attributes[at].name) == attributes[at].value,
{
    let name = attributes[at].name;
    let i = choose|i: int| 0 <= i < attributes.len() && (#[trigger] attributes[i]).name == name;
    assert(attributes[at].name == name);
    assert(i == at);
}

/// An element without an attribute of a name does not have it.
pub proof fn law_other_attributes_are_not_found(attributes: Seq<AttributeModel>, name: Seq<char>)
    ensures
        has_attribute(attributes, name) <==> exists|i: int|
            0 <= i < attributes.len() && (#[trigger] attributes[i]).name == name,
{
}

/// The slots of an element are those among its children, in order.
pub proof fn law_child_slots_keep_their_order(
    children: Seq<EdgeModel>,
    slot: SlotModel,
    node: NodeModel,
)
    ensures
        child_slots(Seq::<EdgeModel>::empty()).len() == 0,
        child_slots(children.push(EdgeModel::Slot(slot))) == child_slots(children).push(slot),
        child_slots(children.push(EdgeModel::Node(node))) == child_slots(children),
{
    assert(children.push(EdgeModel::Slot(slot)).drop_last() =~= children);
    assert(children.push(EdgeModel::Node(node)).drop_last() =~= children);
}

/// A slot is a slot, at whatever depth it stands. Text and code hold none.
pub proof fn law_slots_are_found_at_every_depth(
    slot: SlotModel,
    xml: XmlModel,
    text: Seq<char>,
    language: Option<Seq<char>>,
    children: Seq<EdgeModel>,
)
    ensures
        !slot_free_edge(EdgeModel::Slot(slot)),
        slot_free_edge(EdgeModel::Node(NodeModel::Xml(xml))) <==> slot_free(xml.children),
        slot_free_edge(EdgeModel::Node(NodeModel::Text(text))),
        slot_free_edge(EdgeModel::Node(NodeModel::RawText(text))),
        slot_free_edge(
            EdgeModel::Node(NodeModel::Markdown(MarkdownModel::CodeSpan { body: text })),
        ),
        slot_free_edge(
            EdgeModel::Node(NodeModel::Markdown(MarkdownModel::CodeBlock { language, body: text })),
        ),
        slot_free_edge(EdgeModel::Node(NodeModel::Markdown(MarkdownModel::Strong { children })))
            <==> slot_free(children),
        slot_free_edge(EdgeModel::Node(NodeModel::Markdown(MarkdownModel::Paragraph { children })))
            <==> slot_free(children),
{
}

/// Two texts are ordered by the first character in which they differ, and a text stands
/// before those that go on behind it.
pub proof fn law_text_order_is_by_characters(common: Seq<char>, a: Seq<char>, b: Seq<char>)
    ensures
        text_before(common + a, common + b) == text_before(a, b),
        !text_before(a, Seq::empty()),
        b.len() > 0 ==> text_before(Seq::empty(), b),
        a.len() > 0 && b.len() > 0 && a[0] as int != b[0] as int ==> (text_before(a, b)
            <==> (a[0] as int) < b[0] as int),
    decreases common.len(),
{
    if common.len() == 0 {
        assert(common + a =~= a);
        assert(common + b =~= b);
    } else {
        law_text_order_is_by_characters(common.drop_first(), a, b);
        assert((common + a).drop_first() =~= common.drop_first() + a);
        assert((common + b).drop_first() =~= common.drop_first() + b);
    }
}

/// Setting a member gives that name this value, and changes no other.
pub proof fn law_members_are_set_by_name(
    members: Seq<MemberModel>,
    name: Seq<char>,
    value: JsonModel,
    other: MemberModel,
)
    requires
        sorted_members(members),
    ensures
        with_member(members, name, value).contains(MemberModel { name, value }),
        other.name != name ==> (with_member(members, name, value).contains(other)
            <==> members.contains(other)),
        other.name == name && with_member(members, name, value).contains(other) ==> other.value
            == value,
{
    let at = names_before(members, name) as int;
    let member = MemberModel { name, value };
    let after = with_member(members, name, value);
    lemma_names_before(members, name);
    assert(after[at] == member);
    if other.name != name {
        if members.contains(other) {
            let i = choose|i: int| 0 <= i < members.len() && members[i] == other;
            if at < members.len() && members[at].name == name {
                assert(after[i] == other);
            } else if i < at {
                assert(after[i] == other);
            } else {
                assert(after[i + 1] == other);
            }
        }
        if after.contains(other) {
            let i = choose|i: int| 0 <= i < after.len() && after[i] == other;
            if at < members.len() && members[at].name == name {
                assert(members[i] == other);
            } else if i < at {
                assert(members[i] == other);
            } else {
                assert(members[i - 1] == other);
            }
        }
    } else if after.contains(other) {
        let i = choose|i: int| 0 <= i < after.len() && after[i] == other;
        if at < members.len() && members[at].name == name {
            if i != at {
                assert(members[i] == other);
                lemma_before_is_strict(name);
                if i < at {
                    assert(text_before(members[i].name, members[at].name));
                } else {
                    assert(text_before(members[at].name, members[i].name));
                }
            }
        } else if i != at {
            let j = if i < at { i } else { i - 1 };
            assert(members[j] == other);
            lemma_before_is_strict(name);
        }
    }
}

proof fn lemma_before_is_strict(text: Seq<char>)
    ensures
        !text_before(text, text),
    decreases text.len(),
{
    if text.len() > 0 {
        lemma_before_is_strict(text.drop_first());
    }
}

proof fn lemma_names_before(members: Seq<MemberModel>, name: Seq<char>)
    requires
        sorted_members(members),
    ensures
        names_before(members, name) <= members.len(),
        forall|i: int|
            0 <= i < names_before(members, name) ==> text_before(
                (#[trigger] members[i]).name,
                name,
            ),
        forall|i: int|
            names_before(members, name) <= i < members.len() ==> !text_before(
                (#[trigger] members[i]).name,
                name,
            ),
        forall|i: int|
            names_before(members, name) < i < members.len() ==> (#[trigger] members[i]).name
                != name,
    decreases members.len(),
{
    if members.len() == 0 {
    } else if !text_before(members[0].name, name) {
        assert forall|i: int| 0 <= i < members.len() implies !text_before(
            (#[trigger] members[i]).name,
            name,
        ) && (i > 0 ==> members[i].name != name) by {
            if i > 0 {
                assert(text_before(members[0].name, members[i].name));
                if text_before(members[i].name, name) {
                    law_text_order_transitive(members[0].name, members[i].name, name);
                }
            }
        }
    } else {
        let rest = members.drop_first();
        assert forall|i: int, j: int| 0 <= i < j < rest.len() implies text_before(
            (#[trigger] rest[i]).name,
            (#[trigger] rest[j]).name,
        ) by {
            assert(text_before(members[i + 1].name, members[j + 1].name));
        }
        lemma_names_before(rest, name);
        assert(forall|i: int| 0 < i < members.len() ==> #[trigger] members[i] == rest[i - 1]);
    }
}

/// A number is worth its text, but for the negative zero, which is worth zero.
pub proof fn law_zeros_are_the_same_number(text: Seq<char>)
    ensures
        text != "-0.0"@ ==> number_value(text) == text,
        number_value("-0.0"@) == "0.0"@,
        number_value("0.0"@) == "0.0"@,
{
    reveal_strlit("-0.0");
    reveal_strlit("0.0");
    assert("-0.0"@.len() == 4);
    assert("0.0"@.len() == 3);
}

/// Each byte is written as two digits, the higher one first. The digits are `0` to `9` and
/// `a` to `f`.
pub proof fn law_bytes_are_two_digits(bytes: Seq<u8>, at: int, value: nat)
    ensures
        value < 10 ==> hex_digit(value) as int == 48 + value,
        10 <= value < 16 ==> hex_digit(value) as int == 97 + value - 10,
        hex_text(bytes).len() == 2 * bytes.len(),
        0 <= at < bytes.len() ==> hex_text(bytes)[2 * at] == hex_digit((bytes[at] / 16) as nat),
        0 <= at < bytes.len() ==> hex_text(bytes)[2 * at + 1] == hex_digit(
            (bytes[at] % 16) as nat,
        ),
{
}

/// A number is written as eight bytes, the highest first.
pub proof fn law_numbers_are_written_highest_first(value: u64)
    ensures
        ({
            let bytes = big_endian(value);
            &&& bytes.len() == 8
            &&& value == ((((((bytes[0] * 256 + bytes[1]) * 256 + bytes[2]) * 256 + bytes[3]) * 256
                + bytes[4]) * 256 + bytes[5]) * 256 + bytes[6]) * 256 + bytes[7]
        }),
{
    lemma_big_endian(value);
}

/// What an operation is known by is a hash over everything that it is called, each text
/// behind its length, in this order.
pub proof fn law_operations_are_hashed_whole(operation: OperationModel, text: Seq<char>)
    ensures
        key_part(text) == big_endian(encode_utf8(text).len() as u64) + encode_utf8(text),
        operation_message(operation) == encode_utf8("agentview.provider-operation.v1"@) + seq![
            0u8,
        ] + key_part(operation.session_id) + key_part(operation.durable_epoch_id) + key_part(
            operation.call_id,
        ) + key_part(operation.input_id) + big_endian(operation.turn_index) + key_part(
            operation.request_id,
        ),
        idempotency_key(operation) == "agentview.provider-operation.v1:"@ + hex_text(
            sha256_digest(operation_message(operation)),
        ),
{
    let prefix = encode_utf8("agentview.provider-operation.v1"@);
    assert(prefix.push(0) =~= prefix + seq![0u8]);
}

/// A cursor remembers a baseline exactly where it has one for that role, of the same strategy
/// and of an equal value.
pub proof fn law_baselines_are_compared_whole(
    cursor: Map<Seq<char>, BaselineModel>,
    other: Map<Seq<char>, BaselineModel>,
    role: Seq<char>,
    baseline: BaselineModel,
)
    ensures
        same_baseline(cursor, role, baseline) <==> cursor.contains_key(role)
            && cursor[role].strategy == baseline.strategy && xml_equiv(
            baseline.value,
            cursor[role].value,
        ),
        cursor_within(cursor, other) && cursor.contains_key(role) ==> same_baseline(
            other,
            role,
            cursor[role],
        ),
        cursor.contains_key(role) && !other.contains_key(role) ==> !cursor_within(cursor, other),
{
}

/// A system prompt is set where there is none, and nothing else changes.
pub proof fn law_system_prompts_are_set_once<I, CS>(
    context: ContextModel<I, CS>,
    system: Seq<char>,
)
    ensures
        context.system is None ==> with_system_once(context, system).system == Some(system),
        context.system is Some ==> with_system_once(context, system).system == context.system,
        with_system_once(context, system).history == context.history,
        with_system_once(context, system).working_set == context.working_set,
        with_system_once(context, system).context_state == context.context_state,
{
}

/// White space is what Unicode calls so.
pub proof fn law_white_space(c: char)
    ensures
        is_whitespace(c) <==> {
            let code = c as int;
            9 <= code <= 13 || code == 32 || code == 133 || code == 160 || code == 5760 || 8192
                <= code <= 8202 || code == 8232 || code == 8233 || code == 8239 || code == 8287
                || code == 12288
        },
{
}

} // verus!
