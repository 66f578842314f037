//! Canonical text rendering for resolved prompt documents.
//!
//! Resolution is deliberately a separate step. This module accepts only
//! [`ResolvedDocument`], so it never interprets diff metadata or session state.

use vstd::prelude::*;
use crate::pom::children::{BlockChildren, InlineChildren, MixedChildren};
use crate::pom::content::{ContentNode, ContentRef};
use crate::pom::document::ResolvedDocument;
use crate::pom::markdown::{
    heading_number, item_models, CodeBlockNode, CodeSpanNode, ListKind, ListNode, MarkdownNode,
};
use crate::pom::model::{
    is_block_markdown, AttributeModel, EdgeModel, MarkdownModel, NodeModel, XmlModel,
};
use crate::pom::xml::{XmlAttribute, XmlNode};
use crate::text_chars::{
    chars_of, decimal, is_whitespace, push_decimal, push_text, repeat_char, repeated, text_of_chars,
    whitespace,
};

verus! {

/// Failures while rendering an otherwise structurally valid document.
#[derive(Debug, Clone, PartialEq, Eq)]
#[allow(inconsistent_fields)]
pub enum PomRenderError {
    /// A code block's language must be a non-empty token without whitespace.
    InvalidCodeBlockLanguage { value: String },
    /// Strong content must hold a character that is not whitespace.
    InvalidStrongContent,
    /// An empty paragraph has no canonical representation.
    InvalidEmptyParagraph,
    /// A list without items has no canonical representation.
    InvalidEmptyList,
    /// A code span's body must be non-empty and stand on one line.
    InvalidCodeSpanBody { value: String },
    /// A character that XML content cannot hold.
    InvalidXmlCharacter { code_point: u32 },
    /// An ordered list marker of more than nine digits.
    OrderedListMarkerTooLong { marker: u64, item_index: usize },
}

/// Model of a rendering failure.
pub enum RenderFault {
    CodeBlockLanguage(Seq<char>),
    StrongContent,
    EmptyParagraph,
    EmptyList,
    CodeSpanBody(Seq<char>),
    XmlCharacter(u32),
    OrderedListMarker(u64, usize),
}

impl View for PomRenderError {
    type V = RenderFault;

    open spec fn view(&self) -> RenderFault {
        match self {
            PomRenderError::InvalidCodeBlockLanguage { value } => RenderFault::CodeBlockLanguage(
                value@,
            ),
            PomRenderError::InvalidStrongContent => RenderFault::StrongContent,
            PomRenderError::InvalidEmptyParagraph => RenderFault::EmptyParagraph,
            PomRenderError::InvalidEmptyList => RenderFault::EmptyList,
            PomRenderError::InvalidCodeSpanBody { value } => RenderFault::CodeSpanBody(value@),
            PomRenderError::InvalidXmlCharacter { code_point } => RenderFault::XmlCharacter(
                *code_point,
            ),
            PomRenderError::OrderedListMarkerTooLong { marker, item_index } =>
                RenderFault::OrderedListMarker(*marker, *item_index),
        }
    }
}

/// A rendered text, or the first failure in document order.
pub type Rendered = Result<Seq<char>, RenderFault>;

/// Whether XML content can hold a character.
pub open spec fn is_xml_character(c: char) -> bool {
    ||| c as u32 == 0x9
    ||| c as u32 == 0xA
    ||| c as u32 == 0xD
    ||| 0x20 <= c as u32 <= 0xD7FF
    ||| 0xE000 <= c as u32 <= 0xFFFD
    ||| 0x10000 <= c as u32 <= 0x10FFFF
}

/// How a character is written in XML text.
pub open spec fn xml_text_char(c: char) -> Seq<char> {
    if c == '&' {
        "&amp;"@
    } else if c == '<' {
        "&lt;"@
    } else if c == '>' {
        "&gt;"@
    } else if c == '\r' {
        "&#13;"@
    } else {
        seq![c]
    }
}

/// How a character is written in an XML attribute.
pub open spec fn xml_attribute_char(c: char) -> Seq<char> {
    if c == '"' {
        "&quot;"@
    } else if c == '\'' {
        "&apos;"@
    } else if c == '\t' {
        "&#9;"@
    } else if c == '\n' {
        "&#10;"@
    } else {
        xml_text_char(c)
    }
}

/// XML text: each character as XML writes it, or the first that XML cannot hold.
pub open spec fn xml_text(raw: Seq<char>) -> Rendered
    decreases raw.len(),
{
    if raw.len() == 0 {
        Ok(Seq::empty())
    } else {
        match xml_text(raw.drop_last()) {
            Ok(before) => if is_xml_character(raw.last()) {
                Ok(before + xml_text_char(raw.last()))
            } else {
                Err(RenderFault::XmlCharacter(raw.last() as u32))
            },
            Err(fault) => Err(fault),
        }
    }
}

/// The value of an XML attribute, escaped like [`xml_text`].
pub open spec fn xml_attribute(raw: Seq<char>) -> Rendered
    decreases raw.len(),
{
    if raw.len() == 0 {
        Ok(Seq::empty())
    } else {
        match xml_attribute(raw.drop_last()) {
            Ok(before) => if is_xml_character(raw.last()) {
                Ok(before + xml_attribute_char(raw.last()))
            } else {
                Err(RenderFault::XmlCharacter(raw.last() as u32))
            },
            Err(fault) => Err(fault),
        }
    }
}

/// How many spaces a text starts with.
pub open spec fn space_count(raw: Seq<char>) -> nat
    decreases raw.len(),
{
    if raw.len() == 0 || raw[0] != ' ' {
        0
    } else {
        1 + space_count(raw.drop_first())
    }
}

/// Whether a text starts with four columns of indentation or more: four spaces,
/// or a tab after fewer.
pub open spec fn is_indented(raw: Seq<char>) -> bool {
    let spaces = space_count(raw);
    spaces >= 4 || (spaces < raw.len() && raw[spaces as int] == '\t')
}

/// How many digits a text starts with.
pub open spec fn leading_digits(raw: Seq<char>) -> nat
    decreases raw.len(),
{
    if raw.len() == 0 || !('0' <= raw[0] && raw[0] <= '9') {
        0
    } else {
        1 + leading_digits(raw.drop_first())
    }
}

/// Whether a character is ASCII whitespace.
pub open spec fn is_ascii_whitespace(c: char) -> bool {
    c == ' ' || c == '\t' || c == '\n' || c as u32 == 0xC || c == '\r'
}

/// Where the delimiter of an ordered list marker stands, if a text starts with
/// one: at most three spaces, digits, then `.` or `)` before whitespace or the
/// end.
pub open spec fn ordered_delimiter(raw: Seq<char>) -> Option<int> {
    let spaces = space_count(raw);
    let digits = leading_digits(raw.skip(spaces as int));
    let at = (spaces + digits) as int;
    if spaces <= 3 && digits > 0 && at < raw.len() && (raw[at] == '.' || raw[at] == ')') && (at + 1
        == raw.len() || is_ascii_whitespace(raw[at + 1])) {
        Some(at)
    } else {
        None
    }
}

/// Where a block marker stands, if a text starts with one.
pub open spec fn block_marker_at(raw: Seq<char>) -> Option<int> {
    let spaces = space_count(raw) as int;
    if spaces <= 3 && spaces < raw.len() && (raw[spaces] == '>' || raw[spaces] == '-'
        || raw[spaces] == '+' || raw[spaces] == '~') {
        Some(spaces)
    } else {
        None
    }
}

/// Whether Markdown would read a character as markup anywhere in a line.
pub open spec fn is_markdown_control(c: char, in_xml: bool) -> bool {
    ||| c == '\\'
    ||| c == '`'
    ||| c == '*'
    ||| c == '_'
    ||| c == '['
    ||| c == ']'
    ||| c == '#'
    ||| !in_xml && (c == '<' || c == '>' || c == '&')
}

/// How the character at a position is written in Markdown text.
pub open spec fn markdown_char(raw: Seq<char>, in_xml: bool, starts_block: bool, at: int) -> Seq<
    char,
> {
    let c = raw[at];
    if starts_block && is_indented(raw) && at == 0 {
        if c == ' ' {
            "&#32;"@
        } else {
            "&#9;"@
        }
    } else if in_xml && (c == '&' || c == '<' || c == '>' || c == '\r') {
        xml_text_char(c)
    } else if in_xml && c == '\n' {
        "&#10;"@
    } else if is_markdown_control(c, in_xml) || (starts_block && (block_marker_at(raw) == Some(at)
        || ordered_delimiter(raw) == Some(at))) {
        seq!['\\', c]
    } else {
        seq![c]
    }
}

/// The first `n` characters of Markdown text. Inside XML, a character that XML
/// cannot hold fails.
pub open spec fn markdown_prefix(raw: Seq<char>, in_xml: bool, starts_block: bool, n: int) -> Rendered
    decreases n,
{
    if n <= 0 {
        Ok(Seq::empty())
    } else {
        match markdown_prefix(raw, in_xml, starts_block, n - 1) {
            Ok(before) => if in_xml && !is_xml_character(raw[n - 1]) {
                Err(RenderFault::XmlCharacter(raw[n - 1] as u32))
            } else {
                Ok(before + markdown_char(raw, in_xml, starts_block, n - 1))
            },
            Err(fault) => Err(fault),
        }
    }
}

/// Text written so that Markdown reads it back as text.
pub open spec fn markdown_text(raw: Seq<char>, in_xml: bool, starts_block: bool) -> Rendered {
    markdown_prefix(raw, in_xml, starts_block, raw.len() as int)
}

/// Rendered text with its indentation written as a character reference.
pub open spec fn indentation_encoded(rendered: Seq<char>) -> Seq<char> {
    if is_indented(rendered) {
        if rendered[0] == ' ' {
            "&#32;"@ + rendered.skip(1)
        } else {
            "&#9;"@ + rendered.skip(1)
        }
    } else {
        rendered
    }
}

/// Whether a line starts at a position.
pub open spec fn starts_line(value: Seq<char>, at: int, first: bool) -> bool {
    if at == 0 {
        first
    } else {
        value[at - 1] == '\n'
    }
}

/// Text with every line that holds something indented; the first one only where
/// asked.
pub open spec fn indented_lines(value: Seq<char>, indent: Seq<char>, first: bool) -> Seq<char>
    decreases value.len(),
{
    if value.len() == 0 {
        Seq::empty()
    } else {
        let before = indented_lines(value.drop_last(), indent, first);
        if starts_line(value, value.len() - 1, first) && value.last() != '\n' {
            before + indent + seq![value.last()]
        } else {
            before + seq![value.last()]
        }
    }
}

/// How often a character stands at the end of a text.
pub open spec fn trailing_run(value: Seq<char>, c: char) -> nat
    decreases value.len(),
{
    if value.len() == 0 || value.last() != c {
        0
    } else {
        1 + trailing_run(value.drop_last(), c)
    }
}

/// The longest run of a character.
pub open spec fn max_run(value: Seq<char>, c: char) -> nat
    decreases value.len(),
{
    if value.len() == 0 {
        0
    } else {
        let before = max_run(value.drop_last(), c);
        if trailing_run(value, c) > before {
            trailing_run(value, c)
        } else {
            before
        }
    }
}

/// How many characters of whitespace a text starts with.
pub open spec fn leading_whitespace(value: Seq<char>) -> nat
    decreases value.len(),
{
    if value.len() == 0 || !is_whitespace(value[0]) {
        0
    } else {
        1 + leading_whitespace(value.drop_first())
    }
}

/// How many characters of whitespace a text ends with.
pub open spec fn trailing_whitespace(value: Seq<char>) -> nat
    decreases value.len(),
{
    if value.len() == 0 || !is_whitespace(value.last()) {
        0
    } else {
        1 + trailing_whitespace(value.drop_last())
    }
}

/// Strong emphasis around what is left between leading and trailing whitespace.
pub open spec fn strong_text(body: Seq<char>) -> Rendered {
    let start = leading_whitespace(body) as int;
    let end = body.len() - trailing_whitespace(body);
    if start == body.len() {
        Err(RenderFault::StrongContent)
    } else {
        Ok(body.take(start) + "**"@ + body.subrange(start, end) + "**"@ + body.skip(end))
    }
}

/// Text, escaped where it stands inside XML.
pub open spec fn verbatim(raw: Seq<char>, in_xml: bool) -> Rendered {
    if in_xml {
        xml_text(raw)
    } else {
        Ok(raw)
    }
}

/// Whether a code span's body must be kept off its delimiters.
pub open spec fn needs_padding(raw: Seq<char>) -> bool {
    ||| raw[0] == '`'
    ||| raw.last() == '`'
    ||| raw[0] == ' ' && raw.last() == ' ' && exists|i: int|
        0 <= i < raw.len() && #[trigger] raw[i] != ' '
}

/// A code span, between more backticks than its body has in a row.
pub open spec fn code_span_text(raw: Seq<char>, in_xml: bool) -> Rendered {
    if raw.len() == 0 || raw.contains('\r') || raw.contains('\n') {
        Err(RenderFault::CodeSpanBody(raw))
    } else {
        let delimiter = repeated('`', max_run(raw, '`') + 1);
        match verbatim(raw, in_xml) {
            Ok(body) => if needs_padding(raw) {
                Ok(delimiter + seq![' '] + body + seq![' '] + delimiter)
            } else {
                Ok(delimiter + body + delimiter)
            },
            Err(fault) => Err(fault),
        }
    }
}

/// The fence of a code block: more tildes than its body has in a row, at least
/// three.
pub open spec fn code_fence(body: Seq<char>) -> Seq<char> {
    let run = max_run(body, '~') + 1;
    repeated(
        '~',
        if run < 3 {
            3
        } else {
            run
        },
    )
}

/// Whether a code block can name a language.
pub open spec fn is_language(language: Seq<char>) -> bool {
    language.len() > 0 && forall|i: int|
        0 <= i < language.len() ==> !is_whitespace(#[trigger] language[i])
}

/// Whether a text ends with a line break.
pub open spec fn ends_line(value: Seq<char>) -> bool {
    value.len() > 0 && value.last() == '\n'
}

/// A fenced code block.
pub open spec fn code_block_text(language: Option<Seq<char>>, body: Seq<char>, in_xml: bool) -> Rendered {
    let fence = code_fence(body);
    if language is Some && !is_language(language->0) {
        Err(RenderFault::CodeBlockLanguage(language->0))
    } else {
        let label: Rendered = match language {
            Some(language) => match verbatim(language, in_xml) {
                Ok(language) => Ok(seq![' '] + language),
                Err(fault) => Err(fault),
            },
            None => Ok(Seq::empty()),
        };
        match (label, verbatim(body, in_xml)) {
            (Ok(label), Ok(body)) => Ok(
                fence + label + seq!['\n'] + body + (if body.len() > 0 && !ends_line(body) {
                    seq!['\n']
                } else {
                    Seq::empty()
                }) + fence,
            ),
            (Err(fault), _) => Err(fault),
            (_, Err(fault)) => Err(fault),
        }
    }
}

/// Texts with a separator between them.
pub open spec fn joined(parts: Seq<Seq<char>>, separator: Seq<char>) -> Seq<char>
    decreases parts.len(),
{
    if parts.len() == 0 {
        Seq::empty()
    } else if parts.len() == 1 {
        parts[0]
    } else {
        joined(parts.drop_last(), separator) + separator + parts.last()
    }
}

/// The number of an item of an ordered list: counted from the start, unless it
/// would have more than nine digits.
pub open spec fn item_number(start: u64, index: int) -> nat {
    if start + index < 1_000_000_000 {
        (start + index) as nat
    } else {
        start as nat
    }
}

/// The marker of a list item.
pub open spec fn item_marker(kind: ListKind, index: int) -> Seq<char> {
    match kind {
        ListKind::Unordered => seq!['-'],
        ListKind::Ordered { start } => decimal(item_number(start, index)).push('.'),
    }
}

/// One rendered block of a list item.
pub struct ItemBlock {
    /// Whether the block must not share the marker's line.
    pub separate: bool,
    pub text: Seq<char>,
}

/// A list item: its marker, then its blocks, indented under the marker.
pub open spec fn item_text(marker: Seq<char>, blocks: Seq<ItemBlock>) -> Seq<char>
    decreases blocks.len(),
{
    let indent = repeated(' ', marker.len() + 1);
    if blocks.len() == 0 {
        marker
    } else if blocks.len() == 1 {
        if blocks[0].separate {
            marker + seq!['\n'] + indented_lines(blocks[0].text, indent, true)
        } else {
            marker + seq![' '] + indented_lines(blocks[0].text, indent, false)
        }
    } else {
        item_text(marker, blocks.drop_last()) + "\n\n"@ + indented_lines(
            blocks.last().text,
            indent,
            true,
        )
    }
}

/// An XML node's attributes, each behind a space.
pub open spec fn attributes_text(attributes: Seq<AttributeModel>) -> Rendered
    decreases attributes.len(),
{
    if attributes.len() == 0 {
        Ok(Seq::empty())
    } else {
        match (
            attributes_text(attributes.drop_last()),
            xml_attribute(attributes.last().value),
        ) {
            (Ok(before), Ok(value)) => Ok(
                before + seq![' '] + attributes.last().name + "=\""@ + value + seq!['"'],
            ),
            (Err(fault), _) => Err(fault),
            (_, Err(fault)) => Err(fault),
        }
    }
}

/// Whether an XML node holds nothing but XML nodes.
pub open spec fn element_only(children: Seq<EdgeModel>) -> bool {
    forall|i: int|
        0 <= i < children.len() ==> (#[trigger] children[i]) is Node && children[i]->Node_0 is Xml
}

/// Whether block Markdown stands anywhere below.
pub open spec fn holds_block_markdown(children: Seq<EdgeModel>) -> bool
    decreases children,
{
    exists|i: int| 0 <= i < children.len() && edge_holds_block_markdown(#[trigger] children[i])
}

pub open spec fn edge_holds_block_markdown(edge: EdgeModel) -> bool
    decreases edge,
{
    match edge {
        EdgeModel::Slot(_) => true,
        EdgeModel::Node(NodeModel::Xml(node)) => holds_block_markdown(node.children),
        EdgeModel::Node(NodeModel::Markdown(MarkdownModel::Strong { children })) =>
            holds_block_markdown(children),
        EdgeModel::Node(NodeModel::Markdown(node)) => is_block_markdown(node),
        EdgeModel::Node(_) => false,
    }
}

/// Inline content so far.
pub struct Flow {
    pub text: Seq<char>,
    /// Whether what follows starts a block.
    pub at_start: bool,
}

/// Mixed content so far: finished blocks, and the flow that is still open.
pub struct MixedFlow {
    pub units: Seq<Seq<char>>,
    pub flow: Seq<char>,
    pub has_block: bool,
}

/// The finished blocks with the open flow behind them.
pub open spec fn closed_units(state: MixedFlow) -> Seq<Seq<char>> {
    if state.flow.len() > 0 {
        state.units.push(indentation_encoded(state.flow))
    } else {
        state.units
    }
}

/// The content of an XML node between its tags.
pub open spec fn mixed_body(state: MixedFlow) -> Seq<char> {
    let units = closed_units(state);
    let text = joined(units, "\n\n"@);
    if state.has_block || units.len() > 1 || text.contains('\n') {
        seq!['\n'] + text + seq!['\n']
    } else {
        text
    }
}

/// Blocks, with an empty line between them.
pub open spec fn blocks_text(children: Seq<EdgeModel>, in_xml: bool) -> Result<
    Seq<Seq<char>>,
    RenderFault,
>
    decreases children, 0int,
{
    if children.len() == 0 {
        Ok(Seq::empty())
    } else {
        match blocks_text(children.drop_last(), in_xml) {
            Ok(before) => match block_text(children.last(), in_xml) {
                Ok(text) => Ok(before.push(text)),
                Err(fault) => Err(fault),
            },
            Err(fault) => Err(fault),
        }
    }
}

/// One block.
pub open spec fn block_text(edge: EdgeModel, in_xml: bool) -> Rendered
    decreases edge, 0int,
{
    match edge {
        EdgeModel::Node(NodeModel::Markdown(node)) => markdown_node_text(node, in_xml),
        EdgeModel::Node(NodeModel::Xml(node)) => xml_node_text(node, !in_xml),
        EdgeModel::Node(NodeModel::RawText(text)) => verbatim(text, in_xml),
        _ => Ok(Seq::empty()),
    }
}

/// Inline content.
pub open spec fn inline_text(children: Seq<EdgeModel>, in_xml: bool, starts_block: bool) -> Result<
    Flow,
    RenderFault,
>
    decreases children, 0int,
{
    if children.len() == 0 {
        Ok(Flow { text: Seq::empty(), at_start: starts_block })
    } else {
        match inline_text(children.drop_last(), in_xml, starts_block) {
            Ok(flow) => match inline_piece(children.last(), in_xml, flow.at_start) {
                Ok(piece) => Ok(Flow { text: flow.text + piece, at_start: ends_line(piece) }),
                Err(fault) => Err(fault),
            },
            Err(fault) => Err(fault),
        }
    }
}

/// One piece of inline content.
pub open spec fn inline_piece(edge: EdgeModel, in_xml: bool, at_start: bool) -> Rendered
    decreases edge, 0int,
{
    match edge {
        EdgeModel::Node(NodeModel::Text(text)) => markdown_text(text, in_xml, at_start),
        EdgeModel::Node(NodeModel::Markdown(node)) => markdown_node_text(node, in_xml),
        EdgeModel::Node(NodeModel::Xml(node)) => xml_node_text(node, false),
        _ => Ok(Seq::empty()),
    }
}

/// The blocks of a list item that are not empty.
pub open spec fn item_blocks(children: Seq<EdgeModel>, in_xml: bool) -> Result<
    Seq<ItemBlock>,
    RenderFault,
>
    decreases children, 0int,
{
    if children.len() == 0 {
        Ok(Seq::empty())
    } else {
        match item_blocks(children.drop_last(), in_xml) {
            Ok(before) => match block_text(children.last(), in_xml) {
                Ok(text) => if text.len() == 0 {
                    Ok(before)
                } else {
                    Ok(
                        before.push(
                            ItemBlock {
                                separate: children.last() == EdgeModel::Node(
                                    NodeModel::Markdown(MarkdownModel::ThematicBreak),
                                ),
                                text,
                            },
                        ),
                    )
                },
                Err(fault) => Err(fault),
            },
            Err(fault) => Err(fault),
        }
    }
}

/// The items of a list.
pub open spec fn items_text(items: Seq<Seq<EdgeModel>>, kind: ListKind, in_xml: bool) -> Result<
    Seq<Seq<char>>,
    RenderFault,
>
    decreases items, 0int,
{
    if items.len() == 0 {
        Ok(Seq::empty())
    } else {
        match items_text(items.drop_last(), kind, in_xml) {
            Ok(before) => match item_blocks(items.last(), in_xml) {
                Ok(blocks) => Ok(
                    before.push(item_text(item_marker(kind, items.len() - 1), blocks)),
                ),
                Err(fault) => Err(fault),
            },
            Err(fault) => Err(fault),
        }
    }
}

/// A list, one item per line.
pub open spec fn list_text(items: Seq<Seq<EdgeModel>>, kind: ListKind, in_xml: bool) -> Rendered
    decreases items, 1int,
{
    if items.len() == 0 {
        Err(RenderFault::EmptyList)
    } else if kind is Ordered && kind->start >= 1_000_000_000 {
        Err(RenderFault::OrderedListMarker(kind->start, 0))
    } else {
        match items_text(items, kind, in_xml) {
            Ok(items) => Ok(joined(items, seq!['\n'])),
            Err(fault) => Err(fault),
        }
    }
}

/// One Markdown node.
pub open spec fn markdown_node_text(node: MarkdownModel, in_xml: bool) -> Rendered
    decreases node, 0int,
{
    match node {
        MarkdownModel::Heading { level, children } => match inline_text(children, in_xml, false) {
            Ok(flow) => Ok(repeated('#', heading_number(level) as nat) + seq![' '] + flow.text),
            Err(fault) => Err(fault),
        },
        MarkdownModel::Paragraph { children } => if children.len() == 0 {
            Err(RenderFault::EmptyParagraph)
        } else {
            match inline_text(children, in_xml, true) {
                Ok(flow) => Ok(indentation_encoded(flow.text)),
                Err(fault) => Err(fault),
            }
        },
        MarkdownModel::List { kind, items } => list_text(items, kind, in_xml),
        MarkdownModel::CodeBlock { language, body } => code_block_text(language, body, in_xml),
        MarkdownModel::ThematicBreak => Ok("---"@),
        MarkdownModel::Strong { children } => match inline_text(children, in_xml, false) {
            Ok(flow) => strong_text(flow.text),
            Err(fault) => Err(fault),
        },
        MarkdownModel::CodeSpan { body } => code_span_text(body, in_xml),
    }
}

/// The child elements of an element-only node, each on its own lines.
pub open spec fn elements_text(children: Seq<EdgeModel>) -> Result<Seq<Seq<char>>, RenderFault>
    decreases children, 0int,
{
    if children.len() == 0 {
        Ok(Seq::empty())
    } else {
        match elements_text(children.drop_last()) {
            Ok(before) => match element_text(children.last()) {
                Ok(text) => Ok(before.push(indented_lines(text, "  "@, true))),
                Err(fault) => Err(fault),
            },
            Err(fault) => Err(fault),
        }
    }
}

/// One child element of an element-only node.
pub open spec fn element_text(edge: EdgeModel) -> Rendered
    decreases edge, 0int,
{
    match edge {
        EdgeModel::Node(NodeModel::Xml(node)) => xml_node_text(node, true),
        _ => Ok(Seq::empty()),
    }
}

/// The content of an XML node.
pub open spec fn mixed_text(children: Seq<EdgeModel>) -> Result<MixedFlow, RenderFault>
    decreases children, 0int,
{
    if children.len() == 0 {
        Ok(MixedFlow { units: Seq::empty(), flow: Seq::empty(), has_block: false })
    } else {
        match mixed_text(children.drop_last()) {
            Ok(state) => match mixed_piece(children.last(), state.flow.len() == 0) {
                Ok(piece) => if is_block_edge(children.last()) {
                    Ok(
                        MixedFlow {
                            units: closed_units(state).push(piece),
                            flow: Seq::empty(),
                            has_block: true,
                        },
                    )
                } else {
                    Ok(MixedFlow { flow: state.flow + piece, ..state })
                },
                Err(fault) => Err(fault),
            },
            Err(fault) => Err(fault),
        }
    }
}

/// Whether a child is Markdown that stands as a block.
pub open spec fn is_block_edge(edge: EdgeModel) -> bool {
    edge is Node && edge->Node_0 is Markdown && is_block_markdown(edge->Node_0->Markdown_0)
}

/// One piece of the content of an XML node.
pub open spec fn mixed_piece(edge: EdgeModel, at_start: bool) -> Rendered
    decreases edge, 0int,
{
    match edge {
        EdgeModel::Node(NodeModel::Text(text)) => markdown_text(text, true, at_start),
        EdgeModel::Node(NodeModel::RawText(text)) => xml_text(text),
        EdgeModel::Node(NodeModel::Markdown(node)) => markdown_node_text(node, true),
        EdgeModel::Node(NodeModel::Xml(node)) => xml_node_text(node, false),
        EdgeModel::Slot(_) => Ok(Seq::empty()),
    }
}

/// One XML node. As a block of its own, child elements stand on their own lines.
pub open spec fn xml_node_text(node: XmlModel, as_block: bool) -> Rendered
    decreases node, 0int,
{
    match attributes_text(node.attributes) {
        Err(fault) => Err(fault),
        Ok(attributes) => {
            let opening = seq!['<'] + node.name + attributes;
            let closing = "</"@ + node.name + seq!['>'];
            if node.children.len() == 0 {
                Ok(opening + " />"@)
            } else if as_block && element_only(node.children) && !holds_block_markdown(
                node.children,
            ) {
                match elements_text(node.children) {
                    Ok(elements) => Ok(
                        opening + ">\n"@ + joined(elements, seq!['\n']) + seq!['\n'] + closing,
                    ),
                    Err(fault) => Err(fault),
                }
            } else {
                match mixed_text(node.children) {
                    Ok(state) => Ok(opening + seq!['>'] + mixed_body(state) + closing),
                    Err(fault) => Err(fault),
                }
            }
        },
    }
}

/// A whole document.
pub open spec fn document_text(children: Seq<EdgeModel>) -> Rendered {
    match blocks_text(children, false) {
        Ok(blocks) => Ok(joined(blocks, "\n\n"@)),
        Err(fault) => Err(fault),
    }
}

/// Whether a result is the one that a model describes.
pub open spec fn renders(result: Result<Vec<char>, PomRenderError>, model: Rendered) -> bool {
    match (result, model) {
        (Ok(text), Ok(expected)) => text@ == expected,
        (Err(error), Err(fault)) => error@ == fault,
        _ => false,
    }
}

fn ensure_xml_character(c: char) -> (result: Result<(), PomRenderError>)
    ensures
        match result {
            Ok(_) => is_xml_character(c),
            Err(error) => !is_xml_character(c) && error@ == RenderFault::XmlCharacter(c as u32),
        },
{
    let code_point: u32 = c as u32;
    if code_point == 0x9 || code_point == 0xA || code_point == 0xD || (code_point >= 0x20
        && code_point <= 0xD7FF) || (code_point >= 0xE000 && code_point <= 0xFFFD) || (code_point
        >= 0x10000 && code_point <= 0x10FFFF) {
        Ok(())
    } else {
        Err(PomRenderError::InvalidXmlCharacter { code_point })
    }
}

fn push_xml_text_char(out: &mut Vec<char>, c: char)
    ensures
        final(out)@ == old(out)@ + xml_text_char(c),
{
    let ghost before = out@;
    match c {
        '&' => push_text(out, "&amp;"),
        '<' => push_text(out, "&lt;"),
        '>' => push_text(out, "&gt;"),
        '\r' => push_text(out, "&#13;"),
        _ => {
            out.push(c);
            assert(out@ =~= before + seq![c]);
        },
    }
}

fn push_xml_attribute_char(out: &mut Vec<char>, c: char)
    ensures
        final(out)@ == old(out)@ + xml_attribute_char(c),
{
    match c {
        '"' => push_text(out, "&quot;"),
        '\'' => push_text(out, "&apos;"),
        '\t' => push_text(out, "&#9;"),
        '\n' => push_text(out, "&#10;"),
        _ => push_xml_text_char(out, c),
    }
}

/// A failure on a prefix is a failure on the whole.
proof fn lemma_xml_text_fault(raw: Seq<char>, n: int)
    requires
        0 <= n <= raw.len(),
        xml_text(raw.take(n)) is Err,
    ensures
        xml_text(raw) == xml_text(raw.take(n)),
    decreases raw.len() - n,
{
    if n < raw.len() {
        assert(raw.take(n + 1).drop_last() =~= raw.take(n));
        lemma_xml_text_fault(raw, n + 1);
    } else {
        assert(raw.take(n) =~= raw);
    }
}

proof fn lemma_xml_attribute_fault(raw: Seq<char>, n: int)
    requires
        0 <= n <= raw.len(),
        xml_attribute(raw.take(n)) is Err,
    ensures
        xml_attribute(raw) == xml_attribute(raw.take(n)),
    decreases raw.len() - n,
{
    if n < raw.len() {
        assert(raw.take(n + 1).drop_last() =~= raw.take(n));
        lemma_xml_attribute_fault(raw, n + 1);
    } else {
        assert(raw.take(n) =~= raw);
    }
}

fn escape_xml_text(raw: &Vec<char>) -> (result: Result<Vec<char>, PomRenderError>)
    ensures
        renders(result, xml_text(raw@)),
{
    let mut rendered: Vec<char> = Vec::new();
    for i in 0..raw.len()
        invariant
            xml_text(raw@.take(i as int)) == Rendered::Ok(rendered@),
    {
        let c = raw[i];
        assert(raw@.take(i as int + 1).drop_last() =~= raw@.take(i as int));
        if let Err(error) = ensure_xml_character(c) {
            proof {
                lemma_xml_text_fault(raw@, i as int + 1);
            }
            return Err(error);
        }
        push_xml_text_char(&mut rendered, c);
    }
    assert(raw@.take(raw@.len() as int) =~= raw@);
    Ok(rendered)
}

fn escape_xml_attribute(raw: &Vec<char>) -> (result: Result<Vec<char>, PomRenderError>)
    ensures
        renders(result, xml_attribute(raw@)),
{
    let mut rendered: Vec<char> = Vec::new();
    for i in 0..raw.len()
        invariant
            xml_attribute(raw@.take(i as int)) == Rendered::Ok(rendered@),
    {
        let c = raw[i];
        assert(raw@.take(i as int + 1).drop_last() =~= raw@.take(i as int));
        if let Err(error) = ensure_xml_character(c) {
            proof {
                lemma_xml_attribute_fault(raw@, i as int + 1);
            }
            return Err(error);
        }
        push_xml_attribute_char(&mut rendered, c);
    }
    assert(raw@.take(raw@.len() as int) =~= raw@);
    Ok(rendered)
}

fn leading_spaces(raw: &Vec<char>) -> (count: usize)
    ensures
        count == space_count(raw@),
        count <= raw@.len(),
{
    let mut count: usize = 0;
    assert(raw@.skip(0) =~= raw@);
    while count < raw.len() && raw[count] == ' '
        invariant
            count <= raw@.len(),
            space_count(raw@) == count + space_count(raw@.skip(count as int)),
        decreases raw@.len() - count,
    {
        assert(raw@.skip(count as int).drop_first() =~= raw@.skip(count as int + 1));
        count += 1;
    }
    count
}

fn count_digits(raw: &Vec<char>, from: usize) -> (count: usize)
    requires
        from <= raw@.len(),
    ensures
        count == leading_digits(raw@.skip(from as int)),
        from + count <= raw@.len(),
{
    let mut at: usize = from;
    while at < raw.len() && raw[at] >= '0' && raw[at] <= '9'
        invariant
            from <= at <= raw@.len(),
            leading_digits(raw@.skip(from as int)) == at - from + leading_digits(
                raw@.skip(at as int),
            ),
        decreases raw@.len() - at,
    {
        assert(raw@.skip(at as int).drop_first() =~= raw@.skip(at as int + 1));
        at += 1;
    }
    at - from
}

fn ordered_list_delimiter(raw: &Vec<char>) -> (delimiter: Option<usize>)
    ensures
        match delimiter {
            Some(at) => ordered_delimiter(raw@) == Some(at as int),
            None => ordered_delimiter(raw@) is None,
        },
{
    let len: usize = raw.len();
    let indent: usize = leading_spaces(raw);
    if indent > 3 {
        return None;
    }
    let digits: usize = count_digits(raw, indent);
    let at: usize = indent + digits;
    if digits == 0 || at >= len || (raw[at] != '.' && raw[at] != ')') {
        return None;
    }
    if at + 1 < len {
        let following = raw[at + 1];
        if !(following == ' ' || following == '\t' || following == '\n' || following as u32 == 0xC
            || following == '\r') {
            return None;
        }
    }
    Some(at)
}

fn block_marker(raw: &Vec<char>) -> (marker: Option<usize>)
    ensures
        match marker {
            Some(at) => block_marker_at(raw@) == Some(at as int),
            None => block_marker_at(raw@) is None,
        },
{
    let indent: usize = leading_spaces(raw);
    if indent > 3 || indent >= raw.len() {
        return None;
    }
    match raw[indent] {
        '>' | '-' | '+' | '~' => Some(indent),
        _ => None,
    }
}

fn has_encoded_indentation(raw: &Vec<char>) -> (indented: bool)
    ensures
        indented == is_indented(raw@),
        indented ==> raw@.len() > 0,
{
    let spaces: usize = leading_spaces(raw);
    spaces >= 4 || (spaces < raw.len() && raw[spaces] == '\t')
}

fn encode_rendered_indentation(rendered: Vec<char>) -> (encoded: Vec<char>)
    ensures
        encoded@ == indentation_encoded(rendered@),
{
    if !has_encoded_indentation(&rendered) {
        return rendered;
    }
    let mut encoded: Vec<char> = Vec::new();
    if rendered[0] == ' ' {
        push_text(&mut encoded, "&#32;");
    } else {
        push_text(&mut encoded, "&#9;");
    }
    let ghost start = encoded@;
    for i in 1..rendered.len()
        invariant
            1 <= i <= rendered@.len(),
            encoded@ == start + rendered@.subrange(1, i as int),
    {
        encoded.push(rendered[i]);
        assert(rendered@.subrange(1, i as int + 1) =~= rendered@.subrange(1, i as int).push(
            rendered@[i as int],
        ));
        assert(encoded@ =~= start + rendered@.subrange(1, i as int + 1));
    }
    assert(rendered@.subrange(1, rendered@.len() as int) =~= rendered@.skip(1));
    assert(encoded@ =~= indentation_encoded(rendered@));
    encoded
}

proof fn lemma_markdown_fault(raw: Seq<char>, in_xml: bool, starts_block: bool, n: int)
    requires
        0 <= n <= raw.len(),
        markdown_prefix(raw, in_xml, starts_block, n) is Err,
    ensures
        markdown_text(raw, in_xml, starts_block) == markdown_prefix(raw, in_xml, starts_block, n),
    decreases raw.len() - n,
{
    if n < raw.len() {
        lemma_markdown_fault(raw, in_xml, starts_block, n + 1);
    }
}

fn escape_markdown_text(raw: &Vec<char>, in_xml: bool, starts_block: bool) -> (result: Result<
    Vec<char>,
    PomRenderError,
>)
    ensures
        renders(result, markdown_text(raw@, in_xml, starts_block)),
{
    let delimiter: Option<usize> = if starts_block {
        ordered_list_delimiter(raw)
    } else {
        None
    };
    let marker: Option<usize> = if starts_block {
        block_marker(raw)
    } else {
        None
    };
    let indented = starts_block && has_encoded_indentation(raw);
    let mut rendered: Vec<char> = Vec::new();
    for i in 0..raw.len()
        invariant
            indented == (starts_block && is_indented(raw@)),
            match marker {
                Some(at) => starts_block && block_marker_at(raw@) == Some(at as int),
                None => starts_block ==> block_marker_at(raw@) is None,
            },
            match delimiter {
                Some(at) => starts_block && ordered_delimiter(raw@) == Some(at as int),
                None => starts_block ==> ordered_delimiter(raw@) is None,
            },
            markdown_prefix(raw@, in_xml, starts_block, i as int) == Rendered::Ok(rendered@),
    {
        let c = raw[i];
        if in_xml {
            if let Err(error) = ensure_xml_character(c) {
                proof {
                    lemma_markdown_fault(raw@, in_xml, starts_block, i as int + 1);
                }
                return Err(error);
            }
        }
        let ghost before = rendered@;
        if indented && i == 0 {
            if c == ' ' {
                push_text(&mut rendered, "&#32;");
            } else {
                push_text(&mut rendered, "&#9;");
            }
        } else if in_xml && (c == '&' || c == '<' || c == '>' || c == '\r') {
            push_xml_text_char(&mut rendered, c);
        } else if in_xml && c == '\n' {
            push_text(&mut rendered, "&#10;");
        } else {
            let control = c == '\\' || c == '`' || c == '*' || c == '_' || c == '[' || c == ']'
                || c == '#' || (!in_xml && (c == '<' || c == '>' || c == '&'));
            let marks = match marker {
                Some(at) => at == i,
                None => false,
            };
            let delimits = match delimiter {
                Some(at) => at == i,
                None => false,
            };
            if control || marks || delimits {
                rendered.push('\\');
            }
            rendered.push(c);
        }
        assert(rendered@ =~= before + markdown_char(raw@, in_xml, starts_block, i as int));
    }
    Ok(rendered)
}

fn longest_run(value: &Vec<char>, needle: char) -> (longest: usize)
    ensures
        longest == max_run(value@, needle),
        longest <= value@.len(),
{
    let mut longest: usize = 0;
    let mut current: usize = 0;
    for i in 0..value.len()
        invariant
            longest == max_run(value@.take(i as int), needle),
            current == trailing_run(value@.take(i as int), needle),
            current <= i,
            longest <= i,
    {
        assert(value@.take(i as int + 1).drop_last() =~= value@.take(i as int));
        if value[i] == needle {
            current += 1;
            if current > longest {
                longest = current;
            }
        } else {
            current = 0;
        }
    }
    assert(value@.take(value@.len() as int) =~= value@);
    longest
}

fn indent_continuation_lines(value: &Vec<char>, indent: &Vec<char>, first: bool) -> (indented: Vec<
    char,
>)
    ensures
        indented@ == indented_lines(value@, indent@, first),
{
    let mut indented: Vec<char> = Vec::new();
    for i in 0..value.len()
        invariant
            indented@ == indented_lines(value@.take(i as int), indent@, first),
    {
        let ghost seen = value@.take(i as int + 1);
        let ghost before = indented@;
        assert(seen.drop_last() =~= value@.take(i as int));
        let starts = if i == 0 {
            first
        } else {
            value[i - 1] == '\n'
        };
        assert(starts == starts_line(seen, i as int, first));
        if starts && value[i] != '\n' {
            push_all(&mut indented, indent);
        }
        indented.push(value[i]);
        assert(indented@ =~= indented_lines(seen, indent@, first));
    }
    assert(value@.take(value@.len() as int) =~= value@);
    indented
}

fn push_all(out: &mut Vec<char>, more: &Vec<char>)
    ensures
        final(out)@ == old(out)@ + more@,
{
    let ghost before = out@;
    for i in 0..more.len()
        invariant
            out@ == before + more@.take(i as int),
    {
        out.push(more[i]);
        assert(before + more@.take(i as int + 1) =~= (before + more@.take(i as int)).push(
            more@[i as int],
        ));
    }
    assert(more@.take(more@.len() as int) =~= more@);
}

/// Pieces of text.
pub open spec fn text_models(parts: Seq<Vec<char>>) -> Seq<Seq<char>> {
    parts.map_values(|part: Vec<char>| part@)
}

fn join_parts(parts: &Vec<Vec<char>>, separator: &str) -> (text: Vec<char>)
    ensures
        text@ == joined(text_models(parts@), separator@),
{
    let mut text: Vec<char> = Vec::new();
    let ghost models = text_models(parts@);
    for i in 0..parts.len()
        invariant
            models == text_models(parts@),
            text@ == joined(models.take(i as int), separator@),
    {
        assert(models.take(i as int + 1).drop_last() =~= models.take(i as int));
        assert(models.take(i as int + 1).last() == parts@[i as int]@);
        if i > 0 {
            push_text(&mut text, separator);
        } else {
            assert(text@ + parts@[0]@ =~= parts@[0]@);
        }
        push_all(&mut text, &parts[i]);
    }
    assert(models.take(models.len() as int) =~= models);
    text
}

fn contains_char(value: &Vec<char>, c: char) -> (found: bool)
    ensures
        found == value@.contains(c),
{
    for i in 0..value.len()
        invariant
            forall|j: int| 0 <= j < i ==> value@[j] != c,
    {
        if value[i] == c {
            return true;
        }
    }
    false
}

fn push_range(out: &mut Vec<char>, value: &Vec<char>, from: usize, to: usize)
    requires
        from <= to <= value@.len(),
    ensures
        final(out)@ == old(out)@ + value@.subrange(from as int, to as int),
{
    let ghost before = out@;
    assert(value@.subrange(from as int, from as int) =~= Seq::empty());
    assert(before + Seq::<char>::empty() =~= before);
    for i in from..to
        invariant
            from <= i <= to <= value@.len(),
            out@ == before + value@.subrange(from as int, i as int),
    {
        out.push(value[i]);
        assert(value@.subrange(from as int, i as int + 1) =~= value@.subrange(
            from as int,
            i as int,
        ).push(value@[i as int]));
        assert(out@ =~= before + value@.subrange(from as int, i as int + 1));
    }
}

/// Leading and trailing whitespace do not overlap where something stands between.
proof fn lemma_whitespace_bounds(value: Seq<char>)
    ensures
        leading_whitespace(value) <= value.len(),
        trailing_whitespace(value) <= value.len(),
        forall|i: int| 0 <= i < leading_whitespace(value) ==> is_whitespace(#[trigger] value[i]),
        leading_whitespace(value) < value.len() ==> !is_whitespace(
            value[leading_whitespace(value) as int],
        ),
        forall|i: int|
            value.len() - trailing_whitespace(value) <= i < value.len() ==> is_whitespace(
                #[trigger] value[i],
            ),
        leading_whitespace(value) < value.len() ==> leading_whitespace(value) < value.len()
            - trailing_whitespace(value),
    decreases value.len(),
{
    lemma_leading_whitespace(value);
    lemma_trailing_whitespace(value);
}

proof fn lemma_leading_whitespace(value: Seq<char>)
    ensures
        leading_whitespace(value) <= value.len(),
        forall|i: int| 0 <= i < leading_whitespace(value) ==> is_whitespace(#[trigger] value[i]),
        leading_whitespace(value) < value.len() ==> !is_whitespace(
            value[leading_whitespace(value) as int],
        ),
    decreases value.len(),
{
    if value.len() > 0 && is_whitespace(value[0]) {
        let rest = value.drop_first();
        lemma_leading_whitespace(rest);
        assert forall|i: int| 0 <= i < leading_whitespace(value) implies is_whitespace(
            #[trigger] value[i],
        ) by {
            if i > 0 {
                assert(rest[i - 1] == value[i]);
            }
        }
        assert(leading_whitespace(rest) < rest.len() ==> rest[leading_whitespace(rest) as int]
            == value[leading_whitespace(value) as int]);
    }
}

proof fn lemma_trailing_whitespace(value: Seq<char>)
    ensures
        trailing_whitespace(value) <= value.len(),
        forall|i: int|
            value.len() - trailing_whitespace(value) <= i < value.len() ==> is_whitespace(
                #[trigger] value[i],
            ),
    decreases value.len(),
{
    if value.len() > 0 && is_whitespace(value.last()) {
        let rest = value.drop_last();
        lemma_trailing_whitespace(rest);
        assert forall|i: int|
            value.len() - trailing_whitespace(value) <= i < value.len() implies is_whitespace(
            #[trigger] value[i],
        ) by {
            if i < value.len() - 1 {
                assert(rest[i] == value[i]);
            }
        }
    }
}

fn emphasize(body: Vec<char>) -> (result: Result<Vec<char>, PomRenderError>)
    ensures
        renders(result, strong_text(body@)),
{
    let len: usize = body.len();
    let mut start: usize = 0;
    assert(body@.skip(0) =~= body@);
    while start < len && whitespace(body[start])
        invariant
            len == body@.len(),
            start <= len,
            leading_whitespace(body@) == start + leading_whitespace(body@.skip(start as int)),
        decreases len - start,
    {
        assert(body@.skip(start as int).drop_first() =~= body@.skip(start as int + 1));
        start += 1;
    }
    if start == len {
        return Err(PomRenderError::InvalidStrongContent);
    }
    let mut end: usize = len;
    assert(body@.take(len as int) =~= body@);
    while end > start && whitespace(body[end - 1])
        invariant
            len == body@.len(),
            start <= end <= len,
            trailing_whitespace(body@) == len - end + trailing_whitespace(body@.take(end as int)),
        decreases end,
    {
        assert(body@.take(end as int).drop_last() =~= body@.take(end as int - 1));
        end -= 1;
    }
    proof {
        lemma_whitespace_bounds(body@);
        lemma_trailing_whitespace(body@.take(end as int));
    }
    let mut text: Vec<char> = Vec::new();
    push_range(&mut text, &body, 0, start);
    push_text(&mut text, "**");
    push_range(&mut text, &body, start, end);
    push_text(&mut text, "**");
    push_range(&mut text, &body, end, len);
    assert(body@.subrange(0, start as int) =~= body@.take(start as int));
    assert(body@.subrange(end as int, len as int) =~= body@.skip(end as int));
    assert(text@ =~= body@.take(start as int) + "**"@ + body@.subrange(start as int, end as int)
        + "**"@ + body@.skip(end as int));
    Ok(text)
}

fn render_verbatim(raw: &Vec<char>, in_xml: bool) -> (result: Result<Vec<char>, PomRenderError>)
    ensures
        renders(result, verbatim(raw@, in_xml)),
{
    if in_xml {
        escape_xml_text(raw)
    } else {
        let mut copy: Vec<char> = Vec::new();
        push_all(&mut copy, raw);
        assert(copy@ =~= raw@);
        Ok(copy)
    }
}

fn render_code_span(node: &CodeSpanNode, in_xml: bool) -> (result: Result<
    Vec<char>,
    PomRenderError,
>)
    ensures
        renders(result, markdown_node_text(node@, in_xml)),
{
    let raw = chars_of(node.body().value());
    assert(markdown_node_text(node@, in_xml) == code_span_text(raw@, in_xml));
    if raw.is_empty() || contains_char(&raw, '\r') || contains_char(&raw, '\n') {
        return Err(PomRenderError::InvalidCodeSpanBody { value: node.body().value().to_owned() });
    }
    let len: usize = raw.len();
    let run: usize = longest_run(&raw, '`');
    let body = match render_verbatim(&raw, in_xml) {
        Ok(body) => body,
        Err(error) => {
            return Err(error);
        },
    };
    let mut mixed = false;
    for i in 0..len
        invariant
            len == raw@.len(),
            mixed == exists|j: int| 0 <= j < i && #[trigger] raw@[j] != ' ',
    {
        if raw[i] != ' ' {
            mixed = true;
        }
    }
    let pad = raw[0] == '`' || raw[len - 1] == '`' || (raw[0] == ' ' && raw[len - 1] == ' '
        && mixed);
    let delimiter = delimiter_run('`', run);
    let mut text: Vec<char> = Vec::new();
    push_all(&mut text, &delimiter);
    if pad {
        text.push(' ');
    }
    push_all(&mut text, &body);
    if pad {
        text.push(' ');
    }
    push_all(&mut text, &delimiter);
    if pad {
        assert(text@ =~= delimiter@ + seq![' '] + body@ + seq![' '] + delimiter@);
    } else {
        assert(text@ =~= delimiter@ + body@ + delimiter@);
    }
    Ok(text)
}

/// One more of a character than a run has.
fn delimiter_run(c: char, run: usize) -> (delimiter: Vec<char>)
    ensures
        delimiter@ == repeated(c, (run + 1) as nat),
{
    let mut delimiter = repeat_char(c, run);
    delimiter.push(c);
    assert(delimiter@ =~= repeated(c, (run + 1) as nat));
    delimiter
}

fn render_code_block(node: &CodeBlockNode, in_xml: bool) -> (result: Result<
    Vec<char>,
    PomRenderError,
>)
    ensures
        renders(result, markdown_node_text(node@, in_xml)),
{
    let raw = chars_of(node.body().value());
    let ghost named = node@->language;
    assert(markdown_node_text(node@, in_xml) == code_block_text(named, raw@, in_xml));
    let mut label: Vec<char> = Vec::new();
    if let Some(language) = node.language() {
        let token = chars_of(language);
        let mut valid = !token.is_empty();
        for i in 0..token.len()
            invariant
                valid == (token@.len() > 0 && forall|j: int|
                    0 <= j < i ==> !is_whitespace(#[trigger] token@[j])),
        {
            if whitespace(token[i]) {
                valid = false;
            }
        }
        if !valid {
            return Err(PomRenderError::InvalidCodeBlockLanguage { value: language.to_owned() });
        }
        match render_verbatim(&token, in_xml) {
            Ok(text) => {
                label.push(' ');
                push_all(&mut label, &text);
                assert(label@ =~= seq![' '] + text@);
            },
            Err(error) => {
                return Err(error);
            },
        }
    }
    let body = match render_verbatim(&raw, in_xml) {
        Ok(body) => body,
        Err(error) => {
            return Err(error);
        },
    };
    let run: usize = longest_run(&raw, '~');
    let fence = if run < 2 {
        repeat_char('~', 3)
    } else {
        delimiter_run('~', run)
    };
    let mut text: Vec<char> = Vec::new();
    push_all(&mut text, &fence);
    push_all(&mut text, &label);
    text.push('\n');
    push_all(&mut text, &body);
    let ghost before = text@;
    if body.len() > 0 && body[body.len() - 1] != '\n' {
        text.push('\n');
        assert(text@ =~= before + seq!['\n']);
    } else {
        assert(text@ =~= before + Seq::empty());
    }
    push_all(&mut text, &fence);
    assert(fence@ == code_fence(raw@));
    assert(before =~= fence@ + label@ + seq!['\n'] + body@);
    Ok(text)
}

proof fn lemma_blocks_fault(children: Seq<EdgeModel>, in_xml: bool, n: int)
    requires
        0 <= n <= children.len(),
        blocks_text(children.take(n), in_xml) is Err,
    ensures
        blocks_text(children, in_xml) is Err,
        blocks_text(children, in_xml)->Err_0 == blocks_text(children.take(n), in_xml)->Err_0,
    decreases children.len() - n,
{
    if n < children.len() {
        assert(children.take(n + 1).drop_last() =~= children.take(n));
        lemma_blocks_fault(children, in_xml, n + 1);
    } else {
        assert(children.take(n) =~= children);
    }
}

proof fn lemma_inline_fault(children: Seq<EdgeModel>, in_xml: bool, starts_block: bool, n: int)
    requires
        0 <= n <= children.len(),
        inline_text(children.take(n), in_xml, starts_block) is Err,
    ensures
        inline_text(children, in_xml, starts_block) is Err,
        inline_text(children, in_xml, starts_block)->Err_0 == inline_text(children.take(n), in_xml, starts_block)->Err_0,
    decreases children.len() - n,
{
    if n < children.len() {
        assert(children.take(n + 1).drop_last() =~= children.take(n));
        lemma_inline_fault(children, in_xml, starts_block, n + 1);
    } else {
        assert(children.take(n) =~= children);
    }
}

proof fn lemma_item_blocks_fault(children: Seq<EdgeModel>, in_xml: bool, n: int)
    requires
        0 <= n <= children.len(),
        item_blocks(children.take(n), in_xml) is Err,
    ensures
        item_blocks(children, in_xml) is Err,
        item_blocks(children, in_xml)->Err_0 == item_blocks(children.take(n), in_xml)->Err_0,
    decreases children.len() - n,
{
    if n < children.len() {
        assert(children.take(n + 1).drop_last() =~= children.take(n));
        lemma_item_blocks_fault(children, in_xml, n + 1);
    } else {
        assert(children.take(n) =~= children);
    }
}

proof fn lemma_items_fault(items: Seq<Seq<EdgeModel>>, kind: ListKind, in_xml: bool, n: int)
    requires
        0 <= n <= items.len(),
        items_text(items.take(n), kind, in_xml) is Err,
    ensures
        items_text(items, kind, in_xml) is Err,
        items_text(items, kind, in_xml)->Err_0 == items_text(items.take(n), kind, in_xml)->Err_0,
    decreases items.len() - n,
{
    if n < items.len() {
        assert(items.take(n + 1).drop_last() =~= items.take(n));
        lemma_items_fault(items, kind, in_xml, n + 1);
    } else {
        assert(items.take(n) =~= items);
    }
}

proof fn lemma_elements_fault(children: Seq<EdgeModel>, n: int)
    requires
        0 <= n <= children.len(),
        elements_text(children.take(n)) is Err,
    ensures
        elements_text(children) is Err,
        elements_text(children)->Err_0 == elements_text(children.take(n))->Err_0,
    decreases children.len() - n,
{
    if n < children.len() {
        assert(children.take(n + 1).drop_last() =~= children.take(n));
        lemma_elements_fault(children, n + 1);
    } else {
        assert(children.take(n) =~= children);
    }
}

proof fn lemma_mixed_fault(children: Seq<EdgeModel>, n: int)
    requires
        0 <= n <= children.len(),
        mixed_text(children.take(n)) is Err,
    ensures
        mixed_text(children) is Err,
        mixed_text(children)->Err_0 == mixed_text(children.take(n))->Err_0,
    decreases children.len() - n,
{
    if n < children.len() {
        assert(children.take(n + 1).drop_last() =~= children.take(n));
        lemma_mixed_fault(children, n + 1);
    } else {
        assert(children.take(n) =~= children);
    }
}

proof fn lemma_attributes_fault(attributes: Seq<AttributeModel>, n: int)
    requires
        0 <= n <= attributes.len(),
        attributes_text(attributes.take(n)) is Err,
    ensures
        attributes_text(attributes) is Err,
        attributes_text(attributes)->Err_0 == attributes_text(attributes.take(n))->Err_0,
    decreases attributes.len() - n,
{
    if n < attributes.len() {
        assert(attributes.take(n + 1).drop_last() =~= attributes.take(n));
        lemma_attributes_fault(attributes, n + 1);
    } else {
        assert(attributes.take(n) =~= attributes);
    }
}

fn render_blocks(children: &BlockChildren, in_xml: bool) -> (result: Result<
    Vec<Vec<char>>,
    PomRenderError,
>)
    ensures
        match (result, blocks_text(children@, in_xml)) {
            (Ok(blocks), Ok(expected)) => text_models(blocks@) == expected,
            (Err(error), Err(fault)) => error@ == fault,
            _ => false,
        },
    decreases children@, 0int,
{
    let mut blocks: Vec<Vec<char>> = Vec::new();
    let count: usize = children.len();
    assert(text_models(blocks@) =~= Seq::empty());
    assert(children@.take(0) =~= Seq::empty());
    for i in 0..count
        invariant
            count == children@.len(),
            blocks_text(children@.take(i as int), in_xml) == Result::<
                Seq<Seq<char>>,
                RenderFault,
            >::Ok(text_models(blocks@)),
    {
        let ghost before = blocks@;
        assert(children@.take(i as int + 1).drop_last() =~= children@.take(i as int));
        assert(decreases_to!(children@ => children@[i as int]));
        if let Some(content) = children.get(i) {
            match render_block_content(content, in_xml) {
                Ok(text) => {
                    blocks.push(text);
                    assert(text_models(blocks@) =~= text_models(before).push(text@));
                },
                Err(error) => {
                    proof {
                        lemma_blocks_fault(children@, in_xml, i as int + 1);
                    }
                    return Err(error);
                },
            }
        }
    }
    assert(children@.take(children@.len() as int) =~= children@);
    Ok(blocks)
}

fn render_block_content(content: ContentRef<'_>, in_xml: bool) -> (result: Result<
    Vec<char>,
    PomRenderError,
>)
    ensures
        renders(result, block_text(content@, in_xml)),
    decreases content@, 0int,
{
    match content {
        ContentRef::Node(ContentNode::Markdown(node)) => {
            assert(decreases_to!(content@ => content@->Node_0->Markdown_0));
            render_markdown(node, in_xml)
        },
        ContentRef::Node(ContentNode::Xml(node)) => {
            assert(decreases_to!(content@ => content@->Node_0->Xml_0));
            render_xml(node, !in_xml)
        },
        ContentRef::Node(ContentNode::RawText(node)) => {
            render_verbatim(&chars_of(node.value()), in_xml)
        },
        ContentRef::Node(ContentNode::Text(_)) | ContentRef::DiffSlot(_) => empty_text(),
    }
}

fn empty_text() -> (result: Result<Vec<char>, PomRenderError>)
    ensures
        renders(result, Ok(Seq::empty())),
{
    let text: Vec<char> = Vec::new();
    assert(text@ =~= Seq::empty());
    Ok(text)
}

fn render_inline_children(children: &InlineChildren, in_xml: bool, starts_block: bool) -> (result:
    Result<Vec<char>, PomRenderError>)
    ensures
        match (result, inline_text(children@, in_xml, starts_block)) {
            (Ok(text), Ok(expected)) => text@ == expected.text,
            (Err(error), Err(fault)) => error@ == fault,
            _ => false,
        },
    decreases children@, 0int,
{
    let mut text: Vec<char> = Vec::new();
    let mut at_start = starts_block;
    let count: usize = children.len();
    assert(children@.take(0) =~= Seq::empty());
    assert(text@ =~= Seq::empty());
    for i in 0..count
        invariant
            count == children@.len(),
            inline_text(children@.take(i as int), in_xml, starts_block) == Result::<
                Flow,
                RenderFault,
            >::Ok(Flow { text: text@, at_start }),
    {
        assert(children@.take(i as int + 1).drop_last() =~= children@.take(i as int));
        assert(decreases_to!(children@ => children@[i as int]));
        if let Some(content) = children.get(i) {
            match render_inline_content(content, in_xml, at_start) {
                Ok(piece) => {
                    at_start = piece.len() > 0 && piece[piece.len() - 1] == '\n';
                    push_all(&mut text, &piece);
                },
                Err(error) => {
                    proof {
                        lemma_inline_fault(children@, in_xml, starts_block, i as int + 1);
                    }
                    return Err(error);
                },
            }
        }
    }
    assert(children@.take(children@.len() as int) =~= children@);
    Ok(text)
}

fn render_inline_content(content: ContentRef<'_>, in_xml: bool, at_start: bool) -> (result: Result<
    Vec<char>,
    PomRenderError,
>)
    ensures
        renders(result, inline_piece(content@, in_xml, at_start)),
    decreases content@, 0int,
{
    match content {
        ContentRef::Node(ContentNode::Text(node)) => {
            escape_markdown_text(&chars_of(node.value()), in_xml, at_start)
        },
        ContentRef::Node(ContentNode::Markdown(node)) => {
            assert(decreases_to!(content@ => content@->Node_0->Markdown_0));
            render_markdown(node, in_xml)
        },
        ContentRef::Node(ContentNode::Xml(node)) => {
            assert(decreases_to!(content@ => content@->Node_0->Xml_0));
            render_xml(node, false)
        },
        ContentRef::Node(ContentNode::RawText(_)) | ContentRef::DiffSlot(_) => empty_text(),
    }
}

fn render_markdown(node: &MarkdownNode, in_xml: bool) -> (result: Result<Vec<char>, PomRenderError>)
    ensures
        renders(result, markdown_node_text(node@, in_xml)),
    decreases node@, 1int,
{
    match node {
        MarkdownNode::Heading(heading) => {
            assert(node@ == heading@);
            assert(decreases_to!(node@ => node@->Heading_children));
            match render_inline_children(heading.children(), in_xml, false) {
                Ok(body) => {
                    let level: u8 = heading.level().number();
                    let mut text = repeat_char('#', level as usize);
                    text.push(' ');
                    push_all(&mut text, &body);
                    assert(text@ =~= repeated('#', level as nat) + seq![' '] + body@);
                    Ok(text)
                },
                Err(error) => Err(error),
            }
        },
        MarkdownNode::Paragraph(paragraph) => {
            assert(node@ == paragraph@);
            assert(decreases_to!(node@ => node@->Paragraph_children));
            if paragraph.children().is_empty() {
                return Err(PomRenderError::InvalidEmptyParagraph);
            }
            match render_inline_children(paragraph.children(), in_xml, true) {
                Ok(body) => Ok(encode_rendered_indentation(body)),
                Err(error) => Err(error),
            }
        },
        MarkdownNode::List(list) => render_list(list, in_xml),
        MarkdownNode::CodeBlock(block) => render_code_block(block, in_xml),
        MarkdownNode::ThematicBreak => Ok(chars_of("---")),
        MarkdownNode::Strong(strong) => {
            assert(node@ == strong@);
            assert(decreases_to!(node@ => node@->Strong_children));
            match render_inline_children(strong.children(), in_xml, false) {
                Ok(body) => emphasize(body),
                Err(error) => Err(error),
            }
        },
        MarkdownNode::CodeSpan(span) => render_code_span(span, in_xml),
    }
}

/// One rendered block of a list item.
struct RenderedBlock {
    separate: bool,
    text: Vec<char>,
}

spec fn block_models(blocks: Seq<RenderedBlock>) -> Seq<ItemBlock> {
    blocks.map_values(
        |block: RenderedBlock| ItemBlock { separate: block.separate, text: block.text@ },
    )
}

fn render_item_blocks(children: &BlockChildren, in_xml: bool) -> (result: Result<
    Vec<RenderedBlock>,
    PomRenderError,
>)
    ensures
        match (result, item_blocks(children@, in_xml)) {
            (Ok(blocks), Ok(expected)) => block_models(blocks@) == expected,
            (Err(error), Err(fault)) => error@ == fault,
            _ => false,
        },
    decreases children@, 0int,
{
    let mut blocks: Vec<RenderedBlock> = Vec::new();
    let count: usize = children.len();
    assert(block_models(blocks@) =~= Seq::empty());
    assert(children@.take(0) =~= Seq::empty());
    for i in 0..count
        invariant
            count == children@.len(),
            item_blocks(children@.take(i as int), in_xml) == Result::<
                Seq<ItemBlock>,
                RenderFault,
            >::Ok(block_models(blocks@)),
    {
        let ghost before = blocks@;
        assert(children@.take(i as int + 1).drop_last() =~= children@.take(i as int));
        assert(decreases_to!(children@ => children@[i as int]));
        if let Some(content) = children.get(i) {
            let separate = match content {
                ContentRef::Node(ContentNode::Markdown(MarkdownNode::ThematicBreak)) => true,
                _ => false,
            };
            assert(separate == (content@ == EdgeModel::Node(
                NodeModel::Markdown(MarkdownModel::ThematicBreak),
            )));
            match render_block_content(content, in_xml) {
                Ok(text) => {
                    if !text.is_empty() {
                        let ghost model = ItemBlock { separate, text: text@ };
                        blocks.push(RenderedBlock { separate, text });
                        assert(block_models(blocks@) =~= block_models(before).push(model));
                    }
                },
                Err(error) => {
                    proof {
                        lemma_item_blocks_fault(children@, in_xml, i as int + 1);
                    }
                    return Err(error);
                },
            }
        }
    }
    assert(children@.take(children@.len() as int) =~= children@);
    Ok(blocks)
}

fn marker_of(kind: &ListKind, index: usize) -> (marker: Vec<char>)
    requires
        *kind is Ordered ==> kind->start < 1_000_000_000,
    ensures
        marker@ == item_marker(*kind, index as int),
        marker@.len() <= 32,
{
    let mut marker: Vec<char> = Vec::new();
    match kind {
        ListKind::Unordered => {
            marker.push('-');
            assert(marker@ =~= seq!['-']);
        },
        ListKind::Ordered { start } => {
            let mut number: u64 = *start;
            if index < 1_000_000_000 && *start + (index as u64) < 1_000_000_000 {
                number = *start + (index as u64);
            }
            push_decimal(&mut marker, number);
            proof {
                reveal_with_fuel(pow10, 10);
                assert(pow10(9) == 1_000_000_000);
                lemma_decimal_len(number as nat, 9);
            }
            assert(marker@ =~= decimal(number as nat));
            marker.push('.');
        },
    }
    marker
}

proof fn lemma_decimal_len(number: nat, digits: nat)
    requires
        digits > 0,
        number < pow10(digits),
    ensures
        1 <= decimal(number).len() <= digits,
    decreases digits,
{
    if number >= 10 {
        reveal_with_fuel(pow10, 2);
        lemma_decimal_len(number / 10, (digits - 1) as nat);
    }
}

/// Powers of ten.
pub open spec fn pow10(exponent: nat) -> nat
    decreases exponent,
{
    if exponent == 0 {
        1
    } else {
        10 * pow10((exponent - 1) as nat)
    }
}

fn assemble_item(marker: Vec<char>, blocks: &Vec<RenderedBlock>) -> (text: Vec<char>)
    requires
        marker@.len() <= 32,
    ensures
        text@ == item_text(marker@, block_models(blocks@)),
{
    let ghost models = block_models(blocks@);
    let width: usize = marker.len();
    let indent = repeat_char(' ', width + 1);
    let mut text: Vec<char> = Vec::new();
    push_all(&mut text, &marker);
    assert(text@ =~= marker@);
    for i in 0..blocks.len()
        invariant
            models == block_models(blocks@),
            indent@ == repeated(' ', (marker@.len() + 1) as nat),
            text@ == item_text(marker@, models.take(i as int)),
    {
        let ghost seen = models.take(i as int + 1);
        let ghost before = text@;
        assert(seen.drop_last() =~= models.take(i as int));
        assert(seen.last() == models[i as int]);
        let block = &blocks[i];
        if i == 0 {
            if block.separate {
                text.push('\n');
            } else {
                text.push(' ');
            }
            push_all(&mut text, &indent_continuation_lines(&block.text, &indent, block.separate));
            assert(seen[0] == models[0]);
            assert(text@ =~= item_text(marker@, seen));
        } else {
            push_text(&mut text, "\n\n");
            push_all(&mut text, &indent_continuation_lines(&block.text, &indent, true));
            assert(text@ =~= item_text(marker@, seen));
        }
    }
    assert(models.take(models.len() as int) =~= models);
    text
}

fn render_list(node: &ListNode, in_xml: bool) -> (result: Result<Vec<char>, PomRenderError>)
    ensures
        renders(result, markdown_node_text(node@, in_xml)),
    decreases node@, 0int,
{
    let items = node.items();
    let kind = *node.kind();
    let ghost models = item_models(items@);
    assert(node@ == (MarkdownModel::List { kind, items: models }));
    assert(markdown_node_text(node@, in_xml) == list_text(models, kind, in_xml));
    if items.len() == 0 {
        return Err(PomRenderError::InvalidEmptyList);
    }
    if let ListKind::Ordered { start } = kind {
        if start >= 1_000_000_000 {
            return Err(PomRenderError::OrderedListMarkerTooLong { marker: start, item_index: 0 });
        }
    }
    let mut rendered: Vec<Vec<char>> = Vec::new();
    assert(text_models(rendered@) =~= Seq::empty());
    assert(models.take(0) =~= Seq::empty());
    for i in 0..items.len()
        invariant
            models == item_models(items@),
            node@ == (MarkdownModel::List { kind, items: models }),
            kind is Ordered ==> kind->start < 1_000_000_000,
            items@.len() > 0,
            markdown_node_text(node@, in_xml) == list_text(models, kind, in_xml),
            items_text(models.take(i as int), kind, in_xml) == Result::<
                Seq<Seq<char>>,
                RenderFault,
            >::Ok(text_models(rendered@)),
    {
        let ghost before = rendered@;
        assert(models.take(i as int + 1).drop_last() =~= models.take(i as int));
        assert(models.take(i as int + 1).last() == items@[i as int]@);
        assert(decreases_to!(node@ => node@->items));
        assert(decreases_to!(node@ => node@->items[i as int]));
        match render_item_blocks(items[i].children(), in_xml) {
            Ok(blocks) => {
                let text = assemble_item(marker_of(&kind, i), &blocks);
                rendered.push(text);
                assert(text_models(rendered@) =~= text_models(before).push(text@));
            },
            Err(error) => {
                proof {
                    lemma_items_fault(models, kind, in_xml, i as int + 1);
                }
                return Err(error);
            },
        }
    }
    assert(models.take(models.len() as int) =~= models);
    proof {
        reveal_strlit("\n");
        assert("\n"@ =~= seq!['\n']);
    }
    Ok(join_parts(&rendered, "\n"))
}

fn render_attributes(node: &XmlNode) -> (result: Result<Vec<char>, PomRenderError>)
    ensures
        renders(result, attributes_text(node@.attributes)),
{
    let attributes = node.attributes().as_slice();
    let ghost models = node@.attributes;
    let mut text: Vec<char> = Vec::new();
    assert(models.take(0) =~= Seq::empty());
    assert(text@ =~= Seq::empty());
    for i in 0..attributes.len()
        invariant
            models == attributes@.map_values(|attribute: XmlAttribute| attribute@),
            models == node@.attributes,
            attributes_text(models.take(i as int)) == Rendered::Ok(text@),
    {
        let attribute = &attributes[i];
        let ghost before = text@;
        assert(models.take(i as int + 1).drop_last() =~= models.take(i as int));
        assert(models.take(i as int + 1).last() == attribute@);
        match escape_xml_attribute(&chars_of(attribute.value())) {
            Ok(value) => {
                text.push(' ');
                push_text(&mut text, attribute.name().as_str());
                push_text(&mut text, "=\"");
                push_all(&mut text, &value);
                text.push('"');
                assert(text@ =~= before + seq![' '] + attribute@.name + "=\""@ + value@ + seq![
                    '"',
                ]);
            },
            Err(error) => {
                proof {
                    lemma_attributes_fault(models, i as int + 1);
                }
                return Err(error);
            },
        }
    }
    assert(models.take(models.len() as int) =~= models);
    Ok(text)
}

fn element_only_children(children: &MixedChildren) -> (only: bool)
    ensures
        only == element_only(children@),
{
    let count: usize = children.len();
    for i in 0..count
        invariant
            count == children@.len(),
            forall|j: int|
                0 <= j < i ==> (#[trigger] children@[j]) is Node && children@[j]->Node_0 is Xml,
    {
        if let Some(ContentRef::Node(ContentNode::Xml(_))) = children.get(i) {
        } else {
            assert(!(children@[i as int] is Node && children@[i as int]->Node_0 is Xml));
            return false;
        }
    }
    true
}

fn contains_block_markdown(children: &MixedChildren) -> (found: bool)
    ensures
        found == holds_block_markdown(children@),
    decreases children@, 0int,
{
    let count: usize = children.len();
    for i in 0..count
        invariant
            count == children@.len(),
            forall|j: int| 0 <= j < i ==> !edge_holds_block_markdown(#[trigger] children@[j]),
    {
        assert(decreases_to!(children@ => children@[i as int]));
        if let Some(content) = children.get(i) {
            if content_contains_block_markdown(content) {
                assert(edge_holds_block_markdown(children@[i as int]));
                return true;
            }
        }
    }
    false
}

fn strong_contains_block_markdown(children: &InlineChildren) -> (found: bool)
    ensures
        found == holds_block_markdown(children@),
    decreases children@, 0int,
{
    let count: usize = children.len();
    for i in 0..count
        invariant
            count == children@.len(),
            forall|j: int| 0 <= j < i ==> !edge_holds_block_markdown(#[trigger] children@[j]),
    {
        assert(decreases_to!(children@ => children@[i as int]));
        if let Some(content) = children.get(i) {
            if content_contains_block_markdown(content) {
                assert(edge_holds_block_markdown(children@[i as int]));
                return true;
            }
        }
    }
    false
}

fn content_contains_block_markdown(content: ContentRef<'_>) -> (found: bool)
    ensures
        found == edge_holds_block_markdown(content@),
    decreases content@, 0int,
{
    match content {
        ContentRef::DiffSlot(_) => true,
        ContentRef::Node(ContentNode::Xml(node)) => {
            assert(decreases_to!(content@ => content@->Node_0->Xml_0.children));
            contains_block_markdown(node.children())
        },
        ContentRef::Node(ContentNode::Markdown(MarkdownNode::Strong(node))) => {
            assert(content@->Node_0->Markdown_0 == node@);
            assert(decreases_to!(content@ => content@->Node_0->Markdown_0->Strong_children));
            strong_contains_block_markdown(node.children())
        },
        ContentRef::Node(ContentNode::Markdown(node)) => node.is_block(),
        ContentRef::Node(ContentNode::Text(_)) | ContentRef::Node(ContentNode::RawText(_)) => false,
    }
}

fn render_elements(children: &MixedChildren) -> (result: Result<Vec<Vec<char>>, PomRenderError>)
    ensures
        match (result, elements_text(children@)) {
            (Ok(elements), Ok(expected)) => text_models(elements@) == expected,
            (Err(error), Err(fault)) => error@ == fault,
            _ => false,
        },
    decreases children@, 0int,
{
    let mut elements: Vec<Vec<char>> = Vec::new();
    let count: usize = children.len();
    let indent = chars_of("  ");
    assert(text_models(elements@) =~= Seq::empty());
    assert(children@.take(0) =~= Seq::empty());
    for i in 0..count
        invariant
            count == children@.len(),
            indent@ == "  "@,
            elements_text(children@.take(i as int)) == Result::<Seq<Seq<char>>, RenderFault>::Ok(
                text_models(elements@),
            ),
    {
        let ghost before = elements@;
        assert(children@.take(i as int + 1).drop_last() =~= children@.take(i as int));
        assert(decreases_to!(children@ => children@[i as int]));
        let rendered = match children.get(i) {
            Some(ContentRef::Node(ContentNode::Xml(node))) => {
                assert(decreases_to!(children@ => children@[i as int]->Node_0->Xml_0));
                assert(element_text(children@[i as int]) == xml_node_text(node@, true));
                render_xml(node, true)
            },
            _ => empty_text(),
        };
        assert(renders(rendered, element_text(children@[i as int])));
        match rendered {
            Ok(text) => {
                let lines = indent_continuation_lines(&text, &indent, true);
                elements.push(lines);
                assert(text_models(elements@) =~= text_models(before).push(lines@));
            },
            Err(error) => {
                proof {
                    lemma_elements_fault(children@, i as int + 1);
                }
                return Err(error);
            },
        }
    }
    assert(children@.take(children@.len() as int) =~= children@);
    Ok(elements)
}

fn render_mixed_content(content: ContentRef<'_>, at_start: bool) -> (result: Result<
    Vec<char>,
    PomRenderError,
>)
    ensures
        renders(result, mixed_piece(content@, at_start)),
    decreases content@, 0int,
{
    match content {
        ContentRef::Node(ContentNode::Text(node)) => {
            escape_markdown_text(&chars_of(node.value()), true, at_start)
        },
        ContentRef::Node(ContentNode::RawText(node)) => escape_xml_text(&chars_of(node.value())),
        ContentRef::Node(ContentNode::Markdown(node)) => {
            assert(decreases_to!(content@ => content@->Node_0->Markdown_0));
            render_markdown(node, true)
        },
        ContentRef::Node(ContentNode::Xml(node)) => {
            assert(decreases_to!(content@ => content@->Node_0->Xml_0));
            render_xml(node, false)
        },
        ContentRef::DiffSlot(_) => empty_text(),
    }
}

/// The content of an XML node between its tags.
fn render_mixed_children(children: &MixedChildren) -> (result: Result<Vec<char>, PomRenderError>)
    ensures
        match (result, mixed_text(children@)) {
            (Ok(text), Ok(state)) => text@ == mixed_body(state),
            (Err(error), Err(fault)) => error@ == fault,
            _ => false,
        },
    decreases children@, 0int,
{
    let mut units: Vec<Vec<char>> = Vec::new();
    let mut flow: Vec<char> = Vec::new();
    let mut has_block = false;
    let count: usize = children.len();
    assert(text_models(units@) =~= Seq::empty());
    assert(flow@ =~= Seq::empty());
    assert(children@.take(0) =~= Seq::empty());
    for i in 0..count
        invariant
            count == children@.len(),
            mixed_text(children@.take(i as int)) == Result::<MixedFlow, RenderFault>::Ok(
                MixedFlow { units: text_models(units@), flow: flow@, has_block },
            ),
    {
        let ghost state = MixedFlow { units: text_models(units@), flow: flow@, has_block };
        assert(children@.take(i as int + 1).drop_last() =~= children@.take(i as int));
        assert(decreases_to!(children@ => children@[i as int]));
        if let Some(content) = children.get(i) {
            match render_mixed_content(content, flow.is_empty()) {
                Ok(piece) => {
                    let block = match content {
                        ContentRef::Node(ContentNode::Markdown(node)) => node.is_block(),
                        _ => false,
                    };
                    assert(block == is_block_edge(content@));
                    if block {
                        close_flow(&mut units, flow);
                        let ghost closed = units@;
                        units.push(piece);
                        assert(text_models(units@) =~= text_models(closed).push(piece@));
                        flow = Vec::new();
                        assert(flow@ =~= Seq::empty());
                        has_block = true;
                    } else {
                        push_all(&mut flow, &piece);
                    }
                },
                Err(error) => {
                    proof {
                        lemma_mixed_fault(children@, i as int + 1);
                    }
                    return Err(error);
                },
            }
        }
    }
    assert(children@.take(children@.len() as int) =~= children@);
    close_flow(&mut units, flow);
    let many = units.len() > 1;
    let text = join_parts(&units, "\n\n");
    if has_block || many || contains_char(&text, '\n') {
        let mut body: Vec<char> = Vec::new();
        body.push('\n');
        push_all(&mut body, &text);
        body.push('\n');
        assert(body@ =~= seq!['\n'] + text@ + seq!['\n']);
        Ok(body)
    } else {
        Ok(text)
    }
}

fn close_flow(units: &mut Vec<Vec<char>>, flow: Vec<char>)
    ensures
        forall|has_block: bool|
            text_models(final(units)@) == #[trigger] closed_units(
                MixedFlow { units: text_models(old(units)@), flow: flow@, has_block },
            ),
{
    let ghost before = units@;
    if !flow.is_empty() {
        let unit = encode_rendered_indentation(flow);
        units.push(unit);
        assert(text_models(units@) =~= text_models(before).push(unit@));
    }
}

fn render_xml(node: &XmlNode, as_block: bool) -> (result: Result<Vec<char>, PomRenderError>)
    ensures
        renders(result, xml_node_text(node@, as_block)),
    decreases node@, 0int,
{
    let attributes = match render_attributes(node) {
        Ok(attributes) => attributes,
        Err(error) => {
            return Err(error);
        },
    };
    let mut text: Vec<char> = Vec::new();
    text.push('<');
    push_text(&mut text, node.name().as_str());
    push_all(&mut text, &attributes);
    let ghost opening = seq!['<'] + node@.name + attributes@;
    let ghost closing = "</"@ + node@.name + seq!['>'];
    assert(text@ =~= opening);
    let children = node.children();
    assert(decreases_to!(node@ => node@.children));
    if children.is_empty() {
        push_text(&mut text, " />");
        return Ok(text);
    }
    if as_block && element_only_children(children) && !contains_block_markdown(children) {
        match render_elements(children) {
            Ok(elements) => {
                proof {
                    reveal_strlit("\n");
                    assert("\n"@ =~= seq!['\n']);
                }
                let body = join_parts(&elements, "\n");
                push_text(&mut text, ">\n");
                push_all(&mut text, &body);
                text.push('\n');
                push_text(&mut text, "</");
                push_text(&mut text, node.name().as_str());
                text.push('>');
                assert(text@ =~= opening + ">\n"@ + body@ + seq!['\n'] + closing);
                Ok(text)
            },
            Err(error) => Err(error),
        }
    } else {
        match render_mixed_children(children) {
            Ok(body) => {
                text.push('>');
                push_all(&mut text, &body);
                push_text(&mut text, "</");
                push_text(&mut text, node.name().as_str());
                text.push('>');
                assert(text@ =~= opening + seq!['>'] + body@ + closing);
                Ok(text)
            },
            Err(error) => Err(error),
        }
    }
}

/// Renders a slot-free document to canonical Markdown and XML prompt text.
pub fn render_pom_document(document: &ResolvedDocument) -> (result: Result<String, PomRenderError>)
    ensures
        match (result, document_text(document@)) {
            (Ok(text), Ok(expected)) => text@ == expected,
            (Err(error), Err(fault)) => error@ == fault,
            _ => false,
        },
{
    match render_blocks(document.children(), false) {
        Ok(blocks) => Ok(text_of_chars(&join_parts(&blocks, "\n\n"))),
        Err(error) => Err(error),
    }
}

} // verus!
