//! How documents are written.

use vstd::prelude::*;
use crate::pom::markdown::{HeadingLevel, ListKind};
use crate::pom::model::{AttributeModel, EdgeModel, MarkdownModel, NodeModel, XmlModel};
use crate::pom_renderer::{
    attributes_text, block_marker_at, block_text, blocks_text, closed_units, code_block_text,
    code_fence, code_span_text, document_text, edge_holds_block_markdown, element_text,
    elements_text, holds_block_markdown, indentation_encoded,
    indented_lines, inline_piece, inline_text, is_block_edge, is_xml_character, item_blocks,
    item_marker, item_text, items_text, joined, leading_digits, leading_whitespace, list_text,
    markdown_char, markdown_node_text, markdown_prefix, markdown_text, max_run, mixed_body,
    mixed_piece, mixed_text, needs_padding, ordered_delimiter, space_count, strong_text,
    trailing_run, trailing_whitespace, verbatim, xml_attribute, xml_node_text, xml_text, Flow,
    ItemBlock, MixedFlow, RenderFault, Rendered,
};
use crate::text_chars::{decimal, digit, is_whitespace};

verus! {

/// How deep a heading is.
pub open spec fn heading_depth(level: HeadingLevel) -> nat {
    if level == HeadingLevel::H1 {
        1
    } else if level == HeadingLevel::H2 {
        2
    } else if level == HeadingLevel::H3 {
        3
    } else if level == HeadingLevel::H4 {
        4
    } else if level == HeadingLevel::H5 {
        5
    } else {
        6
    }
}

/// A heading is written as its level in `#`, one to six, then a space and its inline text.
/// It fails exactly where that text does, and with the same fault.
pub proof fn law_headings_show_their_level(
    level: HeadingLevel,
    children: Seq<EdgeModel>,
    in_xml: bool,
)
    ensures
        ({
            let written = markdown_node_text(MarkdownModel::Heading { level, children }, in_xml);
            let depth = heading_depth(level) as int;
            match inline_text(children, in_xml, false) {
                Ok(flow) => {
                    &&& written is Ok
                    &&& written->Ok_0.len() == depth + 1 + flow.text.len()
                    &&& forall|i: int| 0 <= i < depth ==> #[trigger] written->Ok_0[i] == '#'
                    &&& written->Ok_0[depth] == ' '
                    &&& written->Ok_0.skip(depth + 1) == flow.text
                },
                Err(fault) => written == Rendered::Err(fault),
            }
        }),
{
    if let Ok(flow) = inline_text(children, in_xml, false) {
        let written = markdown_node_text(MarkdownModel::Heading { level, children }, in_xml);
        let depth = heading_depth(level) as int;
        assert(written->Ok_0.skip(depth + 1) =~= flow.text);
    }
}

/// Headings of different levels are written differently, even with the same content.
pub proof fn law_heading_levels_are_told_apart(
    first: HeadingLevel,
    second: HeadingLevel,
    children: Seq<EdgeModel>,
    in_xml: bool,
)
    requires
        first != second,
        inline_text(children, in_xml, false) is Ok,
    ensures
        markdown_node_text(MarkdownModel::Heading { level: first, children }, in_xml)
            != markdown_node_text(MarkdownModel::Heading { level: second, children }, in_xml),
{
    law_headings_show_their_level(first, children, in_xml);
    law_headings_show_their_level(second, children, in_xml);
    let a = markdown_node_text(MarkdownModel::Heading { level: first, children }, in_xml)->Ok_0;
    let b = markdown_node_text(MarkdownModel::Heading { level: second, children }, in_xml)->Ok_0;
    if a == b {
        assert(a.len() == b.len());
    }
}

/// A thematic break is three dashes, and a paragraph is its inline text, at the start of a
/// block and never indented. Only an empty one fails of itself.
pub proof fn law_paragraphs_are_their_text(children: Seq<EdgeModel>, in_xml: bool)
    ensures
        markdown_node_text(MarkdownModel::ThematicBreak, in_xml) == Rendered::Ok(
            seq!['-', '-', '-'],
        ),
        children.len() == 0 ==> markdown_node_text(MarkdownModel::Paragraph { children }, in_xml)
            == Rendered::Err(RenderFault::EmptyParagraph),
        children.len() > 0 ==> match inline_text(children, in_xml, true) {
            Ok(flow) => markdown_node_text(MarkdownModel::Paragraph { children }, in_xml)
                == Rendered::Ok(indentation_encoded(flow.text)),
            Err(fault) => markdown_node_text(MarkdownModel::Paragraph { children }, in_xml)
                == Rendered::Err(fault),
        },
{
    reveal_strlit("---");
    assert("---"@ =~= seq!['-', '-', '-']);
}

proof fn lemma_whitespace_ends(body: Seq<char>)
    ensures
        leading_whitespace(body) <= body.len(),
        trailing_whitespace(body) <= body.len(),
        forall|i: int| 0 <= i < leading_whitespace(body) ==> is_whitespace(#[trigger] body[i]),
        forall|i: int|
            body.len() - trailing_whitespace(body) <= i < body.len() ==> is_whitespace(
                #[trigger] body[i],
            ),
        leading_whitespace(body) < body.len() ==> !is_whitespace(
            body[leading_whitespace(body) as int],
        ),
        trailing_whitespace(body) < body.len() ==> !is_whitespace(
            body[body.len() - 1 - trailing_whitespace(body)],
        ),
    decreases body.len(),
{
    if body.len() > 0 {
        let tail = body.drop_first();
        let head = body.drop_last();
        lemma_whitespace_ends(tail);
        lemma_whitespace_ends(head);
        if is_whitespace(body[0]) {
            assert forall|i: int| 0 <= i < leading_whitespace(body) implies is_whitespace(
                #[trigger] body[i],
            ) by {
                if i > 0 {
                    assert(body[i] == tail[i - 1]);
                }
            }
            if leading_whitespace(body) < body.len() {
                assert(body[leading_whitespace(body) as int] == tail[leading_whitespace(
                    tail,
                ) as int]);
            }
        }
        if is_whitespace(body.last()) {
            assert forall|i: int|
                body.len() - trailing_whitespace(body) <= i < body.len() implies is_whitespace(
                #[trigger] body[i],
            ) by {
                if i < head.len() {
                    assert(body[i] == head[i]);
                }
            }
            if trailing_whitespace(body) < body.len() {
                assert(body[body.len() - 1 - trailing_whitespace(body)] == head[head.len() - 1
                    - trailing_whitespace(head)]);
            }
        }
    }
}

/// Strong text stands between two stars on each side, and these touch no whitespace: the
/// whitespace at either end of the content is left outside. Content without anything else
/// fails.
pub proof fn law_strong_text_hugs_its_content(body: Seq<char>)
    ensures
        strong_text(body) is Err <==> forall|i: int|
            0 <= i < body.len() ==> is_whitespace(#[trigger] body[i]),
        strong_text(body) is Err ==> strong_text(body) == Rendered::Err(
            RenderFault::StrongContent,
        ),
        strong_text(body) is Ok ==> exists|start: int, end: int|
            0 <= start < end <= body.len() && !is_whitespace(body[start]) && !is_whitespace(
                body[end - 1],
            ) && (forall|i: int| 0 <= i < start ==> is_whitespace(#[trigger] body[i])) && (forall|
                i: int,
            |
                end <= i < body.len() ==> is_whitespace(#[trigger] body[i])) && strong_text(body)
                == Rendered::Ok(
                #[trigger] body.take(start) + seq!['*', '*'] + body.subrange(start, end) + seq![
                    '*',
                    '*',
                ] + #[trigger] body.skip(end),
            ),
{
    lemma_whitespace_ends(body);
    reveal_strlit("**");
    assert("**"@ =~= seq!['*', '*']);
    let start = leading_whitespace(body) as int;
    let end = body.len() - trailing_whitespace(body);
    if start < body.len() {
        assert(!is_whitespace(body[start]));
        if end <= start {
            assert(is_whitespace(body[start]));
        }
        let text = body.take(start) + seq!['*', '*'] + body.subrange(start, end) + seq!['*', '*']
            + body.skip(end);
        assert(strong_text(body) == Rendered::Ok(text));
        assert(trailing_whitespace(body) < body.len());
        assert(!is_whitespace(body[end - 1]));
    }
}

proof fn lemma_longest_run(value: Seq<char>, c: char)
    ensures
        trailing_run(value, c) <= value.len(),
        forall|i: int|
            value.len() - trailing_run(value, c) <= i < value.len() ==> #[trigger] value[i] == c,
        max_run(value, c) >= trailing_run(value, c),
        exists|start: int, end: int| #[trigger]
            is_run(value, c, start, end) && end - start == max_run(value, c),
    decreases value.len(),
{
    if value.len() == 0 {
        assert(is_run(value, c, 0, 0));
    } else {
        let before = value.drop_last();
        lemma_longest_run(before, c);
        assert forall|i: int|
            value.len() - trailing_run(value, c) <= i < value.len() implies #[trigger] value[i]
            == c by {
            if i < before.len() {
                assert(value[i] == before[i]);
            }
        }
        if trailing_run(value, c) > max_run(before, c) {
            assert(is_run(value, c, value.len() - trailing_run(value, c), value.len() as int));
        } else {
            let (start, end) = choose|start: int, end: int| #[trigger]
                is_run(before, c, start, end) && end - start == max_run(before, c);
            assert forall|i: int| start <= i < end implies #[trigger] value[i] == c by {
                assert(before[i] == c);
            }
            assert(is_run(value, c, start, end));
        }
    }
}

/// Whether a stretch of a text is made of one character alone.
pub open spec fn is_run(value: Seq<char>, c: char, start: int, end: int) -> bool {
    0 <= start <= end <= value.len() && forall|i: int| start <= i < end ==> #[trigger] value[i] == c
}

proof fn lemma_run_bound(value: Seq<char>, c: char, start: int, end: int)
    requires
        is_run(value, c, start, end),
    ensures
        end - start <= max_run(value, c),
        end == value.len() ==> end - start <= trailing_run(value, c),
    decreases value.len(),
{
    if value.len() > 0 && start < end {
        let before = value.drop_last();
        lemma_longest_run(value, c);
        if end < value.len() {
            assert(is_run(before, c, start, end));
            lemma_run_bound(before, c, start, end);
        } else {
            assert(value[end - 1] == c);
            assert(is_run(before, c, start, end - 1));
            lemma_run_bound(before, c, start, end - 1);
        }
    }
}

/// A run of a character is the longest exactly where there is such a run and no longer one.
pub proof fn law_longest_runs_are_measured(value: Seq<char>, c: char)
    ensures
        forall|start: int, end: int| #[trigger]
            is_run(value, c, start, end) ==> end - start <= max_run(value, c),
        exists|start: int, end: int| #[trigger]
            is_run(value, c, start, end) && end - start == max_run(value, c),
{
    lemma_longest_run(value, c);
    assert forall|start: int, end: int| #[trigger] is_run(value, c, start, end) implies end - start
        <= max_run(value, c) by {
        lemma_run_bound(value, c, start, end);
    }
}

/// Whether a text is one character, again and again.
pub open spec fn is_made_of(text: Seq<char>, c: char) -> bool {
    forall|i: int| 0 <= i < text.len() ==> #[trigger] text[i] == c
}

/// A code span stands between backticks, one more than the longest run of them in its
/// body. A space on each side keeps the body off them where it starts or ends with one, or
/// where it starts and ends with a space and has something else. A body that is empty or
/// breaks the line fails.
pub proof fn law_code_spans_cannot_be_closed_early(raw: Seq<char>)
    ensures
        code_span_text(raw, false) is Err <==> raw.len() == 0 || raw.contains('\n')
            || raw.contains('\r'),
        code_span_text(raw, true) is Err <==> raw.len() == 0 || raw.contains('\n') || raw.contains(
            '\r',
        ) || xml_text(raw) is Err,
        raw.len() == 0 || raw.contains('\n') || raw.contains('\r') ==> code_span_text(raw, false)
            == Rendered::Err(RenderFault::CodeSpanBody(raw)) && code_span_text(raw, true)
            == Rendered::Err(RenderFault::CodeSpanBody(raw)),
        forall|in_xml: bool| #[trigger]
            code_span_text(raw, in_xml) is Ok ==> exists|ticks: Seq<char>| #[trigger]
                is_made_of(ticks, '`') && ticks.len() == max_run(raw, '`') + 1 && ({
                    let body = if in_xml {
                        xml_text(raw)->Ok_0
                    } else {
                        raw
                    };
                    let kept_off = raw[0] == '`' || raw.last() == '`' || (raw[0] == ' '
                        && raw.last() == ' ' && !is_made_of(raw, ' '));
                    code_span_text(raw, in_xml)->Ok_0 == if kept_off {
                        ticks + seq![' '] + body + seq![' '] + ticks
                    } else {
                        ticks + body + ticks
                    }
                }),
{
    assert forall|in_xml: bool| #[trigger] code_span_text(raw, in_xml) is Ok implies exists|
        ticks: Seq<char>,
    | #[trigger]
        is_made_of(ticks, '`') && ticks.len() == max_run(raw, '`') + 1 && ({
            let body = if in_xml {
                xml_text(raw)->Ok_0
            } else {
                raw
            };
            let kept_off = raw[0] == '`' || raw.last() == '`' || (raw[0] == ' ' && raw.last() == ' '
                && !is_made_of(raw, ' '));
            code_span_text(raw, in_xml)->Ok_0 == if kept_off {
                ticks + seq![' '] + body + seq![' '] + ticks
            } else {
                ticks + body + ticks
            }
        }) by {
        let ticks = crate::text_chars::repeated('`', max_run(raw, '`') + 1);
        assert(is_made_of(ticks, '`'));
        assert(needs_padding(raw) == (raw[0] == '`' || raw.last() == '`' || (raw[0] == ' '
            && raw.last() == ' ' && !is_made_of(raw, ' '))));
    }
}

/// A code block stands between two fences of tildes: three, or one more than the longest
/// run of them in its body, whichever is more. The language stands behind the first, and
/// the body has its own lines, exactly as it is.
pub proof fn law_code_blocks_keep_their_body(
    language: Option<Seq<char>>,
    body: Seq<char>,
    in_xml: bool,
)
    ensures
        is_made_of(code_fence(body), '~'),
        code_fence(body).len() >= 3,
        code_fence(body).len() > max_run(body, '~'),
        code_fence(body).len() == 3 || code_fence(body).len() == max_run(body, '~') + 1,
        code_block_text(language, body, in_xml) is Ok <==> {
            &&& language is Some ==> language->Some_0.len() > 0 && (forall|i: int|
                0 <= i < language->Some_0.len() ==> !is_whitespace(#[trigger] language->Some_0[i]))
            &&& in_xml ==> xml_text(body) is Ok
            &&& in_xml && language is Some ==> xml_text(language->Some_0) is Ok
        },
        language is Some && !(language->Some_0.len() > 0 && (forall|i: int|
            0 <= i < language->Some_0.len() ==> !is_whitespace(#[trigger] language->Some_0[i])))
            ==> code_block_text(language, body, in_xml) == Rendered::Err(
            RenderFault::CodeBlockLanguage(language->Some_0),
        ),
        code_block_text(language, body, in_xml) is Ok ==> ({
            let shown = if in_xml {
                xml_text(body)->Ok_0
            } else {
                body
            };
            let label = match language {
                Some(language) => seq![' '] + if in_xml {
                    xml_text(language)->Ok_0
                } else {
                    language
                },
                None => Seq::empty(),
            };
            let end = if shown.len() > 0 && shown.last() != '\n' {
                seq!['\n']
            } else {
                Seq::empty()
            };
            code_block_text(language, body, in_xml)->Ok_0 == code_fence(body) + label + seq!['\n']
                + shown + end + code_fence(body)
        }),
{
}

/// Texts are joined in order, with the separator between neighbours and nowhere else.
pub proof fn law_joining_keeps_the_order(
    first: Seq<Seq<char>>,
    second: Seq<Seq<char>>,
    separator: Seq<char>,
    one: Seq<char>,
)
    requires
        first.len() > 0,
        second.len() > 0,
    ensures
        joined(first + second, separator) == joined(first, separator) + separator + joined(
            second,
            separator,
        ),
        joined(seq![one], separator) == one,
        joined(Seq::empty(), separator) == Seq::<char>::empty(),
    decreases second.len(),
{
    let all = first + second;
    if second.len() == 1 {
        assert(all.drop_last() =~= first);
        assert(all.last() == second[0]);
    } else {
        let rest = second.drop_last();
        law_joining_keeps_the_order(first, rest, separator, one);
        assert(all.drop_last() =~= first + rest);
        assert(all.last() == second.last());
        assert(joined(first, separator) + separator + joined(rest, separator) + separator
            + second.last() =~= joined(first, separator) + separator + (joined(rest, separator)
            + separator + second.last()));
    }
}

/// Indenting goes line by line: what comes behind a line break is indented as if it stood
/// alone and its first line counted.
pub proof fn law_lines_are_indented_one_by_one(
    first: Seq<char>,
    second: Seq<char>,
    indent: Seq<char>,
    from_the_first: bool,
)
    ensures
        indented_lines(first + seq!['\n'] + second, indent, from_the_first) == indented_lines(
            first,
            indent,
            from_the_first,
        ) + seq!['\n'] + indented_lines(second, indent, true),
    decreases second.len(),
{
    let head = first + seq!['\n'];
    let all = head + second;
    if second.len() == 0 {
        assert(all =~= head);
        assert(head.drop_last() =~= first);
        assert(indented_lines(first, indent, from_the_first) + seq!['\n'] + Seq::<char>::empty()
            =~= indented_lines(first, indent, from_the_first) + seq!['\n']);
    } else {
        let rest = second.drop_last();
        law_lines_are_indented_one_by_one(first, rest, indent, from_the_first);
        assert(all.drop_last() =~= head + rest);
        assert(all.last() == second.last());
        if rest.len() > 0 {
            assert(all[all.len() - 2] == second[second.len() - 2]);
        } else {
            assert(all[all.len() - 2] == '\n');
        }
        let before = indented_lines(first, indent, from_the_first) + seq!['\n'];
        let inner = indented_lines(rest, indent, true);
        assert(before + inner + indent + seq![second.last()] =~= before + (inner + indent + seq![
            second.last(),
        ]));
        assert(before + inner + seq![second.last()] =~= before + (inner + seq![second.last()]));
    }
}

/// A line that holds something is indented, except the first one where it is not asked
/// for; an empty line is left empty.
pub proof fn law_only_lines_with_something_are_indented(
    line: Seq<char>,
    indent: Seq<char>,
    first: bool,
)
    requires
        !line.contains('\n'),
    ensures
        indented_lines(line, indent, first) == if first && line.len() > 0 {
            indent + line
        } else {
            line
        },
    decreases line.len(),
{
    if line.len() > 0 {
        let rest = line.drop_last();
        assert forall|i: int| 0 <= i < rest.len() implies rest[i] != '\n' by {
            assert(line.contains(line[i]));
        }
        law_only_lines_with_something_are_indented(rest, indent, first);
        assert(line.contains(line[line.len() - 1]));
        if line.len() > 1 {
            assert(line.contains(line[line.len() - 2]));
        }
        assert(rest + seq![line.last()] =~= line);
        assert(indent + rest + seq![line.last()] =~= indent + line);
        assert(Seq::<char>::empty() + indent + seq![line.last()] =~= indent + line || rest.len() > 0);
    } else {
        assert(line =~= Seq::empty());
    }
}

/// The number that decimal digits stand for.
pub open spec fn number_of(digits: Seq<char>) -> nat
    decreases digits.len(),
{
    if digits.len() == 0 {
        0
    } else {
        (10 * number_of(digits.drop_last()) + (digits.last() as u32 - '0' as u32)) as nat
    }
}

/// A number is written in decimal digits, which stand for it, without a zero in front.
pub proof fn law_numbers_read_back(number: nat)
    ensures
        number_of(decimal(number)) == number,
        decimal(number).len() > 0,
        forall|i: int|
            0 <= i < decimal(number).len() ==> '0' <= #[trigger] decimal(number)[i] <= '9',
        decimal(number).len() > 1 ==> decimal(number)[0] != '0',
    decreases number,
{
    assert(forall|value: nat| value < 10 ==> #[trigger] digit(value) as u32 == 0x30 + value);
    if number < 10 {
        assert(decimal(number).drop_last() =~= Seq::empty());
        assert(number_of(decimal(number).drop_last()) == 0);
    } else {
        law_numbers_read_back(number / 10);
        assert(decimal(number).drop_last() =~= decimal(number / 10));
        if decimal(number / 10).len() == 1 {
            assert(number / 10 < 10) by {
                if number / 10 >= 10 {
                    law_numbers_read_back(number / 10 / 10);
                }
            }
            assert(number / 10 > 0);
        }
    }
}

/// The items of a list are marked by a dash, or by consecutive numbers from its start with
/// a dot, as long as these have at most nine digits.
pub proof fn law_list_items_are_marked(start: u64, index: int)
    requires
        0 <= index,
    ensures
        item_marker(ListKind::Unordered, index) == seq!['-'],
        item_marker(ListKind::Ordered { start }, index).last() == '.',
        start + index < 1_000_000_000 ==> number_of(
            item_marker(ListKind::Ordered { start }, index).drop_last(),
        ) == start + index,
        start + index >= 1_000_000_000 ==> number_of(
            item_marker(ListKind::Ordered { start }, index).drop_last(),
        ) == start,
{
    let number = crate::pom_renderer::item_number(start, index);
    law_numbers_read_back(number);
    assert(item_marker(ListKind::Ordered { start }, index).drop_last() =~= decimal(number));
}

/// An item's marker comes first, then its blocks, with an empty line between them and
/// indented to stand behind the marker. The first block shares the marker's line unless it
/// must stand apart.
pub proof fn law_items_stand_behind_their_marker(marker: Seq<char>, blocks: Seq<ItemBlock>)
    ensures
        blocks.len() == 0 ==> item_text(marker, blocks) == marker,
        blocks.len() > 0 ==> exists|indent: Seq<char>| #[trigger]
            is_made_of(indent, ' ') && indent.len() == marker.len() + 1 && item_text(marker, blocks)
                == marker + (if blocks[0].separate {
                seq!['\n'] + indented_lines(blocks[0].text, indent, true)
            } else {
                seq![' '] + indented_lines(blocks[0].text, indent, false)
            }) + later_blocks(blocks.drop_first(), indent),
{
    if blocks.len() > 0 {
        let indent = crate::text_chars::repeated(' ', marker.len() + 1);
        assert(is_made_of(indent, ' '));
        lemma_item_blocks(marker, blocks);
    }
}

/// Blocks behind another one, each after an empty line and indented.
pub open spec fn later_blocks(blocks: Seq<ItemBlock>, indent: Seq<char>) -> Seq<char>
    decreases blocks.len(),
{
    if blocks.len() == 0 {
        Seq::empty()
    } else {
        seq!['\n', '\n'] + indented_lines(blocks[0].text, indent, true) + later_blocks(
            blocks.drop_first(),
            indent,
        )
    }
}

proof fn lemma_later_blocks(blocks: Seq<ItemBlock>, last: ItemBlock, indent: Seq<char>)
    ensures
        later_blocks(blocks.push(last), indent) == later_blocks(blocks, indent) + (seq!['\n', '\n']
            + indented_lines(last.text, indent, true)),
    decreases blocks.len(),
{
    let all = blocks.push(last);
    let added = seq!['\n', '\n'] + indented_lines(last.text, indent, true);
    if blocks.len() == 0 {
        assert(all.drop_first() =~= Seq::empty());
        assert(later_blocks(all.drop_first(), indent) =~= Seq::empty());
        assert(added + Seq::<char>::empty() =~= Seq::<char>::empty() + added);
    } else {
        assert(all.drop_first() =~= blocks.drop_first().push(last));
        lemma_later_blocks(blocks.drop_first(), last, indent);
        let first = seq!['\n', '\n'] + indented_lines(blocks[0].text, indent, true);
        let rest = later_blocks(blocks.drop_first(), indent);
        assert(first + (rest + added) =~= first + rest + added);
    }
}

proof fn lemma_item_blocks(marker: Seq<char>, blocks: Seq<ItemBlock>)
    requires
        blocks.len() > 0,
    ensures
        ({
            let indent = crate::text_chars::repeated(' ', marker.len() + 1);
            item_text(marker, blocks) == marker + (if blocks[0].separate {
                seq!['\n'] + indented_lines(blocks[0].text, indent, true)
            } else {
                seq![' '] + indented_lines(blocks[0].text, indent, false)
            }) + later_blocks(blocks.drop_first(), indent)
        }),
    decreases blocks.len(),
{
    let indent = crate::text_chars::repeated(' ', marker.len() + 1);
    let opening = if blocks[0].separate {
        seq!['\n'] + indented_lines(blocks[0].text, indent, true)
    } else {
        seq![' '] + indented_lines(blocks[0].text, indent, false)
    };
    if blocks.len() == 1 {
        assert(blocks.drop_first() =~= Seq::empty());
        assert(later_blocks(blocks.drop_first(), indent) =~= Seq::empty());
        if blocks[0].separate {
            assert(marker + seq!['\n'] + indented_lines(blocks[0].text, indent, true) =~= marker
                + opening + Seq::<char>::empty());
        } else {
            assert(marker + seq![' '] + indented_lines(blocks[0].text, indent, false) =~= marker
                + opening + Seq::<char>::empty());
        }
    } else {
        let before = blocks.drop_last();
        lemma_item_blocks(marker, before);
        lemma_later_blocks(before.drop_first(), blocks.last(), indent);
        assert(before.drop_first().push(blocks.last()) =~= blocks.drop_first());
        reveal_strlit("\n\n");
        assert("\n\n"@ =~= seq!['\n', '\n']);
        let rest = later_blocks(before.drop_first(), indent);
        let added = indented_lines(blocks.last().text, indent, true);
        assert(marker + opening + rest + seq!['\n', '\n'] + added =~= marker + opening + (rest + (
        seq!['\n', '\n'] + added)));
    }
}

/// Attributes are written in order, each behind a space as its name, an equals sign and its
/// escaped value between double quotes.
pub proof fn law_attributes_are_quoted(first: Seq<AttributeModel>, last: AttributeModel)
    ensures
        attributes_text(Seq::empty()) == Rendered::Ok(Seq::empty()),
        attributes_text(first) is Ok && xml_attribute(last.value) is Ok ==> attributes_text(
            first.push(last),
        ) == Rendered::Ok(
            attributes_text(first)->Ok_0 + seq![' '] + last.name + seq!['=', '"'] + xml_attribute(
                last.value,
            )->Ok_0 + seq!['"'],
        ),
        attributes_text(first.push(last)) is Ok <==> attributes_text(first) is Ok && xml_attribute(
            last.value,
        ) is Ok,
{
    assert(first.push(last).drop_last() =~= first);
    reveal_strlit("=\"");
    assert("=\""@ =~= seq!['=', '"']);
}

/// An element is its name and attributes between angle brackets, closed at once where it
/// has no children, and otherwise by an end tag of the same name behind its content. It
/// fails exactly where its attributes or its content do.
pub proof fn law_elements_are_tagged(node: XmlModel, as_block: bool)
    ensures
        ({
            let written = xml_node_text(node, as_block);
            let attributes = attributes_text(node.attributes);
            let only_elements = forall|i: int|
                0 <= i < node.children.len() ==> (#[trigger] node.children[i]) is Node
                    && node.children[i]->Node_0 is Xml;
            let on_lines = as_block && only_elements && !holds_block_markdown(
                node.children,
            );
            let opening = seq!['<'] + node.name + attributes->Ok_0;
            let closing = seq!['<', '/'] + node.name + seq!['>'];
            &&& attributes is Err ==> written == Rendered::Err(attributes->Err_0)
            &&& attributes is Ok && node.children.len() == 0 ==> written == Rendered::Ok(
                opening + seq![' ', '/', '>'],
            )
            &&& attributes is Ok && node.children.len() > 0 && on_lines ==> match elements_text(
                node.children,
            ) {
                Ok(elements) => written == Rendered::Ok(
                    opening + seq!['>', '\n'] + joined(elements, seq!['\n']) + seq!['\n'] + closing,
                ),
                Err(fault) => written == Rendered::Err(fault),
            }
            &&& attributes is Ok && node.children.len() > 0 && !on_lines ==> match mixed_text(
                node.children,
            ) {
                Ok(state) => written == Rendered::Ok(
                    opening + seq!['>'] + mixed_body(state) + closing,
                ),
                Err(fault) => written == Rendered::Err(fault),
            }
        }),
{
    reveal_strlit("</");
    reveal_strlit(" />");
    reveal_strlit(">\n");
    assert("</"@ =~= seq!['<', '/']);
    assert(" />"@ =~= seq![' ', '/', '>']);
    assert(">\n"@ =~= seq!['>', '\n']);
    assert(crate::pom_renderer::element_only(node.children) == forall|i: int|
        0 <= i < node.children.len() ==> (#[trigger] node.children[i]) is Node
            && node.children[i]->Node_0 is Xml);
}

/// Child elements on their own lines are all there, in order, each indented by two spaces.
pub proof fn law_child_elements_stand_on_their_lines(children: Seq<EdgeModel>)
    requires
        forall|i: int|
            0 <= i < children.len() ==> (#[trigger] children[i]) is Node
                && children[i]->Node_0 is Xml,
    ensures
        elements_text(children) is Ok <==> forall|i: int|
            0 <= i < children.len() ==> xml_node_text(
                (#[trigger] children[i])->Node_0->Xml_0,
                true,
            ) is Ok,
        elements_text(children) is Ok ==> elements_text(children)->Ok_0.len() == children.len(),
        elements_text(children) is Ok ==> forall|i: int|
            0 <= i < children.len() ==> #[trigger] elements_text(children)->Ok_0[i]
                == indented_lines(
                xml_node_text(children[i]->Node_0->Xml_0, true)->Ok_0,
                seq![' ', ' '],
                true,
            ),
    decreases children.len(),
{
    reveal_strlit("  ");
    assert("  "@ =~= seq![' ', ' ']);
    if children.len() > 0 {
        let before = children.drop_last();
        assert forall|i: int| 0 <= i < before.len() implies (#[trigger] before[i]) is Node
            && before[i]->Node_0 is Xml by {
            assert(children[i] is Node);
        }
        law_child_elements_stand_on_their_lines(before);
        assert(children[children.len() - 1] is Node);
        assert(element_text(children.last()) == xml_node_text(
            children.last()->Node_0->Xml_0,
            true,
        ));
        if elements_text(children) is Ok {
            assert forall|i: int| 0 <= i < children.len() implies xml_node_text(
                (#[trigger] children[i])->Node_0->Xml_0,
                true,
            ) is Ok by {
                if i < before.len() {
                    assert(before[i] == children[i]);
                }
            }
            assert forall|i: int| 0 <= i < children.len() implies #[trigger] elements_text(
                children,
            )->Ok_0[i] == indented_lines(
                xml_node_text(children[i]->Node_0->Xml_0, true)->Ok_0,
                seq![' ', ' '],
                true,
            ) by {
                if i < before.len() {
                    assert(before[i] == children[i]);
                    assert(elements_text(children)->Ok_0[i] == elements_text(before)->Ok_0[i]);
                }
            }
        }
        if forall|i: int|
            0 <= i < children.len() ==> xml_node_text(
                (#[trigger] children[i])->Node_0->Xml_0,
                true,
            ) is Ok {
            assert forall|i: int| 0 <= i < before.len() implies xml_node_text(
                (#[trigger] before[i])->Node_0->Xml_0,
                true,
            ) is Ok by {
                assert(before[i] == children[i]);
            }
        }
    }
}

/// A document is written block by block, in order, with an empty line between neighbours.
/// It fails exactly where a block does, with the first failure.
pub proof fn law_documents_are_their_blocks(children: Seq<EdgeModel>)
    ensures
        blocks_text(children, false) is Ok ==> document_text(children) == Rendered::Ok(
            joined(blocks_text(children, false)->Ok_0, seq!['\n', '\n']),
        ),
        blocks_text(children, false) is Err ==> document_text(children) == Rendered::Err(
            blocks_text(children, false)->Err_0,
        ),
{
    reveal_strlit("\n\n");
    assert("\n\n"@ =~= seq!['\n', '\n']);
}

/// Every block is there, at its place, or the first that fails stands for all.
pub proof fn law_every_block_is_written(children: Seq<EdgeModel>, in_xml: bool)
    ensures
        blocks_text(children, in_xml) is Ok <==> forall|i: int|
            0 <= i < children.len() ==> block_text(#[trigger] children[i], in_xml) is Ok,
        blocks_text(children, in_xml) is Ok ==> blocks_text(children, in_xml)->Ok_0.len()
            == children.len(),
        blocks_text(children, in_xml) is Ok ==> forall|i: int|
            0 <= i < children.len() ==> block_text(children[i], in_xml) == Rendered::Ok(
                #[trigger] blocks_text(children, in_xml)->Ok_0[i],
            ),
        blocks_text(children, in_xml) is Err ==> exists|at: int|
            0 <= at < children.len() && block_text(#[trigger] children[at], in_xml)
                == Rendered::Err(blocks_text(children, in_xml)->Err_0) && forall|i: int|
                0 <= i < at ==> block_text(#[trigger] children[i], in_xml) is Ok,
    decreases children.len(),
{
    if children.len() > 0 {
        let before = children.drop_last();
        law_every_block_is_written(before, in_xml);
        let last = children.len() - 1;
        assert(children[last] == children.last());
        assert(forall|i: int| 0 <= i < before.len() ==> #[trigger] before[i] == children[i]);
        if blocks_text(before, in_xml) is Ok {
            assert forall|i: int| 0 <= i < last implies block_text(
                #[trigger] children[i],
                in_xml,
            ) is Ok by {
                assert(before[i] == children[i]);
            }
            if block_text(children.last(), in_xml) is Ok {
                let texts = blocks_text(children, in_xml)->Ok_0;
                assert forall|i: int| 0 <= i < children.len() implies block_text(
                    children[i],
                    in_xml,
                ) == Rendered::Ok(#[trigger] texts[i]) by {
                    if i < last {
                        assert(before[i] == children[i]);
                        assert(texts[i] == blocks_text(before, in_xml)->Ok_0[i]);
                    }
                }
                assert forall|i: int| 0 <= i < children.len() implies block_text(
                    #[trigger] children[i],
                    in_xml,
                ) is Ok by {
                    assert(block_text(children[i], in_xml) == Rendered::Ok(texts[i]));
                }
            }
        } else {
            let at = choose|at: int|
                0 <= at < before.len() && block_text(#[trigger] before[at], in_xml)
                    == Rendered::Err(blocks_text(before, in_xml)->Err_0) && forall|i: int|
                    0 <= i < at ==> block_text(#[trigger] before[i], in_xml) is Ok;
            assert(children[at] == before[at]);
            assert forall|i: int| 0 <= i < at implies block_text(
                #[trigger] children[i],
                in_xml,
            ) is Ok by {
                assert(before[i] == children[i]);
            }
        }
    }
}

/// A block is what it is: Markdown as Markdown, an element as a block of its own unless it
/// stands inside another, and raw text as it is, escaped inside XML alone.
pub proof fn law_blocks_are_written_by_kind(
    markdown: MarkdownModel,
    xml: XmlModel,
    raw: Seq<char>,
    in_xml: bool,
)
    ensures
        block_text(EdgeModel::Node(NodeModel::Markdown(markdown)), in_xml) == markdown_node_text(
            markdown,
            in_xml,
        ),
        block_text(EdgeModel::Node(NodeModel::Xml(xml)), in_xml) == xml_node_text(xml, !in_xml),
        block_text(EdgeModel::Node(NodeModel::RawText(raw)), false) == Rendered::Ok(raw),
        block_text(EdgeModel::Node(NodeModel::RawText(raw)), true) == xml_text(raw),
{
}

/// Inline content is written piece by piece, in order, and what follows a line break is
/// written as the start of a block.
pub proof fn law_inline_text_is_its_pieces(
    before: Seq<EdgeModel>,
    last: EdgeModel,
    in_xml: bool,
    starts_block: bool,
)
    ensures
        inline_text(Seq::empty(), in_xml, starts_block) == Ok::<Flow, RenderFault>(
            Flow { text: Seq::empty(), at_start: starts_block },
        ),
        match inline_text(before, in_xml, starts_block) {
            Ok(flow) => match inline_piece(last, in_xml, flow.at_start) {
                Ok(piece) => {
                    let all = inline_text(before.push(last), in_xml, starts_block);
                    &&& all is Ok
                    &&& all->Ok_0.text == flow.text + piece
                    &&& all->Ok_0.at_start == (piece.len() > 0 && piece.last() == '\n')
                },
                Err(fault) => inline_text(before.push(last), in_xml, starts_block) == Err::<
                    Flow,
                    RenderFault,
                >(fault),
            },
            Err(fault) => inline_text(before.push(last), in_xml, starts_block) == Err::<
                Flow,
                RenderFault,
            >(fault),
        },
{
    assert(before.push(last).drop_last() =~= before);
}

/// A piece of inline content is what it is: text is escaped, Markdown is Markdown, and an
/// element stands in the line.
pub proof fn law_inline_pieces_are_written_by_kind(
    text: Seq<char>,
    markdown: MarkdownModel,
    xml: XmlModel,
    in_xml: bool,
    at_start: bool,
)
    ensures
        inline_piece(EdgeModel::Node(NodeModel::Text(text)), in_xml, at_start) == markdown_text(
            text,
            in_xml,
            at_start,
        ),
        inline_piece(EdgeModel::Node(NodeModel::Markdown(markdown)), in_xml, at_start)
            == markdown_node_text(markdown, in_xml),
        inline_piece(EdgeModel::Node(NodeModel::Xml(xml)), in_xml, at_start) == xml_node_text(
            xml,
            false,
        ),
        mixed_piece(EdgeModel::Node(NodeModel::Text(text)), at_start) == markdown_text(
            text,
            true,
            at_start,
        ),
        mixed_piece(EdgeModel::Node(NodeModel::RawText(text)), at_start) == xml_text(text),
        mixed_piece(EdgeModel::Node(NodeModel::Markdown(markdown)), at_start)
            == markdown_node_text(markdown, true),
        mixed_piece(EdgeModel::Node(NodeModel::Xml(xml)), at_start) == xml_node_text(xml, false),
{
}

/// The content of strong text and of lists.
pub proof fn law_markdown_is_written_by_kind(
    children: Seq<EdgeModel>,
    items: Seq<Seq<EdgeModel>>,
    kind: ListKind,
    body: Seq<char>,
    language: Option<Seq<char>>,
    in_xml: bool,
)
    ensures
        match inline_text(children, in_xml, false) {
            Ok(flow) => markdown_node_text(MarkdownModel::Strong { children }, in_xml)
                == strong_text(flow.text),
            Err(fault) => markdown_node_text(MarkdownModel::Strong { children }, in_xml)
                == Rendered::Err(fault),
        },
        markdown_node_text(MarkdownModel::List { kind, items }, in_xml) == list_text(
            items,
            kind,
            in_xml,
        ),
        markdown_node_text(MarkdownModel::CodeBlock { language, body }, in_xml) == code_block_text(
            language,
            body,
            in_xml,
        ),
        markdown_node_text(MarkdownModel::CodeSpan { body }, in_xml) == code_span_text(
            body,
            in_xml,
        ),
        items.len() == 0 ==> list_text(items, kind, in_xml) == Rendered::Err(
            RenderFault::EmptyList,
        ),
        items.len() > 0 && kind is Ordered && kind->start >= 1_000_000_000 ==> list_text(
            items,
            kind,
            in_xml,
        ) == Rendered::Err(RenderFault::OrderedListMarker(kind->start, 0)),
        items.len() > 0 && (kind is Ordered ==> kind->start < 1_000_000_000) ==> match items_text(
            items,
            kind,
            in_xml,
        ) {
            Ok(texts) => list_text(items, kind, in_xml) == Rendered::Ok(joined(texts, seq!['\n'])),
            Err(fault) => list_text(items, kind, in_xml) == Rendered::Err(fault),
        },
{
}

/// Every item of a list is there, at its place, behind the marker of that place.
pub proof fn law_every_item_is_written(
    items: Seq<Seq<EdgeModel>>,
    kind: ListKind,
    in_xml: bool,
)
    ensures
        items_text(items, kind, in_xml) is Ok <==> forall|i: int|
            0 <= i < items.len() ==> item_blocks(#[trigger] items[i], in_xml) is Ok,
        items_text(items, kind, in_xml) is Ok ==> items_text(items, kind, in_xml)->Ok_0.len()
            == items.len(),
        items_text(items, kind, in_xml) is Ok ==> forall|i: int|
            0 <= i < items.len() ==> #[trigger] items_text(items, kind, in_xml)->Ok_0[i]
                == item_text(item_marker(kind, i), item_blocks(items[i], in_xml)->Ok_0),
    decreases items.len(),
{
    if items.len() > 0 {
        let before = items.drop_last();
        law_every_item_is_written(before, kind, in_xml);
        let last = items.len() - 1;
        assert(items[last] == items.last());
        if items_text(before, kind, in_xml) is Ok {
            assert forall|i: int| 0 <= i < last implies item_blocks(
                #[trigger] items[i],
                in_xml,
            ) is Ok by {
                assert(before[i] == items[i]);
            }
            if item_blocks(items.last(), in_xml) is Ok {
                let texts = items_text(items, kind, in_xml)->Ok_0;
                assert forall|i: int| 0 <= i < items.len() implies #[trigger] texts[i] == item_text(
                    item_marker(kind, i),
                    item_blocks(items[i], in_xml)->Ok_0,
                ) by {
                    if i < last {
                        assert(before[i] == items[i]);
                        assert(texts[i] == items_text(before, kind, in_xml)->Ok_0[i]);
                    }
                }
            }
        } else {
            let at = choose|i: int|
                0 <= i < before.len() && !(item_blocks(#[trigger] before[i], in_xml) is Ok);
            assert(items[at] == before[at]);
        }
    }
}

/// The blocks of an item are those that are not empty, in order. Only a thematic break must
/// not share the marker's line.
pub proof fn law_items_leave_empty_blocks_out(before: Seq<EdgeModel>, last: EdgeModel, in_xml: bool)
    requires
        item_blocks(before, in_xml) is Ok,
        block_text(last, in_xml) is Ok,
    ensures
        item_blocks(Seq::empty(), in_xml) == Ok::<_, RenderFault>(Seq::<ItemBlock>::empty()),
        item_blocks(before.push(last), in_xml) is Ok,
        block_text(last, in_xml)->Ok_0.len() == 0 ==> item_blocks(before.push(last), in_xml)->Ok_0
            == item_blocks(before, in_xml)->Ok_0,
        block_text(last, in_xml)->Ok_0.len() > 0 ==> ({
            let blocks = item_blocks(before.push(last), in_xml)->Ok_0;
            &&& blocks.len() == item_blocks(before, in_xml)->Ok_0.len() + 1
            &&& blocks.drop_last() == item_blocks(before, in_xml)->Ok_0
            &&& blocks.last().text == block_text(last, in_xml)->Ok_0
            &&& blocks.last().separate <==> last == EdgeModel::Node(
                NodeModel::Markdown(MarkdownModel::ThematicBreak),
            )
        }),
{
    assert(before.push(last).drop_last() =~= before);
    if block_text(last, in_xml)->Ok_0.len() > 0 {
        assert(item_blocks(before.push(last), in_xml)->Ok_0.drop_last() =~= item_blocks(
            before,
            in_xml,
        )->Ok_0);
    }
}

/// Whether an edge is Markdown that stands as a block: anything but strong text and code
/// spans.
pub open spec fn stands_as_block(edge: EdgeModel) -> bool {
    match edge {
        EdgeModel::Node(NodeModel::Markdown(node)) => !(node is Strong) && !(node is CodeSpan),
        _ => false,
    }
}

/// Content without blocks is one flow: its pieces, in order, the first as the start of a
/// block.
pub proof fn law_content_without_blocks_flows(before: Seq<EdgeModel>, last: EdgeModel)
    requires
        !stands_as_block(last),
        mixed_text(before) is Ok,
    ensures
        mixed_text(Seq::empty()) == Ok::<MixedFlow, RenderFault>(
            MixedFlow { units: Seq::empty(), flow: Seq::empty(), has_block: false },
        ),
        match mixed_piece(last, mixed_text(before)->Ok_0.flow.len() == 0) {
            Ok(piece) => {
                let state = mixed_text(before)->Ok_0;
                let all = mixed_text(before.push(last));
                &&& all is Ok
                &&& all->Ok_0.units == state.units
                &&& all->Ok_0.flow == state.flow + piece
                &&& all->Ok_0.has_block == state.has_block
            },
            Err(fault) => mixed_text(before.push(last)) == Err::<MixedFlow, RenderFault>(fault),
        },
{
    assert(before.push(last).drop_last() =~= before);
    assert(is_block_edge(last) == stands_as_block(last));
}

/// A block parts the content around it: what stands before it and what stands behind it
/// are written as if they stood alone.
pub proof fn law_blocks_part_mixed_content(
    before: Seq<EdgeModel>,
    block: EdgeModel,
    after: Seq<EdgeModel>,
)
    requires
        stands_as_block(block),
        mixed_text(before) is Ok,
        mixed_piece(block, true) is Ok,
        mixed_text(after) is Ok,
    ensures
        ({
            let all = mixed_text(before.push(block) + after);
            let head = closed_units(mixed_text(before)->Ok_0);
            &&& all is Ok
            &&& all->Ok_0.has_block
            &&& all->Ok_0.flow == mixed_text(after)->Ok_0.flow
            &&& closed_units(all->Ok_0) == head.push(mixed_piece(block, true)->Ok_0)
                + closed_units(mixed_text(after)->Ok_0)
        }),
    decreases after.len(),
{
    let head = closed_units(mixed_text(before)->Ok_0);
    let piece = mixed_piece(block, true)->Ok_0;
    let start = before.push(block);
    assert(is_block_edge(block));
    assert(mixed_piece(block, false) == mixed_piece(block, true));
    lemma_parted(before, block, after);
    let all = mixed_text(start + after)->Ok_0;
    let rest = mixed_text(after)->Ok_0;
    if rest.flow.len() > 0 {
        assert((head.push(piece) + rest.units).push(indentation_encoded(rest.flow)) =~= head.push(
            piece,
        ) + rest.units.push(indentation_encoded(rest.flow)));
    }
}

proof fn lemma_parted(before: Seq<EdgeModel>, block: EdgeModel, after: Seq<EdgeModel>)
    requires
        is_block_edge(block),
        mixed_text(before) is Ok,
        mixed_piece(block, true) is Ok,
        mixed_piece(block, false) == mixed_piece(block, true),
        mixed_text(after) is Ok,
    ensures
        ({
            let all = mixed_text(before.push(block) + after);
            &&& all is Ok
            &&& all->Ok_0.has_block
            &&& all->Ok_0.flow == mixed_text(after)->Ok_0.flow
            &&& all->Ok_0.units == closed_units(mixed_text(before)->Ok_0).push(
                mixed_piece(block, true)->Ok_0,
            ) + mixed_text(after)->Ok_0.units
        }),
    decreases after.len(),
{
    let start = before.push(block);
    let head = closed_units(mixed_text(before)->Ok_0).push(mixed_piece(block, true)->Ok_0);
    assert(start.drop_last() =~= before);
    if after.len() == 0 {
        assert(start + after =~= start);
        assert(head + Seq::<Seq<char>>::empty() =~= head);
    } else {
        let rest = after.drop_last();
        lemma_parted(before, block, rest);
        assert((start + after).drop_last() =~= start + rest);
        assert((start + after).last() == after.last());
        let state = mixed_text(rest)->Ok_0;
        let whole = mixed_text(start + rest)->Ok_0;
        if is_block_edge(after.last()) {
            let piece = mixed_piece(after.last(), state.flow.len() == 0)->Ok_0;
            if state.flow.len() > 0 {
                let closed = indentation_encoded(state.flow);
                assert((head + state.units).push(closed).push(piece) =~= head + state.units.push(
                    closed,
                ).push(piece));
            } else {
                assert((head + state.units).push(piece) =~= head + state.units.push(piece));
            }
        }
    }
}

/// The units of mixed content are its finished blocks and then the open flow, if there is
/// one. Several of them, a block or a line break put the content on lines of its own.
pub proof fn law_mixed_content_has_its_lines(state: MixedFlow)
    ensures
        state.flow.len() == 0 ==> closed_units(state) == state.units,
        state.flow.len() > 0 ==> closed_units(state) == state.units.push(
            indentation_encoded(state.flow),
        ),
        ({
            let text = joined(closed_units(state), seq!['\n', '\n']);
            mixed_body(state) == if state.has_block || closed_units(state).len() > 1
                || text.contains('\n') {
                seq!['\n'] + text + seq!['\n']
            } else {
                text
            }
        }),
{
    reveal_strlit("\n\n");
    assert("\n\n"@ =~= seq!['\n', '\n']);
}

proof fn lemma_spaces(raw: Seq<char>)
    ensures
        space_count(raw) <= raw.len(),
        forall|i: int| 0 <= i < space_count(raw) ==> #[trigger] raw[i] == ' ',
        space_count(raw) < raw.len() ==> raw[space_count(raw) as int] != ' ',
    decreases raw.len(),
{
    if raw.len() > 0 && raw[0] == ' ' {
        let rest = raw.drop_first();
        lemma_spaces(rest);
        assert forall|i: int| 0 <= i < space_count(raw) implies #[trigger] raw[i] == ' ' by {
            if i > 0 {
                assert(raw[i] == rest[i - 1]);
            }
        }
        if space_count(raw) < raw.len() {
            assert(raw[space_count(raw) as int] == rest[space_count(rest) as int]);
        }
    }
}

proof fn lemma_digits(raw: Seq<char>)
    ensures
        leading_digits(raw) <= raw.len(),
        forall|i: int| 0 <= i < leading_digits(raw) ==> '0' <= #[trigger] raw[i] <= '9',
        leading_digits(raw) < raw.len() ==> !('0' <= raw[leading_digits(raw) as int] <= '9'),
    decreases raw.len(),
{
    if raw.len() > 0 && '0' <= raw[0] && raw[0] <= '9' {
        let rest = raw.drop_first();
        lemma_digits(rest);
        assert forall|i: int| 0 <= i < leading_digits(raw) implies '0' <= #[trigger] raw[i]
            <= '9' by {
            if i > 0 {
                assert(raw[i] == rest[i - 1]);
            }
        }
        if leading_digits(raw) < raw.len() {
            assert(raw[leading_digits(raw) as int] == rest[leading_digits(rest) as int]);
        }
    }
}

/// Whether a text starts with this many spaces and then something else, or nothing.
pub open spec fn starts_with_spaces(raw: Seq<char>, count: int) -> bool {
    &&& 0 <= count <= raw.len()
    &&& forall|i: int| 0 <= i < count ==> #[trigger] raw[i] == ' '
    &&& count < raw.len() ==> raw[count] != ' '
}

/// Whether the marker of a quotation, of an unordered list or of a fence stands at a
/// position, behind at most three spaces.
pub open spec fn is_block_marker(raw: Seq<char>, at: int) -> bool {
    &&& starts_with_spaces(raw, at)
    &&& at <= 3
    &&& at < raw.len()
    &&& raw[at] == '>' || raw[at] == '-' || raw[at] == '+' || raw[at] == '~'
}

/// Whether the delimiter of a numbered item stands at a position: at most three spaces and
/// some digits in front, whitespace or the end behind.
pub open spec fn is_number_delimiter(raw: Seq<char>, at: int) -> bool {
    exists|spaces: int|
        {
            &&& #[trigger] starts_with_spaces(raw, spaces)
            &&& spaces <= 3
            &&& spaces < at < raw.len()
            &&& forall|i: int| spaces <= i < at ==> '0' <= #[trigger] raw[i] <= '9'
            &&& raw[at] == '.' || raw[at] == ')'
            &&& at + 1 == raw.len() || raw[at + 1] == ' ' || raw[at + 1] == '\t' || raw[at + 1]
                == '\n' || raw[at + 1] == '\r' || raw[at + 1] as u32 == 0xC
        }
}

/// Text that would be read as the start of a block is recognised by its marker.
pub proof fn law_block_markers_are_found(raw: Seq<char>, at: int)
    ensures
        block_marker_at(raw) == Some(at) <==> is_block_marker(raw, at),
        ordered_delimiter(raw) == Some(at) <==> is_number_delimiter(raw, at),
{
    lemma_spaces(raw);
    let spaces = space_count(raw) as int;
    assert(starts_with_spaces(raw, spaces));
    assert forall|other: int| #[trigger] starts_with_spaces(raw, other) implies other == spaces by {
        if other < spaces {
            assert(raw[other] == ' ');
        }
        if spaces < other {
            assert(raw[spaces] == ' ');
        }
    }
    let rest = raw.skip(spaces);
    lemma_digits(rest);
    let digits = leading_digits(rest) as int;
    assert forall|i: int| spaces <= i < spaces + digits implies '0' <= #[trigger] raw[i] <= '9' by {
        assert(rest[i - spaces] == raw[i]);
    }
    if spaces + digits < raw.len() {
        assert(rest[digits] == raw[spaces + digits]);
    }
    if is_number_delimiter(raw, at) {
        if at < spaces + digits {
            assert('0' <= raw[at] <= '9');
        }
        if spaces + digits < at {
            assert('0' <= raw[spaces + digits] <= '9');
        }
        assert(at == spaces + digits);
    }
}

/// Every character that Markdown would read as markup is written so that it is read as
/// itself, and every other one is written as it is. Inside XML, the characters of XML's
/// own markup and line breaks become references.
pub proof fn law_markup_in_text_is_escaped(
    raw: Seq<char>,
    in_xml: bool,
    starts_block: bool,
    at: int,
)
    requires
        0 <= at < raw.len(),
    ensures
        ({
            let c = raw[at];
            let written = markdown_char(raw, in_xml, starts_block, at);
            let encoded = starts_block && at == 0 && crate::pom_renderer::is_indented(raw);
            let control = c == '\\' || c == '`' || c == '*' || c == '_' || c == '[' || c == ']'
                || c == '#';
            let marker = starts_block && (is_block_marker(raw, at) || is_number_delimiter(raw, at));
            &&& encoded ==> written == if c == ' ' {
                seq!['&', '#', '3', '2', ';']
            } else {
                seq!['&', '#', '9', ';']
            }
            &&& !encoded && in_xml && c == '&' ==> written == seq!['&', 'a', 'm', 'p', ';']
            &&& !encoded && in_xml && c == '<' ==> written == seq!['&', 'l', 't', ';']
            &&& !encoded && in_xml && c == '>' ==> written == seq!['&', 'g', 't', ';']
            &&& !encoded && in_xml && c == '\r' ==> written == seq!['&', '#', '1', '3', ';']
            &&& !encoded && in_xml && c == '\n' ==> written == seq!['&', '#', '1', '0', ';']
            &&& !encoded && !in_xml && (c == '&' || c == '<' || c == '>') ==> written == seq![
                '\\',
                c,
            ]
            &&& !encoded && control ==> written == seq!['\\', c]
            &&& !encoded && c != '&' && c != '<' && c != '>' && c != '\r' && c != '\n' && !control
                ==> written == if marker {
                seq!['\\', c]
            } else {
                seq![c]
            }
            &&& !encoded && !in_xml && (c == '\r' || c == '\n') ==> written == seq![c]
        }),
{
    reveal_strlit("&#32;");
    reveal_strlit("&#9;");
    reveal_strlit("&amp;");
    reveal_strlit("&lt;");
    reveal_strlit("&gt;");
    reveal_strlit("&#13;");
    reveal_strlit("&#10;");
    law_block_markers_are_found(raw, at);
    assert("&#32;"@ =~= seq!['&', '#', '3', '2', ';']);
    assert("&#9;"@ =~= seq!['&', '#', '9', ';']);
    assert("&amp;"@ =~= seq!['&', 'a', 'm', 'p', ';']);
    assert("&lt;"@ =~= seq!['&', 'l', 't', ';']);
    assert("&gt;"@ =~= seq!['&', 'g', 't', ';']);
    assert("&#13;"@ =~= seq!['&', '#', '1', '3', ';']);
    assert("&#10;"@ =~= seq!['&', '#', '1', '0', ';']);
}

/// Text is written character by character. It fails exactly inside XML, and at the first
/// character that XML cannot hold.
pub proof fn law_text_is_written_by_characters(
    raw: Seq<char>,
    in_xml: bool,
    starts_block: bool,
    n: int,
)
    requires
        0 <= n < raw.len(),
    ensures
        markdown_prefix(raw, in_xml, starts_block, 0) == Rendered::Ok(Seq::empty()),
        markdown_text(raw, in_xml, starts_block) == markdown_prefix(
            raw,
            in_xml,
            starts_block,
            raw.len() as int,
        ),
        match markdown_prefix(raw, in_xml, starts_block, n) {
            Ok(before) => if in_xml && !is_xml_character(raw[n]) {
                markdown_prefix(raw, in_xml, starts_block, n + 1) == Rendered::Err(
                    RenderFault::XmlCharacter(raw[n] as u32),
                )
            } else {
                markdown_prefix(raw, in_xml, starts_block, n + 1) == Rendered::Ok(
                    before + markdown_char(raw, in_xml, starts_block, n),
                )
            },
            Err(fault) => markdown_prefix(raw, in_xml, starts_block, n + 1) == Rendered::Err(fault),
        },
{
}

/// What XML can hold: tabs, line breaks and everything from the space up, but for
/// surrogates and the last two code points of the first plane.
pub proof fn law_xml_holds_no_control_characters(c: char)
    ensures
        is_xml_character(c) <==> c == '\t' || c == '\n' || c == '\r' || (c >= ' ' && c as u32
            != 0xFFFE && c as u32 != 0xFFFF),
        verbatim(seq![c], false) == Rendered::Ok(seq![c]),
        verbatim(seq![c], true) == xml_text(seq![c]),
{
}

/// XML text and attribute values fail at the first character that XML cannot hold, and
/// only there.
pub proof fn law_xml_faults_name_the_first_character(raw: Seq<char>, at: int)
    requires
        0 <= at < raw.len(),
        !is_xml_character(raw[at]),
        forall|i: int| 0 <= i < at ==> is_xml_character(#[trigger] raw[i]),
    ensures
        xml_text(raw) == Rendered::Err(RenderFault::XmlCharacter(raw[at] as u32)),
        xml_attribute(raw) == Rendered::Err(RenderFault::XmlCharacter(raw[at] as u32)),
    decreases raw.len(),
{
    let before = raw.drop_last();
    if at < before.len() {
        assert forall|i: int| 0 <= i < at implies is_xml_character(#[trigger] before[i]) by {
            assert(is_xml_character(raw[i]));
        }
        law_xml_faults_name_the_first_character(before, at);
    } else {
        assert forall|i: int| 0 <= i < before.len() implies is_xml_character(
            #[trigger] before[i],
        ) by {
            assert(is_xml_character(raw[i]));
        }
        lemma_xml_holds(before);
    }
}

proof fn lemma_xml_holds(raw: Seq<char>)
    requires
        forall|i: int| 0 <= i < raw.len() ==> is_xml_character(#[trigger] raw[i]),
    ensures
        xml_text(raw) is Ok,
        xml_attribute(raw) is Ok,
    decreases raw.len(),
{
    if raw.len() > 0 {
        let before = raw.drop_last();
        assert forall|i: int| 0 <= i < before.len() implies is_xml_character(
            #[trigger] before[i],
        ) by {
            assert(is_xml_character(raw[i]));
        }
        lemma_xml_holds(before);
        assert(is_xml_character(raw[raw.len() - 1]));
    }
}

/// An attribute's value is written character by character, and what would end it, change it
/// on reading or start markup becomes a reference.
pub proof fn law_attribute_characters_become_references(raw: Seq<char>, c: char)
    requires
        xml_attribute(raw) is Ok,
        is_xml_character(c),
    ensures
        xml_attribute(Seq::empty()) == Rendered::Ok(Seq::empty()),
        xml_attribute(raw.push(c)) == Rendered::Ok(
            xml_attribute(raw)->Ok_0 + if c == '"' {
                seq!['&', 'q', 'u', 'o', 't', ';']
            } else if c == '\'' {
                seq!['&', 'a', 'p', 'o', 's', ';']
            } else if c == '\t' {
                seq!['&', '#', '9', ';']
            } else if c == '\n' {
                seq!['&', '#', '1', '0', ';']
            } else if c == '\r' {
                seq!['&', '#', '1', '3', ';']
            } else if c == '&' {
                seq!['&', 'a', 'm', 'p', ';']
            } else if c == '<' {
                seq!['&', 'l', 't', ';']
            } else if c == '>' {
                seq!['&', 'g', 't', ';']
            } else {
                seq![c]
            },
        ),
{
    reveal_strlit("&quot;");
    reveal_strlit("&apos;");
    reveal_strlit("&#9;");
    reveal_strlit("&amp;");
    reveal_strlit("&lt;");
    reveal_strlit("&gt;");
    reveal_strlit("&#13;");
    reveal_strlit("&#10;");
    assert(raw.push(c).drop_last() =~= raw);
    assert("&quot;"@ =~= seq!['&', 'q', 'u', 'o', 't', ';']);
    assert("&apos;"@ =~= seq!['&', 'a', 'p', 'o', 's', ';']);
    assert("&#9;"@ =~= seq!['&', '#', '9', ';']);
    assert("&amp;"@ =~= seq!['&', 'a', 'm', 'p', ';']);
    assert("&lt;"@ =~= seq!['&', 'l', 't', ';']);
    assert("&gt;"@ =~= seq!['&', 'g', 't', ';']);
    assert("&#13;"@ =~= seq!['&', '#', '1', '3', ';']);
    assert("&#10;"@ =~= seq!['&', '#', '1', '0', ';']);
}

/// Block Markdown is found at every depth of elements and strong text. A slot may hold some.
pub proof fn law_block_markdown_is_found_at_every_depth(children: Seq<EdgeModel>, at: int)
    requires
        0 <= at < children.len(),
    ensures
        stands_as_block(children[at]) || children[at] is Slot ==> holds_block_markdown(children),
        children[at] matches EdgeModel::Node(NodeModel::Xml(node)) ==> (holds_block_markdown(
            node.children,
        ) ==> holds_block_markdown(children)),
        children[at] matches EdgeModel::Node(NodeModel::Markdown(MarkdownModel::Strong { children: inner }))
            ==> (holds_block_markdown(inner) ==> holds_block_markdown(children)),
        (forall|i: int|
            0 <= i < children.len() ==> (#[trigger] children[i]) is Node && (
            children[i]->Node_0 is Text || children[i]->Node_0 is RawText || (
            children[i]->Node_0 is Xml && !holds_block_markdown(
                children[i]->Node_0->Xml_0.children,
            )))) ==> !holds_block_markdown(children),
{
    let edge = children[at];
    if stands_as_block(edge) || edge is Slot {
        assert(edge_holds_block_markdown(edge));
    }
    if let EdgeModel::Node(NodeModel::Xml(node)) = edge {
        if holds_block_markdown(node.children) {
            assert(edge_holds_block_markdown(edge));
        }
    }
    if let EdgeModel::Node(NodeModel::Markdown(MarkdownModel::Strong { children: inner })) = edge {
        if holds_block_markdown(inner) {
            assert(edge_holds_block_markdown(edge));
        }
    }
}

} // verus!
