//! Builders that assemble documents in closures.

use vstd::prelude::*;
use crate::pom::children::{BlockChildren, InlineChildren, MixedChildren};
use crate::pom::content::{BlockContent, InlineContent, MixedContent};
use crate::pom::diff_slot::DiffSlot;
use crate::pom::document::Document;
use crate::pom::error::PomError;
use crate::pom::markdown::{
    heading_level, item_models, optional_text, CodeBlockNode, CodeSpanNode, HeadingLevel,
    HeadingNode, ListItem, ListKind, ListNode, MarkdownNode, ParagraphNode, StrongNode,
};
use crate::pom::model::{
    empty_xml, is_xml_name, markdown_edge, push_normalized, single_line, text_edge, xml_edge,
    EdgeModel, MarkdownModel, XmlModel,
};
use crate::pom::text::TextNode;
use crate::pom::xml::{XmlName, XmlNode};

verus! {

/// Assembles block content.
pub struct BlockBuilder {
    pub(crate) children: BlockChildren,
}

impl View for BlockBuilder {
    type V = Seq<EdgeModel>;

    open(crate) spec fn view(&self) -> Seq<EdgeModel> {
        self.children@
    }
}

impl BlockBuilder {
    pub(crate) fn new() -> (builder: Self)
        ensures
            builder@ == Seq::<EdgeModel>::empty(),
    {
        Self { children: BlockChildren::new() }
    }

    pub fn push(&mut self, content: BlockContent)
        ensures
            final(self)@ == old(self)@.push(content@),
    {
        self.children.push(content);
    }

    /// Adds a heading.
    pub fn heading<F: FnOnce(&mut InlineBuilder)>(&mut self, level: HeadingLevel, build: F)
        requires
            forall|b: &mut InlineBuilder|
                b@ == Seq::<EdgeModel>::empty() ==> #[trigger] build.requires((b,)),
        ensures
            exists|b: &mut InlineBuilder|
                b@ == Seq::<EdgeModel>::empty() && #[trigger] build.ensures((b,), ()) && final(self)@
                    == old(self)@.push(markdown_edge(MarkdownModel::Heading { level, children: final(b)@ })),
    {
        let mut builder = InlineBuilder::new();
        build(&mut builder);
        self.push(BlockContent::heading(HeadingNode::new(level, builder.children)));
    }

    /// Adds a heading whose level is still to be checked.
    pub fn try_heading<F: FnOnce(&mut InlineBuilder) -> Result<(), PomError>>(
        &mut self,
        raw_level: u8,
        build: F,
    ) -> (result: Result<(), PomError>)
        requires
            forall|b: &mut InlineBuilder|
                b@ == Seq::<EdgeModel>::empty() ==> #[trigger] build.requires((b,)),
        ensures
            raw_level < 1 || raw_level > 6 ==> result == Err::<(), PomError>(
                PomError::InvalidHeadingLevel { value: raw_level },
            ) && final(self)@ == old(self)@,
            1 <= raw_level <= 6 ==> exists|b: &mut InlineBuilder, built: Result<(), PomError>|
                b@ == Seq::<EdgeModel>::empty() && #[trigger] build.ensures((b,), built)
                    && match built {
                    Ok(_) => result is Ok && final(self)@ == old(self)@.push(
                        markdown_edge(
                            MarkdownModel::Heading {
                                level: heading_level(raw_level),
                                children: final(b)@,
                            },
                        ),
                    ),
                    Err(error) => result == Err::<(), PomError>(error) && final(self)@
                        == old(self)@,
                },
    {
        let level = match HeadingLevel::try_from(raw_level) {
            Ok(level) => level,
            Err(error) => {
                return Err(error);
            },
        };
        let mut builder = InlineBuilder::new();
        match build(&mut builder) {
            Ok(_) => {
                self.push(BlockContent::heading(HeadingNode::new(level, builder.children)));
                Ok(())
            },
            Err(error) => Err(error),
        }
    }

    /// Adds a paragraph.
    pub fn paragraph<F: FnOnce(&mut InlineBuilder)>(&mut self, build: F)
        requires
            forall|b: &mut InlineBuilder|
                b@ == Seq::<EdgeModel>::empty() ==> #[trigger] build.requires((b,)),
        ensures
            exists|b: &mut InlineBuilder|
                b@ == Seq::<EdgeModel>::empty() && #[trigger] build.ensures((b,), ()) && final(self)@
                    == old(self)@.push(markdown_edge(MarkdownModel::Paragraph { children: final(b)@ })),
    {
        let mut builder = InlineBuilder::new();
        build(&mut builder);
        self.push(BlockContent::paragraph(ParagraphNode::new(builder.children)));
    }

    /// Adds a paragraph unless building it fails.
    pub fn try_paragraph<F: FnOnce(&mut InlineBuilder) -> Result<(), PomError>>(&mut self, build: F) -> (result: Result<(), PomError>)
        requires
            forall|b: &mut InlineBuilder|
                b@ == Seq::<EdgeModel>::empty() ==> #[trigger] build.requires((b,)),
        ensures
            exists|b: &mut InlineBuilder, built: Result<(), PomError>|
                b@ == Seq::<EdgeModel>::empty() && #[trigger] build.ensures((b,), built) && match built {
                    Ok(_) => result is Ok && final(self)@ == old(self)@.push(markdown_edge(MarkdownModel::Paragraph { children: final(b)@ })),
                    Err(error) => result == Err::<(), PomError>(error) && final(self)@ == old(self)@,
                },
    {
        let mut builder = InlineBuilder::new();
        match build(&mut builder) {
            Ok(_) => {
                self.push(BlockContent::paragraph(ParagraphNode::new(builder.children)));
                Ok(())
            },
            Err(error) => Err(error),
        }
    }

    /// Adds a list.
    pub fn list<F: FnOnce(&mut ListBuilder)>(&mut self, kind: ListKind, build: F)
        requires
            forall|b: &mut ListBuilder|
                b@ == Seq::<Seq<EdgeModel>>::empty() ==> #[trigger] build.requires((b,)),
        ensures
            exists|b: &mut ListBuilder|
                b@ == Seq::<Seq<EdgeModel>>::empty() && #[trigger] build.ensures((b,), ()) && final(self)@
                    == old(self)@.push(markdown_edge(MarkdownModel::List { kind, items: final(b)@ })),
    {
        let mut builder = ListBuilder::new();
        build(&mut builder);
        self.push(BlockContent::list(ListNode::new(kind, builder.items)));
    }

    /// Adds a list unless building it fails.
    pub fn try_list<F: FnOnce(&mut ListBuilder) -> Result<(), PomError>>(&mut self, kind: ListKind, build: F) -> (result: Result<(), PomError>)
        requires
            forall|b: &mut ListBuilder|
                b@ == Seq::<Seq<EdgeModel>>::empty() ==> #[trigger] build.requires((b,)),
        ensures
            exists|b: &mut ListBuilder, built: Result<(), PomError>|
                b@ == Seq::<Seq<EdgeModel>>::empty() && #[trigger] build.ensures((b,), built) && match built {
                    Ok(_) => result is Ok && final(self)@ == old(self)@.push(markdown_edge(MarkdownModel::List { kind, items: final(b)@ })),
                    Err(error) => result == Err::<(), PomError>(error) && final(self)@ == old(self)@,
                },
    {
        let mut builder = ListBuilder::new();
        match build(&mut builder) {
            Ok(_) => {
                self.push(BlockContent::list(ListNode::new(kind, builder.items)));
                Ok(())
            },
            Err(error) => Err(error),
        }
    }

    /// Adds a code block.
    pub fn code_block(&mut self, language: Option<String>, body: TextNode)
        ensures
            final(self)@ == old(self)@.push(markdown_edge(MarkdownModel::CodeBlock { language: optional_text(language), body: body@ })),
    {
        self.push(BlockContent::code_block(CodeBlockNode::new(language, body)));
    }

    /// Adds a thematic break.
    pub fn thematic_break(&mut self)
        ensures
            final(self)@ == old(self)@.push(markdown_edge(MarkdownModel::ThematicBreak)),
    {
        self.push(BlockContent::thematic_break());
    }

    /// Adds an XML node.
    pub fn xml(&mut self, node: XmlNode)
        ensures
            final(self)@ == old(self)@.push(xml_edge(node@)),
    {
        self.push(BlockContent::xml(node));
    }

    /// Adds a slot.
    pub fn xml_slot(&mut self, slot: DiffSlot)
        ensures
            final(self)@ == old(self)@.push(EdgeModel::Slot(slot@)),
    {
        self.push(BlockContent::xml_slot(slot));
    }
}

/// Assembles inline content.
pub struct InlineBuilder {
    pub(crate) children: InlineChildren,
}

impl View for InlineBuilder {
    type V = Seq<EdgeModel>;

    open(crate) spec fn view(&self) -> Seq<EdgeModel> {
        self.children@
    }
}

impl InlineBuilder {
    pub(crate) fn new() -> (builder: Self)
        ensures
            builder@ == Seq::<EdgeModel>::empty(),
    {
        Self { children: InlineChildren::new() }
    }

    pub fn push(&mut self, content: InlineContent)
        ensures
            final(self)@ == push_normalized(old(self)@, content@),
    {
        self.children.push(content);
    }

    /// Adds text of one line.
    pub fn try_text(&mut self, value: &str) -> (result: Result<(), PomError>)
        ensures
            match result {
                Ok(_) => single_line(value@) && final(self)@ == push_normalized(
                    old(self)@,
                    text_edge(value@),
                ),
                Err(PomError::InvalidInlineNewline { value: rejected }) => !single_line(value@)
                    && rejected@ == value@ && final(self)@ == old(self)@,
                Err(_) => false,
            },
    {
        match InlineContent::try_text(value) {
            Ok(content) => {
                self.push(content);
                Ok(())
            },
            Err(error) => Err(error),
        }
    }

    /// Adds strong text.
    pub fn strong<F: FnOnce(&mut InlineBuilder)>(&mut self, build: F)
        requires
            forall|b: &mut InlineBuilder|
                b@ == Seq::<EdgeModel>::empty() ==> #[trigger] build.requires((b,)),
        ensures
            exists|b: &mut InlineBuilder|
                b@ == Seq::<EdgeModel>::empty() && #[trigger] build.ensures((b,), ()) && final(self)@
                    == push_normalized(old(self)@, markdown_edge(MarkdownModel::Strong { children: final(b)@ })),
    {
        let mut builder = InlineBuilder::new();
        build(&mut builder);
        self.push(InlineContent::strong(StrongNode::new(builder.children)));
    }

    /// Adds strong text unless building it fails.
    pub fn try_strong<F: FnOnce(&mut InlineBuilder) -> Result<(), PomError>>(&mut self, build: F) -> (result: Result<(), PomError>)
        requires
            forall|b: &mut InlineBuilder|
                b@ == Seq::<EdgeModel>::empty() ==> #[trigger] build.requires((b,)),
        ensures
            exists|b: &mut InlineBuilder, built: Result<(), PomError>|
                b@ == Seq::<EdgeModel>::empty() && #[trigger] build.ensures((b,), built) && match built {
                    Ok(_) => result is Ok && final(self)@ == push_normalized(old(self)@, markdown_edge(MarkdownModel::Strong { children: final(b)@ })),
                    Err(error) => result == Err::<(), PomError>(error) && final(self)@ == old(self)@,
                },
    {
        let mut builder = InlineBuilder::new();
        match build(&mut builder) {
            Ok(_) => {
                self.push(InlineContent::strong(StrongNode::new(builder.children)));
                Ok(())
            },
            Err(error) => Err(error),
        }
    }

    /// Adds a code span.
    pub fn code_span(&mut self, body: TextNode)
        ensures
            final(self)@ == push_normalized(old(self)@, markdown_edge(MarkdownModel::CodeSpan { body: body@ })),
    {
        self.push(InlineContent::code_span(CodeSpanNode::new(body)));
    }

    /// Adds an XML node.
    pub fn xml(&mut self, node: XmlNode)
        ensures
            final(self)@ == push_normalized(old(self)@, xml_edge(node@)),
    {
        self.push(InlineContent::xml(node));
    }

    /// Adds a slot.
    pub fn xml_slot(&mut self, slot: DiffSlot)
        ensures
            final(self)@ == push_normalized(old(self)@, EdgeModel::Slot(slot@)),
    {
        self.push(InlineContent::xml_slot(slot));
    }
}

/// Assembles the content of an XML node.
pub struct MixedBuilder {
    pub(crate) children: MixedChildren,
}

impl View for MixedBuilder {
    type V = Seq<EdgeModel>;

    open(crate) spec fn view(&self) -> Seq<EdgeModel> {
        self.children@
    }
}

impl MixedBuilder {
    pub(crate) fn new() -> (builder: Self)
        ensures
            builder@ == Seq::<EdgeModel>::empty(),
    {
        Self { children: MixedChildren::new() }
    }

    pub fn push(&mut self, content: MixedContent)
        ensures
            final(self)@ == push_normalized(old(self)@, content@),
    {
        self.children.push(content);
    }

    /// Adds text.
    pub fn text(&mut self, node: TextNode)
        ensures
            final(self)@ == push_normalized(old(self)@, text_edge(node@)),
    {
        self.push(MixedContent::text(node));
    }

    /// Adds a Markdown node.
    pub fn markdown(&mut self, node: MarkdownNode)
        ensures
            final(self)@ == push_normalized(old(self)@, markdown_edge(node@)),
    {
        self.push(MixedContent::markdown(node));
    }

    /// Adds an XML node.
    pub fn xml(&mut self, node: XmlNode)
        ensures
            final(self)@ == push_normalized(old(self)@, xml_edge(node@)),
    {
        self.push(MixedContent::xml(node));
    }

    /// Adds a slot.
    pub fn xml_slot(&mut self, slot: DiffSlot)
        ensures
            final(self)@ == push_normalized(old(self)@, EdgeModel::Slot(slot@)),
    {
        self.push(MixedContent::xml_slot(slot));
    }
}

/// Assembles the items of a list.
pub struct ListBuilder {
    pub(crate) items: Vec<ListItem>,
}

impl View for ListBuilder {
    type V = Seq<Seq<EdgeModel>>;

    open(crate) spec fn view(&self) -> Seq<Seq<EdgeModel>> {
        item_models(self.items@)
    }
}

impl ListBuilder {
    pub(crate) fn new() -> (builder: Self)
        ensures
            builder@ == Seq::<Seq<EdgeModel>>::empty(),
    {
        let builder = Self { items: Vec::new() };
        assert(builder@ =~= Seq::<Seq<EdgeModel>>::empty());
        builder
    }

    fn push(&mut self, item: ListItem)
        ensures
            final(self)@ == old(self)@.push(item@),
    {
        let ghost before = self@;
        self.items.push(item);
        assert(self@ =~= before.push(item@));
    }

    /// Adds an item.
    pub fn item<F: FnOnce(&mut BlockBuilder)>(&mut self, build: F)
        requires
            forall|b: &mut BlockBuilder|
                b@ == Seq::<EdgeModel>::empty() ==> #[trigger] build.requires((b,)),
        ensures
            exists|b: &mut BlockBuilder|
                b@ == Seq::<EdgeModel>::empty() && #[trigger] build.ensures((b,), ()) && final(self)@
                    == old(self)@.push(final(b)@),
    {
        let mut builder = BlockBuilder::new();
        build(&mut builder);
        self.push(ListItem::new(builder.children));
    }

    /// Adds an item unless building it fails.
    pub fn try_item<F: FnOnce(&mut BlockBuilder) -> Result<(), PomError>>(&mut self, build: F) -> (result: Result<(), PomError>)
        requires
            forall|b: &mut BlockBuilder|
                b@ == Seq::<EdgeModel>::empty() ==> #[trigger] build.requires((b,)),
        ensures
            exists|b: &mut BlockBuilder, built: Result<(), PomError>|
                b@ == Seq::<EdgeModel>::empty() && #[trigger] build.ensures((b,), built) && match built {
                    Ok(_) => result is Ok && final(self)@ == old(self)@.push(final(b)@),
                    Err(error) => result == Err::<(), PomError>(error) && final(self)@ == old(self)@,
                },
    {
        let mut builder = BlockBuilder::new();
        match build(&mut builder) {
            Ok(_) => {
                self.push(ListItem::new(builder.children));
                Ok(())
            },
            Err(error) => Err(error),
        }
    }
}

impl Document {
    /// Builds a document.
    pub fn build<F: FnOnce(&mut BlockBuilder)>(build: F) -> (document: Self)
        requires
            forall|b: &mut BlockBuilder|
                b@ == Seq::<EdgeModel>::empty() ==> #[trigger] build.requires((b,)),
        ensures
            exists|b: &mut BlockBuilder|
                b@ == Seq::<EdgeModel>::empty() && #[trigger] build.ensures((b,), ())
                    && document@ == final(b)@,
    {
        let mut builder = BlockBuilder::new();
        build(&mut builder);
        Document::new(builder.children)
    }

    /// Builds a document unless a part of it fails.
    pub fn try_build<F: FnOnce(&mut BlockBuilder) -> Result<(), PomError>>(build: F) -> (result:
        Result<Self, PomError>)
        requires
            forall|b: &mut BlockBuilder|
                b@ == Seq::<EdgeModel>::empty() ==> #[trigger] build.requires((b,)),
        ensures
            exists|b: &mut BlockBuilder, built: Result<(), PomError>|
                b@ == Seq::<EdgeModel>::empty() && #[trigger] build.ensures((b,), built)
                    && match built {
                    Ok(_) => result is Ok && result->Ok_0@ == final(b)@,
                    Err(error) => result == Err::<Self, PomError>(error),
                },
    {
        let mut builder = BlockBuilder::new();
        match build(&mut builder) {
            Ok(_) => Ok(Document::new(builder.children)),
            Err(error) => Err(error),
        }
    }
}

impl XmlNode {
    /// Builds an XML node.
    pub fn build<F: FnOnce(&mut MixedBuilder)>(name: XmlName, build: F) -> (node: Self)
        requires
            forall|b: &mut MixedBuilder|
                b@ == Seq::<EdgeModel>::empty() ==> #[trigger] build.requires((b,)),
        ensures
            exists|b: &mut MixedBuilder|
                b@ == Seq::<EdgeModel>::empty() && #[trigger] build.ensures((b,), ()) && node@ == (
                XmlModel { children: final(b)@, ..empty_xml(name@) }),
    {
        let mut builder = MixedBuilder::new();
        build(&mut builder);
        XmlNode::new(name).with_children(builder.children)
    }

    /// Builds an XML node whose name is still to be checked, unless a part of it
    /// fails.
    pub fn try_build<F: FnOnce(&mut MixedBuilder) -> Result<(), PomError>>(
        raw_name: &str,
        build: F,
    ) -> (result: Result<Self, PomError>)
        requires
            forall|b: &mut MixedBuilder|
                b@ == Seq::<EdgeModel>::empty() ==> #[trigger] build.requires((b,)),
        ensures
            !is_xml_name(raw_name@) ==> result is Err && result->Err_0 is InvalidXmlName,
            !is_xml_name(raw_name@) ==> result->Err_0->InvalidXmlName_value@ == raw_name@,
            is_xml_name(raw_name@) ==> exists|b: &mut MixedBuilder, built: Result<(), PomError>|
                b@ == Seq::<EdgeModel>::empty() && #[trigger] build.ensures((b,), built)
                    && match built {
                    Ok(_) => result is Ok && result->Ok_0@ == (XmlModel {
                        children: final(b)@,
                        ..empty_xml(raw_name@)
                    }),
                    Err(error) => result == Err::<Self, PomError>(error),
                },
    {
        let name = match XmlName::new(raw_name) {
            Ok(name) => name,
            Err(error) => {
                return Err(error);
            },
        };
        let mut builder = MixedBuilder::new();
        match build(&mut builder) {
            Ok(_) => Ok(XmlNode::new(name).with_children(builder.children)),
            Err(error) => Err(error),
        }
    }
}

} // verus!
