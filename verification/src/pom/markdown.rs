use vstd::prelude::*;
use crate::pom::children::{BlockChildren, InlineChildren};
use crate::pom::content::{markdown_kind, MarkdownKind};
use crate::pom::error::PomError;
use crate::pom::model::{
    edges_equiv, is_block_markdown, items_equiv, markdown_equiv, well_formed_blocks,
    well_formed_markdown, EdgeModel, MarkdownModel,
};
use crate::pom::text::TextNode;

verus! {

/// Level of a heading.
#[derive(Debug, Clone, Copy, PartialEq, Eq, Structural)]
pub enum HeadingLevel {
    H1,
    H2,
    H3,
    H4,
    H5,
    H6,
}

/// The number of a heading level, from 1 to 6.
pub open spec fn heading_number(level: HeadingLevel) -> int {
    match level {
        HeadingLevel::H1 => 1,
        HeadingLevel::H2 => 2,
        HeadingLevel::H3 => 3,
        HeadingLevel::H4 => 4,
        HeadingLevel::H5 => 5,
        HeadingLevel::H6 => 6,
    }
}

/// The heading level of a number.
pub open spec fn heading_level(number: u8) -> HeadingLevel {
    match number {
        1 => HeadingLevel::H1,
        2 => HeadingLevel::H2,
        3 => HeadingLevel::H3,
        4 => HeadingLevel::H4,
        5 => HeadingLevel::H5,
        _ => HeadingLevel::H6,
    }
}

impl HeadingLevel {
    pub fn number(self) -> (number: u8)
        ensures
            number == heading_number(self),
    {
        match self {
            HeadingLevel::H1 => 1,
            HeadingLevel::H2 => 2,
            HeadingLevel::H3 => 3,
            HeadingLevel::H4 => 4,
            HeadingLevel::H5 => 5,
            HeadingLevel::H6 => 6,
        }
    }

    /// The level of a number.
    pub fn try_from(value: u8) -> (result: Result<Self, PomError>)
        ensures
            match result {
                Ok(level) => 1 <= value <= 6 && level == heading_level(value)
                    && heading_number(level) == value,
                Err(PomError::InvalidHeadingLevel { value: rejected }) => rejected == value && (
                value < 1 || value > 6),
                Err(_) => false,
            },
    {
        match value {
            1 => Ok(HeadingLevel::H1),
            2 => Ok(HeadingLevel::H2),
            3 => Ok(HeadingLevel::H3),
            4 => Ok(HeadingLevel::H4),
            5 => Ok(HeadingLevel::H5),
            6 => Ok(HeadingLevel::H6),
            _ => Err(PomError::InvalidHeadingLevel { value }),
        }
    }
}

/// How the items of a list are marked.
#[derive(Debug, Clone, Copy, PartialEq, Eq, Structural)]
pub enum ListKind {
    Unordered,
    Ordered { start: u64 },
}

/// One Markdown node.
#[derive(Debug)]
pub enum MarkdownNode {
    Heading(HeadingNode),
    Paragraph(ParagraphNode),
    List(ListNode),
    CodeBlock(CodeBlockNode),
    ThematicBreak,
    Strong(StrongNode),
    CodeSpan(CodeSpanNode),
}

impl View for MarkdownNode {
    type V = MarkdownModel;

    open(crate) spec fn view(&self) -> MarkdownModel {
        self.model()
    }
}

impl MarkdownNode {
    pub(crate) open(crate) spec fn model(&self) -> MarkdownModel
        decreases self,
    {
        match self {
            MarkdownNode::Heading(node) => node.model(),
            MarkdownNode::Paragraph(node) => node.model(),
            MarkdownNode::List(node) => node.model(),
            MarkdownNode::CodeBlock(node) => node.view(),
            MarkdownNode::ThematicBreak => MarkdownModel::ThematicBreak,
            MarkdownNode::Strong(node) => node.model(),
            MarkdownNode::CodeSpan(node) => node.view(),
        }
    }
}

impl MarkdownNode {
    pub fn kind(&self) -> (kind: MarkdownKind)
        ensures
            kind == markdown_kind(self@),
    {
        match self {
            MarkdownNode::Heading(_) => MarkdownKind::Heading,
            MarkdownNode::Paragraph(_) => MarkdownKind::Paragraph,
            MarkdownNode::List(_) => MarkdownKind::List,
            MarkdownNode::CodeBlock(_) => MarkdownKind::CodeBlock,
            MarkdownNode::ThematicBreak => MarkdownKind::ThematicBreak,
            MarkdownNode::Strong(_) => MarkdownKind::Strong,
            MarkdownNode::CodeSpan(_) => MarkdownKind::CodeSpan,
        }
    }

    pub(crate) fn is_block(&self) -> (block: bool)
        ensures
            block == is_block_markdown(self@),
    {
        match self {
            MarkdownNode::Heading(_)
            | MarkdownNode::Paragraph(_)
            | MarkdownNode::List(_)
            | MarkdownNode::CodeBlock(_)
            | MarkdownNode::ThematicBreak => true,
            MarkdownNode::Strong(_) | MarkdownNode::CodeSpan(_) => false,
        }
    }

    /// Every node is well formed: its parts keep their invariants.
    pub(crate) fn assure(&self)
        ensures
            well_formed_markdown(self@),
    {
        match self {
            MarkdownNode::Heading(node) => proof {
                use_type_invariant(node);
            },
            MarkdownNode::Paragraph(node) => proof {
                use_type_invariant(node);
            },
            MarkdownNode::List(node) => proof {
                use_type_invariant(node);
            },
            MarkdownNode::CodeBlock(_) => {},
            MarkdownNode::ThematicBreak => {},
            MarkdownNode::Strong(node) => proof {
                use_type_invariant(node);
            },
            MarkdownNode::CodeSpan(_) => {},
        }
    }

    pub(crate) fn duplicate(&self) -> (copy: Self)
        ensures
            copy@ == self@,
        decreases self,
    {
        match self {
            MarkdownNode::Heading(node) => MarkdownNode::Heading(node.duplicate()),
            MarkdownNode::Paragraph(node) => MarkdownNode::Paragraph(node.duplicate()),
            MarkdownNode::List(node) => MarkdownNode::List(node.duplicate()),
            MarkdownNode::CodeBlock(node) => MarkdownNode::CodeBlock(node.clone()),
            MarkdownNode::ThematicBreak => MarkdownNode::ThematicBreak,
            MarkdownNode::Strong(node) => MarkdownNode::Strong(node.duplicate()),
            MarkdownNode::CodeSpan(node) => MarkdownNode::CodeSpan(node.clone()),
        }
    }

    pub(crate) fn equals(&self, other: &Self) -> (equal: bool)
        ensures
            equal == markdown_equiv(self@, other@),
        decreases self,
    {
        match (self, other) {
            (MarkdownNode::Heading(a), MarkdownNode::Heading(b)) => a.level == b.level
                && a.children.equals(&b.children),
            (MarkdownNode::Paragraph(a), MarkdownNode::Paragraph(b)) => a.children.equals(
                &b.children,
            ),
            (MarkdownNode::List(a), MarkdownNode::List(b)) => a.equals(b),
            (MarkdownNode::CodeBlock(a), MarkdownNode::CodeBlock(b)) => a.equals(b),
            (MarkdownNode::ThematicBreak, MarkdownNode::ThematicBreak) => true,
            (MarkdownNode::Strong(a), MarkdownNode::Strong(b)) => a.children.equals(&b.children),
            (MarkdownNode::CodeSpan(a), MarkdownNode::CodeSpan(b)) => a.body.value == b.body.value,
            _ => false,
        }
    }
}

impl Clone for MarkdownNode {
    fn clone(&self) -> (copy: Self)
        ensures
            copy@ == self@,
    {
        self.duplicate()
    }
}

impl PartialEq for MarkdownNode {
    fn eq(&self, other: &Self) -> (equal: bool) {
        self.equals(other)
    }
}

impl Eq for MarkdownNode {

}

impl vstd::std_specs::cmp::PartialEqSpecImpl for MarkdownNode {
    open spec fn obeys_eq_spec() -> bool {
        true
    }

    open spec fn eq_spec(&self, other: &Self) -> bool {
        markdown_equiv(self@, other@)
    }
}

/// A heading and its text.
#[derive(Debug)]
pub struct HeadingNode {
    pub(crate) level: HeadingLevel,
    pub(crate) children: InlineChildren,
}

impl View for HeadingNode {
    type V = MarkdownModel;

    open(crate) spec fn view(&self) -> MarkdownModel {
        self.model()
    }
}

impl HeadingNode {
    pub(crate) open(crate) spec fn model(&self) -> MarkdownModel
        decreases self,
    {
        MarkdownModel::Heading { level: self.level, children: self.children.model() }
    }
}

impl HeadingNode {
    #[verifier::type_invariant]
    pub(crate) open(crate) spec fn inv(self) -> bool {
        well_formed_markdown(self@)
    }

    pub fn new(level: HeadingLevel, children: InlineChildren) -> (node: Self)
        ensures
            node@ == (MarkdownModel::Heading { level, children: children@ }),
    {
        proof {
            use_type_invariant(&children);
        }
        Self { level, children }
    }

    pub fn level(&self) -> (level: &HeadingLevel)
        ensures
            self@ == (MarkdownModel::Heading {
                level: *level,
                children: self@->Heading_children,
            }),
    {
        &self.level
    }

    pub fn children(&self) -> (children: &InlineChildren)
        ensures
            self@ is Heading,
            children@ == self@->Heading_children,
    {
        &self.children
    }

    pub(crate) fn duplicate(&self) -> (copy: Self)
        ensures
            copy@ == self@,
        decreases self,
    {
        proof {
            use_type_invariant(self);
        }
        Self { level: self.level, children: self.children.duplicate() }
    }
}

impl Clone for HeadingNode {
    fn clone(&self) -> (copy: Self)
        ensures
            copy@ == self@,
    {
        self.duplicate()
    }
}

impl PartialEq for HeadingNode {
    fn eq(&self, other: &Self) -> (equal: bool) {
        self.level == other.level && self.children.equals(&other.children)
    }
}

impl Eq for HeadingNode {

}

impl vstd::std_specs::cmp::PartialEqSpecImpl for HeadingNode {
    open spec fn obeys_eq_spec() -> bool {
        true
    }

    open spec fn eq_spec(&self, other: &Self) -> bool {
        markdown_equiv(self@, other@)
    }
}

/// A paragraph.
#[derive(Debug)]
pub struct ParagraphNode {
    pub(crate) children: InlineChildren,
}

impl View for ParagraphNode {
    type V = MarkdownModel;

    open(crate) spec fn view(&self) -> MarkdownModel {
        self.model()
    }
}

impl ParagraphNode {
    pub(crate) open(crate) spec fn model(&self) -> MarkdownModel
        decreases self,
    {
        MarkdownModel::Paragraph { children: self.children.model() }
    }
}

impl ParagraphNode {
    #[verifier::type_invariant]
    pub(crate) open(crate) spec fn inv(self) -> bool {
        well_formed_markdown(self@)
    }

    pub fn new(children: InlineChildren) -> (node: Self)
        ensures
            node@ == (MarkdownModel::Paragraph { children: children@ }),
    {
        proof {
            use_type_invariant(&children);
        }
        Self { children }
    }

    pub fn children(&self) -> (children: &InlineChildren)
        ensures
            self@ is Paragraph,
            children@ == self@->Paragraph_children,
    {
        &self.children
    }

    pub(crate) fn duplicate(&self) -> (copy: Self)
        ensures
            copy@ == self@,
        decreases self,
    {
        proof {
            use_type_invariant(self);
        }
        Self { children: self.children.duplicate() }
    }
}

impl Clone for ParagraphNode {
    fn clone(&self) -> (copy: Self)
        ensures
            copy@ == self@,
    {
        self.duplicate()
    }
}

impl PartialEq for ParagraphNode {
    fn eq(&self, other: &Self) -> (equal: bool) {
        self.children.equals(&other.children)
    }
}

impl Eq for ParagraphNode {

}

impl vstd::std_specs::cmp::PartialEqSpecImpl for ParagraphNode {
    open spec fn obeys_eq_spec() -> bool {
        true
    }

    open spec fn eq_spec(&self, other: &Self) -> bool {
        markdown_equiv(self@, other@)
    }
}

/// Text in strong emphasis.
#[derive(Debug)]
pub struct StrongNode {
    pub(crate) children: InlineChildren,
}

impl View for StrongNode {
    type V = MarkdownModel;

    open(crate) spec fn view(&self) -> MarkdownModel {
        self.model()
    }
}

impl StrongNode {
    pub(crate) open(crate) spec fn model(&self) -> MarkdownModel
        decreases self,
    {
        MarkdownModel::Strong { children: self.children.model() }
    }
}

impl StrongNode {
    #[verifier::type_invariant]
    pub(crate) open(crate) spec fn inv(self) -> bool {
        well_formed_markdown(self@)
    }

    pub fn new(children: InlineChildren) -> (node: Self)
        ensures
            node@ == (MarkdownModel::Strong { children: children@ }),
    {
        proof {
            use_type_invariant(&children);
        }
        Self { children }
    }

    pub fn children(&self) -> (children: &InlineChildren)
        ensures
            self@ is Strong,
            children@ == self@->Strong_children,
    {
        &self.children
    }

    pub(crate) fn duplicate(&self) -> (copy: Self)
        ensures
            copy@ == self@,
        decreases self,
    {
        proof {
            use_type_invariant(self);
        }
        Self { children: self.children.duplicate() }
    }
}

impl Clone for StrongNode {
    fn clone(&self) -> (copy: Self)
        ensures
            copy@ == self@,
    {
        self.duplicate()
    }
}

impl PartialEq for StrongNode {
    fn eq(&self, other: &Self) -> (equal: bool) {
        self.children.equals(&other.children)
    }
}

impl Eq for StrongNode {

}

impl vstd::std_specs::cmp::PartialEqSpecImpl for StrongNode {
    open spec fn obeys_eq_spec() -> bool {
        true
    }

    open spec fn eq_spec(&self, other: &Self) -> bool {
        markdown_equiv(self@, other@)
    }
}

/// A list of items.
#[derive(Debug)]
pub struct ListNode {
    pub(crate) kind: ListKind,
    pub(crate) items: Vec<ListItem>,
}

/// One item of a list.
#[derive(Debug)]
pub struct ListItem {
    pub(crate) children: BlockChildren,
}

impl View for ListItem {
    type V = Seq<EdgeModel>;

    open(crate) spec fn view(&self) -> Seq<EdgeModel> {
        self.model()
    }
}

impl ListItem {
    pub(crate) open(crate) spec fn model(&self) -> Seq<EdgeModel>
        decreases self,
    {
        self.children.model()
    }
}

impl ListItem {
    pub fn new(children: BlockChildren) -> (item: Self)
        ensures
            item@ == children@,
    {
        Self { children }
    }

    pub fn children(&self) -> (children: &BlockChildren)
        ensures
            children@ == self@,
    {
        &self.children
    }
}

impl Clone for ListItem {
    fn clone(&self) -> (copy: Self)
        ensures
            copy@ == self@,
    {
        Self { children: self.children.clone() }
    }
}

impl PartialEq for ListItem {
    fn eq(&self, other: &Self) -> (equal: bool) {
        self.children.equals(&other.children)
    }
}

impl Eq for ListItem {

}

impl vstd::std_specs::cmp::PartialEqSpecImpl for ListItem {
    open spec fn obeys_eq_spec() -> bool {
        true
    }

    open spec fn eq_spec(&self, other: &Self) -> bool {
        edges_equiv(self@, other@)
    }
}

/// The models of a list's items.
pub open spec fn item_models(items: Seq<ListItem>) -> Seq<Seq<EdgeModel>> {
    items.map_values(|item: ListItem| item@)
}

impl View for ListNode {
    type V = MarkdownModel;

    open(crate) spec fn view(&self) -> MarkdownModel {
        self.model()
    }
}

impl ListNode {
    pub(crate) open(crate) spec fn model(&self) -> MarkdownModel
        decreases self,
    {
        MarkdownModel::List {
            kind: self.kind,
            items: Seq::new(
                self.items@.len(),
                |i: int|
                    if 0 <= i < self.items@.len() {
                        self.items@[i].model()
                    } else {
                        arbitrary()
                    },
            ),
        }
    }
}

proof fn lemma_list_view(node: ListNode)
    ensures
        node@ == (MarkdownModel::List { kind: node.kind, items: item_models(node.items@) }),
{
    assert(node@->items =~= item_models(node.items@));
}

impl ListNode {
    #[verifier::type_invariant]
    pub(crate) open(crate) spec fn inv(self) -> bool {
        well_formed_markdown(self@)
    }

    pub fn new(kind: ListKind, items: Vec<ListItem>) -> (node: Self)
        ensures
            node@ == (MarkdownModel::List { kind, items: item_models(items@) }),
    {
        for i in 0..items.len()
            invariant
                forall|j: int| 0 <= j < i ==> well_formed_blocks((#[trigger] items@[j])@),
        {
            let item = &items[i];
            proof {
                use_type_invariant(&item.children);
            }
        }
        proof {
            lemma_list_view(ListNode { kind, items });
        }
        Self { kind, items }
    }

    pub fn kind(&self) -> (kind: &ListKind)
        ensures
            self@ is List,
            *kind == self@->kind,
    {
        &self.kind
    }

    pub fn items(&self) -> (items: &[ListItem])
        ensures
            self@ is List,
            item_models(items@) == self@->items,
    {
        proof {
            lemma_list_view(*self);
        }
        self.items.as_slice()
    }

    pub(crate) fn duplicate(&self) -> (copy: Self)
        ensures
            copy@ == self@,
        decreases self,
    {
        proof {
            use_type_invariant(self);
        }
        let mut items: Vec<ListItem> = Vec::new();
        for i in 0..self.items.len()
            invariant
                items@.len() == i,
                forall|j: int| 0 <= j < i ==> (#[trigger] items@[j])@ == self.items@[j]@,
        {
            let item = &self.items[i];
            items.push(ListItem { children: item.children.duplicate() });
        }
        assert(item_models(items@) =~= item_models(self.items@));
        proof {
            lemma_list_view(*self);
            lemma_list_view(ListNode { kind: self.kind, items });
        }
        Self { kind: self.kind, items }
    }

    pub(crate) fn equals(&self, other: &Self) -> (equal: bool)
        ensures
            equal == markdown_equiv(self@, other@),
        decreases self,
    {
        proof {
            lemma_list_view(*self);
            lemma_list_view(*other);
        }
        if self.kind != other.kind || self.items.len() != other.items.len() {
            return false;
        }
        for i in 0..self.items.len()
            invariant
                self@ == (MarkdownModel::List { kind: self.kind, items: item_models(self.items@) }),
                other@ == (MarkdownModel::List { kind: other.kind, items: item_models(other.items@) }),
                self.items@.len() == other.items@.len(),
                forall|j: int|
                    0 <= j < i ==> edges_equiv(
                        #[trigger] item_models(self.items@)[j],
                        item_models(other.items@)[j],
                    ),
        {
            let item = &self.items[i];
            if !item.children.equals(&other.items[i].children) {
                assert(!edges_equiv(
                    item_models(self.items@)[i as int],
                    item_models(other.items@)[i as int],
                ));
                assert(!items_equiv(item_models(self.items@), item_models(other.items@)));
                return false;
            }
        }
        true
    }
}

impl Clone for ListNode {
    fn clone(&self) -> (copy: Self)
        ensures
            copy@ == self@,
    {
        self.duplicate()
    }
}

impl PartialEq for ListNode {
    fn eq(&self, other: &Self) -> (equal: bool) {
        self.equals(other)
    }
}

impl Eq for ListNode {

}

impl vstd::std_specs::cmp::PartialEqSpecImpl for ListNode {
    open spec fn obeys_eq_spec() -> bool {
        true
    }

    open spec fn eq_spec(&self, other: &Self) -> bool {
        markdown_equiv(self@, other@)
    }
}

/// The text of an optional string.
pub open spec fn optional_text(value: Option<String>) -> Option<Seq<char>> {
    match value {
        Some(value) => Some(value@),
        None => None,
    }
}

/// A fenced block of code.
#[derive(Debug)]
pub struct CodeBlockNode {
    pub(crate) language: Option<String>,
    pub(crate) body: TextNode,
}

impl View for CodeBlockNode {
    type V = MarkdownModel;

    open(crate) spec fn view(&self) -> MarkdownModel {
        MarkdownModel::CodeBlock { language: optional_text(self.language), body: self.body.view() }
    }
}

impl CodeBlockNode {
    pub fn new(language: Option<String>, body: TextNode) -> (node: Self)
        ensures
            node@ == (MarkdownModel::CodeBlock { language: optional_text(language), body: body@ }),
    {
        Self { language, body }
    }

    pub fn language(&self) -> (language: Option<&str>)
        ensures
            self@ is CodeBlock,
            match language {
                Some(language) => self@->language == Some(language@),
                None => self@->language is None,
            },
    {
        match &self.language {
            Some(language) => Some(language.as_str()),
            None => None,
        }
    }

    pub fn body(&self) -> (body: &TextNode)
        ensures
            self@ is CodeBlock,
            body@ == self@->CodeBlock_body,
    {
        &self.body
    }

    pub(crate) fn equals(&self, other: &Self) -> (equal: bool)
        ensures
            equal == (self@ == other@),
    {
        let same_language = match (&self.language, &other.language) {
            (Some(a), Some(b)) => *a == *b,
            (None, None) => true,
            _ => false,
        };
        same_language && self.body.value == other.body.value
    }
}

impl Clone for CodeBlockNode {
    fn clone(&self) -> (copy: Self)
        ensures
            copy@ == self@,
    {
        let language = match &self.language {
            Some(language) => Some(language.clone()),
            None => None,
        };
        Self { language, body: self.body.clone() }
    }
}

impl PartialEq for CodeBlockNode {
    fn eq(&self, other: &Self) -> (equal: bool) {
        self.equals(other)
    }
}

impl Eq for CodeBlockNode {

}

impl vstd::std_specs::cmp::PartialEqSpecImpl for CodeBlockNode {
    open spec fn obeys_eq_spec() -> bool {
        true
    }

    open spec fn eq_spec(&self, other: &Self) -> bool {
        self@ == other@
    }
}

/// A span of code inside a line.
#[derive(Debug)]
pub struct CodeSpanNode {
    pub(crate) body: TextNode,
}

impl View for CodeSpanNode {
    type V = MarkdownModel;

    open(crate) spec fn view(&self) -> MarkdownModel {
        MarkdownModel::CodeSpan { body: self.body.view() }
    }
}

impl CodeSpanNode {
    pub fn new(body: TextNode) -> (node: Self)
        ensures
            node@ == (MarkdownModel::CodeSpan { body: body@ }),
    {
        Self { body }
    }

    pub fn body(&self) -> (body: &TextNode)
        ensures
            self@ is CodeSpan,
            body@ == self@->CodeSpan_body,
    {
        &self.body
    }
}

impl Clone for CodeSpanNode {
    fn clone(&self) -> (copy: Self)
        ensures
            copy@ == self@,
    {
        Self { body: self.body.clone() }
    }
}

impl PartialEq for CodeSpanNode {
    fn eq(&self, other: &Self) -> (equal: bool) {
        self.body.value == other.body.value
    }
}

impl Eq for CodeSpanNode {

}

impl vstd::std_specs::cmp::PartialEqSpecImpl for CodeSpanNode {
    open spec fn obeys_eq_spec() -> bool {
        true
    }

    open spec fn eq_spec(&self, other: &Self) -> bool {
        self@ == other@
    }
}

} // verus!
