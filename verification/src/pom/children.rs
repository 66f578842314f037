use vstd::prelude::*;
use crate::pom::content::{
    BlockContent, ContentEdge, ContentNode, ContentRef, InlineContent, MixedContent,
};
use crate::pom::model::{
    edge_equiv, edges_equiv, push_normalized, single_line, well_formed_blocks, well_formed_inlines,
    well_formed_mixed, EdgeModel,
};

verus! {

/// The children of a document or of a list item.
#[derive(Debug)]
pub struct BlockChildren(pub(crate) Vec<BlockContent>);

pub(crate) open(crate) spec fn block_models(items: Seq<BlockContent>) -> Seq<EdgeModel> {
    items.map_values(|content: BlockContent| content@)
}

impl View for BlockChildren {
    type V = Seq<EdgeModel>;

    open(crate) spec fn view(&self) -> Seq<EdgeModel> {
        self.model()
    }
}

impl BlockChildren {
    pub(crate) open(crate) spec fn model(&self) -> Seq<EdgeModel>
        decreases self,
    {
        Seq::new(
            self.0@.len(),
            |i: int|
                if 0 <= i < self.0@.len() {
                    self.0@[i].model()
                } else {
                    arbitrary()
                },
        )
    }
}

proof fn lemma_block_view(children: BlockChildren)
    ensures
        children@ == block_models(children.0@),
{
    assert(children@ =~= block_models(children.0@));
}

impl BlockChildren {
    #[verifier::type_invariant]
    pub(crate) open(crate) spec fn inv(self) -> bool {
        well_formed_blocks(self@)
    }

    pub fn new() -> (children: Self)
        ensures
            children@ == Seq::<EdgeModel>::empty(),
    {
        let children = Self(Vec::new());
        assert(children@ =~= Seq::<EdgeModel>::empty());
        children
    }

    pub fn push(&mut self, content: BlockContent)
        ensures
            final(self)@ == old(self)@.push(content@),
    {
        proof {
            use_type_invariant(&*self);
            use_type_invariant(&content);
        }
        let ghost before = self@;
        let ghost added = content@;
        proof {
            lemma_block_view(*self);
        }
        let mut items: Vec<BlockContent> = Vec::new();
        std::mem::swap(&mut items, &mut self.0);
        items.push(content);
        assert(block_models(items@) =~= before.push(added));
        proof {
            lemma_block_view(BlockChildren(items));
        }
        self.0 = items;
    }

    /// Appends all children of another list.
    pub fn extend(&mut self, other: BlockChildren)
        ensures
            final(self)@ == old(self)@ + other@,
    {
        proof {
            use_type_invariant(&*self);
            use_type_invariant(&other);
            lemma_block_view(*self);
            lemma_block_view(other);
        }
        let ghost before = self@;
        let ghost added = other@;
        let mut items: Vec<BlockContent> = Vec::new();
        std::mem::swap(&mut items, &mut self.0);
        let mut more: Vec<BlockContent> = other.0;
        items.append(&mut more);
        assert(block_models(items@) =~= before + added);
        proof {
            lemma_block_view(BlockChildren(items));
        }
        self.0 = items;
    }

    pub fn len(&self) -> (len: usize)
        ensures
            len == self@.len(),
    {
        self.0.len()
    }

    pub fn is_empty(&self) -> (empty: bool)
        ensures
            empty == (self@.len() == 0),
    {
        self.0.is_empty()
    }

    /// The child at a position.
    pub fn get(&self, index: usize) -> (content: Option<ContentRef<'_>>)
        ensures
            match content {
                Some(content) => index < self@.len() && content@ == self@[index as int],
                None => index >= self@.len(),
            },
    {
        if index < self.0.len() {
            Some(self.0[index].as_ref())
        } else {
            None
        }
    }

    pub(crate) fn duplicate(&self) -> (copy: Self)
        ensures
            copy@ == self@,
        decreases self,
    {
        proof {
            use_type_invariant(self);
        }
        let mut items: Vec<BlockContent> = Vec::new();
        for i in 0..self.0.len()
            invariant
                items@.len() == i,
                forall|j: int| 0 <= j < i ==> (#[trigger] items@[j])@ == self.0@[j]@,
        {
            items.push(self.0[i].duplicate());
        }
        assert(block_models(items@) =~= self@);
        proof {
            lemma_block_view(BlockChildren(items));
        }
        Self(items)
    }

    pub(crate) fn equals(&self, other: &Self) -> (equal: bool)
        ensures
            equal == edges_equiv(self@, other@),
        decreases self,
    {
        if self.0.len() != other.0.len() {
            return false;
        }
        for i in 0..self.0.len()
            invariant
                self.0@.len() == other.0@.len(),
                forall|j: int| 0 <= j < i ==> edge_equiv(#[trigger] self@[j], other@[j]),
        {
            if !self.0[i].0.equals(&other.0[i].0) {
                assert(!edge_equiv(self@[i as int], other@[i as int]));
                return false;
            }
        }
        true
    }
}

impl Default for BlockChildren {
    fn default() -> (children: Self)
        ensures
            children@ == Seq::<EdgeModel>::empty(),
    {
        Self::new()
    }
}

impl Clone for BlockChildren {
    fn clone(&self) -> (copy: Self)
        ensures
            copy@ == self@,
    {
        self.duplicate()
    }
}

impl PartialEq for BlockChildren {
    fn eq(&self, other: &Self) -> (equal: bool) {
        self.equals(other)
    }
}

impl Eq for BlockChildren {

}

impl vstd::std_specs::cmp::PartialEqSpecImpl for BlockChildren {
    open spec fn obeys_eq_spec() -> bool {
        true
    }

    open spec fn eq_spec(&self, other: &Self) -> bool {
        edges_equiv(self@, other@)
    }
}

/// The inline children of a heading, a paragraph or strong text.
#[derive(Debug)]
pub struct InlineChildren(pub(crate) Vec<InlineContent>);

pub(crate) open(crate) spec fn inline_models(items: Seq<InlineContent>) -> Seq<EdgeModel> {
    items.map_values(|content: InlineContent| content@)
}

impl View for InlineChildren {
    type V = Seq<EdgeModel>;

    open(crate) spec fn view(&self) -> Seq<EdgeModel> {
        self.model()
    }
}

impl InlineChildren {
    pub(crate) open(crate) spec fn model(&self) -> Seq<EdgeModel>
        decreases self,
    {
        Seq::new(
            self.0@.len(),
            |i: int|
                if 0 <= i < self.0@.len() {
                    self.0@[i].model()
                } else {
                    arbitrary()
                },
        )
    }
}

proof fn lemma_inline_view(children: InlineChildren)
    ensures
        children@ == inline_models(children.0@),
{
    assert(children@ =~= inline_models(children.0@));
}

impl InlineChildren {
    #[verifier::type_invariant]
    pub(crate) open(crate) spec fn inv(self) -> bool {
        well_formed_inlines(self@)
    }

    pub fn new() -> (children: Self)
        ensures
            children@ == Seq::<EdgeModel>::empty(),
    {
        let children = Self(Vec::new());
        assert(children@ =~= Seq::<EdgeModel>::empty());
        children
    }

    pub fn push(&mut self, content: InlineContent)
        ensures
            final(self)@ == push_normalized(old(self)@, content@),
    {
        proof {
            use_type_invariant(&*self);
            use_type_invariant(&content);
        }
        let ghost before = self@;
        let ghost added = content@;
        proof {
            lemma_inline_view(*self);
        }
        let mut items: Vec<InlineContent> = Vec::new();
        std::mem::swap(&mut items, &mut self.0);
        push_inline(&mut items, content);
        assert(inline_models(items@) =~= push_normalized(before, added));
        proof {
            lemma_inline_view(InlineChildren(items));
        }
        self.0 = items;
    }

    pub fn len(&self) -> (len: usize)
        ensures
            len == self@.len(),
    {
        self.0.len()
    }

    pub fn is_empty(&self) -> (empty: bool)
        ensures
            empty == (self@.len() == 0),
    {
        self.0.is_empty()
    }

    /// The child at a position.
    pub fn get(&self, index: usize) -> (content: Option<ContentRef<'_>>)
        ensures
            match content {
                Some(content) => index < self@.len() && content@ == self@[index as int],
                None => index >= self@.len(),
            },
    {
        if index < self.0.len() {
            Some(self.0[index].as_ref())
        } else {
            None
        }
    }

    pub(crate) fn duplicate(&self) -> (copy: Self)
        ensures
            copy@ == self@,
        decreases self,
    {
        proof {
            use_type_invariant(self);
        }
        let mut items: Vec<InlineContent> = Vec::new();
        for i in 0..self.0.len()
            invariant
                items@.len() == i,
                forall|j: int| 0 <= j < i ==> (#[trigger] items@[j])@ == self.0@[j]@,
        {
            items.push(self.0[i].duplicate());
        }
        assert(inline_models(items@) =~= self@);
        proof {
            lemma_inline_view(InlineChildren(items));
        }
        Self(items)
    }

    pub(crate) fn equals(&self, other: &Self) -> (equal: bool)
        ensures
            equal == edges_equiv(self@, other@),
        decreases self,
    {
        if self.0.len() != other.0.len() {
            return false;
        }
        for i in 0..self.0.len()
            invariant
                self.0@.len() == other.0@.len(),
                forall|j: int| 0 <= j < i ==> edge_equiv(#[trigger] self@[j], other@[j]),
        {
            if !self.0[i].0.equals(&other.0[i].0) {
                assert(!edge_equiv(self@[i as int], other@[i as int]));
                return false;
            }
        }
        true
    }
}

impl Default for InlineChildren {
    fn default() -> (children: Self)
        ensures
            children@ == Seq::<EdgeModel>::empty(),
    {
        Self::new()
    }
}

impl Clone for InlineChildren {
    fn clone(&self) -> (copy: Self)
        ensures
            copy@ == self@,
    {
        self.duplicate()
    }
}

impl PartialEq for InlineChildren {
    fn eq(&self, other: &Self) -> (equal: bool) {
        self.equals(other)
    }
}

impl Eq for InlineChildren {

}

impl vstd::std_specs::cmp::PartialEqSpecImpl for InlineChildren {
    open spec fn obeys_eq_spec() -> bool {
        true
    }

    open spec fn eq_spec(&self, other: &Self) -> bool {
        edges_equiv(self@, other@)
    }
}

/// Appends content, with its text joined to text that stands last.
fn push_inline(items: &mut Vec<InlineContent>, content: InlineContent)
    ensures
        inline_models(final(items)@) == push_normalized(
            inline_models(old(items)@),
            content@,
        ),
{
    let ghost before = inline_models(items@);
    let ghost added = content@;
    proof {
        use_type_invariant(&content);
    }
    if let ContentEdge::Node(ContentNode::Text(text)) = &content.0 {
        if text.is_empty() {
            return ;
        }
        if let Some(previous) = items.pop() {
            proof {
                use_type_invariant(&previous);
            }
            let ghost rest = items@;
            assert(inline_models(rest) =~= before.drop_last());
            assert(previous@ == before.last());
            if let ContentEdge::Node(ContentNode::Text(last)) = &previous.0 {
                let mut joined = last.clone();
                joined.append(text.value());
                assert(single_line(joined@)) by {
                    let whole = last@ + text@;
                    assert forall|c: char| whole.contains(c) implies last@.contains(c)
                        || text@.contains(c) by {
                        let k = choose|k: int| 0 <= k < whole.len() && whole[k] == c;
                        if k < last@.len() {
                            assert(last@[k] == c);
                        } else {
                            assert(text@[k - last@.len()] == c);
                        }
                    }
                }
                items.push(InlineContent(ContentEdge::Node(ContentNode::Text(joined))));
                assert(inline_models(items@) =~= push_normalized(before, added));
                return ;
            }
            items.push(previous);
            assert(inline_models(items@) =~= before);
        }
    }
    items.push(content);
    assert(inline_models(items@) =~= push_normalized(before, added));
}

/// The children of an XML node.
#[derive(Debug)]
pub struct MixedChildren(pub(crate) Vec<MixedContent>);

pub(crate) open(crate) spec fn mixed_models(items: Seq<MixedContent>) -> Seq<EdgeModel> {
    items.map_values(|content: MixedContent| content@)
}

impl View for MixedChildren {
    type V = Seq<EdgeModel>;

    open(crate) spec fn view(&self) -> Seq<EdgeModel> {
        self.model()
    }
}

impl MixedChildren {
    pub(crate) open(crate) spec fn model(&self) -> Seq<EdgeModel>
        decreases self,
    {
        Seq::new(
            self.0@.len(),
            |i: int|
                if 0 <= i < self.0@.len() {
                    self.0@[i].model()
                } else {
                    arbitrary()
                },
        )
    }
}

proof fn lemma_mixed_view(children: MixedChildren)
    ensures
        children@ == mixed_models(children.0@),
{
    assert(children@ =~= mixed_models(children.0@));
}

impl MixedChildren {
    #[verifier::type_invariant]
    pub(crate) open(crate) spec fn inv(self) -> bool {
        well_formed_mixed(self@)
    }

    pub fn new() -> (children: Self)
        ensures
            children@ == Seq::<EdgeModel>::empty(),
    {
        let children = Self(Vec::new());
        assert(children@ =~= Seq::<EdgeModel>::empty());
        children
    }

    pub fn push(&mut self, content: MixedContent)
        ensures
            final(self)@ == push_normalized(old(self)@, content@),
    {
        proof {
            use_type_invariant(&*self);
            use_type_invariant(&content);
        }
        let ghost before = self@;
        let ghost added = content@;
        proof {
            lemma_mixed_view(*self);
        }
        let mut items: Vec<MixedContent> = Vec::new();
        std::mem::swap(&mut items, &mut self.0);
        push_mixed(&mut items, content);
        assert(mixed_models(items@) =~= push_normalized(before, added));
        proof {
            lemma_mixed_view(MixedChildren(items));
        }
        self.0 = items;
    }

    pub fn len(&self) -> (len: usize)
        ensures
            len == self@.len(),
    {
        self.0.len()
    }

    pub fn is_empty(&self) -> (empty: bool)
        ensures
            empty == (self@.len() == 0),
    {
        self.0.is_empty()
    }

    /// The child at a position.
    pub fn get(&self, index: usize) -> (content: Option<ContentRef<'_>>)
        ensures
            match content {
                Some(content) => index < self@.len() && content@ == self@[index as int],
                None => index >= self@.len(),
            },
    {
        if index < self.0.len() {
            Some(self.0[index].as_ref())
        } else {
            None
        }
    }

    pub(crate) fn duplicate(&self) -> (copy: Self)
        ensures
            copy@ == self@,
        decreases self,
    {
        proof {
            use_type_invariant(self);
        }
        let mut items: Vec<MixedContent> = Vec::new();
        for i in 0..self.0.len()
            invariant
                items@.len() == i,
                forall|j: int| 0 <= j < i ==> (#[trigger] items@[j])@ == self.0@[j]@,
        {
            items.push(self.0[i].duplicate());
        }
        assert(mixed_models(items@) =~= self@);
        proof {
            lemma_mixed_view(MixedChildren(items));
        }
        Self(items)
    }

    pub(crate) fn equals(&self, other: &Self) -> (equal: bool)
        ensures
            equal == edges_equiv(self@, other@),
        decreases self,
    {
        if self.0.len() != other.0.len() {
            return false;
        }
        for i in 0..self.0.len()
            invariant
                self.0@.len() == other.0@.len(),
                forall|j: int| 0 <= j < i ==> edge_equiv(#[trigger] self@[j], other@[j]),
        {
            if !self.0[i].0.equals(&other.0[i].0) {
                assert(!edge_equiv(self@[i as int], other@[i as int]));
                return false;
            }
        }
        true
    }
}

impl Default for MixedChildren {
    fn default() -> (children: Self)
        ensures
            children@ == Seq::<EdgeModel>::empty(),
    {
        Self::new()
    }
}

impl Clone for MixedChildren {
    fn clone(&self) -> (copy: Self)
        ensures
            copy@ == self@,
    {
        self.duplicate()
    }
}

impl PartialEq for MixedChildren {
    fn eq(&self, other: &Self) -> (equal: bool) {
        self.equals(other)
    }
}

impl Eq for MixedChildren {

}

impl vstd::std_specs::cmp::PartialEqSpecImpl for MixedChildren {
    open spec fn obeys_eq_spec() -> bool {
        true
    }

    open spec fn eq_spec(&self, other: &Self) -> bool {
        edges_equiv(self@, other@)
    }
}

/// Appends content, with its text joined to text that stands last.
fn push_mixed(items: &mut Vec<MixedContent>, content: MixedContent)
    ensures
        mixed_models(final(items)@) == push_normalized(
            mixed_models(old(items)@),
            content@,
        ),
{
    let ghost before = mixed_models(items@);
    let ghost added = content@;
    proof {
        use_type_invariant(&content);
    }
    if let ContentEdge::Node(ContentNode::Text(text)) = &content.0 {
        if text.is_empty() {
            return ;
        }
        if let Some(previous) = items.pop() {
            proof {
                use_type_invariant(&previous);
            }
            let ghost rest = items@;
            assert(mixed_models(rest) =~= before.drop_last());
            assert(previous@ == before.last());
            if let ContentEdge::Node(ContentNode::Text(last)) = &previous.0 {
                let mut joined = last.clone();
                joined.append(text.value());
                items.push(MixedContent(ContentEdge::Node(ContentNode::Text(joined))));
                assert(mixed_models(items@) =~= push_normalized(before, added));
                return ;
            }
            items.push(previous);
            assert(mixed_models(items@) =~= before);
        }
    }
    items.push(content);
    assert(mixed_models(items@) =~= push_normalized(before, added));
}

} // verus!
