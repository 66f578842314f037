use vstd::prelude::*;

verus! {

/// Text of a document, escaped where it is rendered.
#[derive(Debug)]
pub struct TextNode {
    pub(crate) value: String,
}

impl View for TextNode {
    type V = Seq<char>;

    open(crate) spec fn view(&self) -> Seq<char> {
        self.value@
    }
}

impl TextNode {
    pub fn new(value: &str) -> (node: Self)
        ensures
            node@ == value@,
    {
        Self { value: value.to_owned() }
    }

    pub fn value(&self) -> (value: &str)
        ensures
            value@ == self@,
    {
        self.value.as_str()
    }

    pub fn is_empty(&self) -> (empty: bool)
        ensures
            empty == (self@.len() == 0),
    {
        self.value.as_str().is_empty()
    }

    pub(crate) fn append(&mut self, value: &str)
        ensures
            final(self)@ == old(self)@ + value@,
    {
        self.value.append(value);
    }
}

impl Clone for TextNode {
    fn clone(&self) -> (copy: Self)
        ensures
            copy@ == self@,
    {
        Self { value: self.value.clone() }
    }
}

impl PartialEq for TextNode {
    fn eq(&self, other: &Self) -> (equal: bool) {
        self.value == other.value
    }
}

impl Eq for TextNode {

}

impl vstd::std_specs::cmp::PartialEqSpecImpl for TextNode {
    open spec fn obeys_eq_spec() -> bool {
        true
    }

    open spec fn eq_spec(&self, other: &Self) -> bool {
        self@ == other@
    }
}

/// One opaque source-text block.
///
/// Unlike [`TextNode`], raw text is not Markdown content. At a document root
/// it is rendered exactly as supplied; when embedded in XML it is escaped as
/// XML character data.
#[derive(Debug)]
pub struct RawTextNode {
    pub(crate) value: String,
}

impl View for RawTextNode {
    type V = Seq<char>;

    open(crate) spec fn view(&self) -> Seq<char> {
        self.value@
    }
}

impl RawTextNode {
    pub fn new(value: &str) -> (node: Self)
        ensures
            node@ == value@,
    {
        Self { value: value.to_owned() }
    }

    pub fn value(&self) -> (value: &str)
        ensures
            value@ == self@,
    {
        self.value.as_str()
    }

    pub fn is_empty(&self) -> (empty: bool)
        ensures
            empty == (self@.len() == 0),
    {
        self.value.as_str().is_empty()
    }
}

impl Clone for RawTextNode {
    fn clone(&self) -> (copy: Self)
        ensures
            copy@ == self@,
    {
        Self { value: self.value.clone() }
    }
}

impl PartialEq for RawTextNode {
    fn eq(&self, other: &Self) -> (equal: bool) {
        self.value == other.value
    }
}

impl Eq for RawTextNode {

}

impl vstd::std_specs::cmp::PartialEqSpecImpl for RawTextNode {
    open spec fn obeys_eq_spec() -> bool {
        true
    }

    open spec fn eq_spec(&self, other: &Self) -> bool {
        self@ == other@
    }
}

} // verus!
