use vstd::prelude::*;

verus! {

/// One paragraph of text.
pub struct Paragraph {
    content: String,
}

impl View for Paragraph {
    type V = Seq<char>;

    closed spec fn view(&self) -> Seq<char> {
        self.content@
    }
}

impl Paragraph {
    pub fn new(content: String) -> (p: Paragraph)
        ensures
            p@ == content@,
    {
        Paragraph { content }
    }

    pub fn content(&self) -> (text: &str)
        ensures
            text@ == self@,
    {
        self.content.as_str()
    }

    pub fn edit_content(&mut self, new_content: String)
        ensures
            final(self)@ == new_content@,
    {
        self.content = new_content;
    }
}

} // verus!
