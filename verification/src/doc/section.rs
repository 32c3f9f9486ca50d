use crate::doc::paragraph::Paragraph;
use vstd::prelude::*;

verus! {

/// A titled run of paragraphs.
pub struct Section {
    pub title: String,
    pub paragraphs: Vec<Paragraph>,
}

impl Section {
    /// The texts of the paragraphs, in order.
    pub open spec fn texts(&self) -> Seq<Seq<char>> {
        self.paragraphs@.map_values(|p: Paragraph| p@)
    }

    /// A section without paragraphs.
    pub fn new(title: String) -> (s: Section)
        ensures
            s.title@ == title@,
            s.paragraphs@.len() == 0,
    {
        Section { title, paragraphs: Vec::new() }
    }

    /// The paragraph at `index`, open for editing, if there is one. The
    /// section is what it was but for what the caller does to that paragraph.
    pub fn get_paragraph(&mut self, index: usize) -> (found: Option<&mut Paragraph>)
        ensures
            found is Some == (index < old(self).paragraphs.len()),
            match found {
                Some(p) => *p == old(self).paragraphs[index as int] && final(self).title == old(
                    self).title && final(self).paragraphs@ == old(self).paragraphs@.update(
                    index as int,
                    *final(p),
                ),
                None => *final(self) == *old(self),
            },
    {
        if index < self.paragraphs.len() {
            Some(&mut self.paragraphs[index])
        } else {
            None
        }
    }

    /// Appends a paragraph.
    pub fn add_paragraph(&mut self, paragraph: Paragraph)
        ensures
            final(self).title == old(self).title,
            final(self).paragraphs@ == old(self).paragraphs@.push(paragraph),
    {
        self.paragraphs.push(paragraph);
    }
}

} // verus!
