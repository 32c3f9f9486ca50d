use crate::doc::section::Section;
use vstd::prelude::*;

verus! {

/// A document: its sections in order.
pub struct Document {
    pub sections: Vec<Section>,
}

impl Default for Document {
    fn default() -> (d: Document)
        ensures
            d.sections@.len() == 0,
    {
        Document::new()
    }
}

impl Document {
    /// A document without sections.
    pub fn new() -> (d: Document)
        ensures
            d.sections@.len() == 0,
    {
        Document { sections: Vec::new() }
    }

    /// The section at `idx`, open for editing, if there is one. The document
    /// is what it was but for what the caller does to that section.
    pub fn get_section(&mut self, idx: usize) -> (found: Option<&mut Section>)
        ensures
            found is Some == (idx < old(self).sections.len()),
            match found {
                Some(s) => *s == old(self).sections[idx as int] && final(self).sections@ == old(
                    self).sections@.update(idx as int, *final(s)),
                None => *final(self) == *old(self),
            },
    {
        if idx < self.sections.len() {
            Some(&mut self.sections[idx])
        } else {
            None
        }
    }

    /// Appends a section.
    pub fn add_section(&mut self, section: Section)
        ensures
            final(self).sections@ == old(self).sections@.push(section),
    {
        self.sections.push(section);
    }
}

} // verus!
