use crate::doc::document::Document;
use crate::doc::paragraph::Paragraph;
use crate::doc::section::Section;
use crate::text::{
    lines, lines_of, starts_with_char, strip_leading, trim, trim_start_matches, trimmed,
};
use vstd::prelude::*;
use vstd::string::*;

verus! {

/// What a section says: its title and the texts of its paragraphs.
pub struct SectionText {
    pub title: Seq<char>,
    pub paragraphs: Seq<Seq<char>>,
}

/// What `section` says.
pub open spec fn section_said(section: Section) -> SectionText {
    SectionText { title: section.title@, paragraphs: section.texts() }
}

/// What the sections of `doc` say, in order.
pub open spec fn outline(doc: Document) -> Seq<SectionText> {
    doc.sections@.map_values(|s: Section| section_said(s))
}

/// A reader's place in a text: the sections that are complete, and the one
/// that is still taking paragraphs.
pub struct Reading {
    pub done: Seq<SectionText>,
    pub open: Option<SectionText>,
}

/// A line that starts with `#` opens a section.
pub open spec fn is_heading(line: Seq<char>) -> bool {
    line.len() > 0 && line[0] == '#'
}

/// The sections of a reading once the text has ended.
pub open spec fn closed_sections(at: Reading) -> Seq<SectionText> {
    match at.open {
        Some(s) => at.done.push(s),
        None => at.done,
    }
}

/// Reading one more line. A heading closes the open section and opens the
/// next under the heading's text; any other line that is not blank becomes a
/// paragraph of the open section, and is dropped where no section is open.
pub open spec fn read_line(at: Reading, line: Seq<char>) -> Reading {
    if is_heading(line) {
        Reading {
            done: closed_sections(at),
            open: Some(
                SectionText { title: trimmed(strip_leading(line, '#')), paragraphs: Seq::empty() },
            ),
        }
    } else if trimmed(line).len() > 0 {
        match at.open {
            Some(s) => Reading {
                done: at.done,
                open: Some(
                    SectionText { title: s.title, paragraphs: s.paragraphs.push(trimmed(line)) },
                ),
            },
            None => at,
        }
    } else {
        at
    }
}

/// Reading `lines` from the first to the last.
pub open spec fn read_lines(lines: Seq<Seq<char>>) -> Reading
    decreases lines.len(),
{
    if lines.len() == 0 {
        Reading { done: Seq::empty(), open: None }
    } else {
        read_line(read_lines(lines.drop_last()), lines.last())
    }
}

/// The outline that a markdown text describes.
pub open spec fn parsed_outline(content: Seq<char>) -> Seq<SectionText> {
    closed_sections(read_lines(lines_of(content)))
}

/// Reads a markdown text into a document.
pub fn parse_markdown(content: &str) -> (doc: Document)
    ensures
        outline(doc) == parsed_outline(content@),
{
    let all = lines(content);
    let ghost texts = all@.map_values(|l: String| l@);
    let mut doc = Document::new();
    let mut cur_sec: Option<Section> = None;
    let mut i: usize = 0;
    assert(texts.subrange(0, 0) =~= Seq::<Seq<char>>::empty());
    assert(outline(doc) =~= Seq::<SectionText>::empty());
    while i < all.len()
        invariant
            i <= all.len(),
            texts == all@.map_values(|l: String| l@),
            outline(doc) == read_lines(texts.subrange(0, i as int)).done,
            match cur_sec {
                Some(s) => read_lines(texts.subrange(0, i as int)).open == Some(section_said(s)),
                None => read_lines(texts.subrange(0, i as int)).open is None,
            },
        decreases all.len() - i,
    {
        let ghost at = read_lines(texts.subrange(0, i as int));
        proof {
            let next = texts.subrange(0, i + 1);
            assert(next.drop_last() =~= texts.subrange(0, i as int));
            assert(next.last() == all[i as int]@);
        }
        let line = all[i].as_str();
        if starts_with_char(line, '#') {
            match cur_sec {
                Some(sec) => {
                    let ghost before = outline(doc);
                    doc.add_section(sec);
                    assert(outline(doc) =~= before.push(section_said(sec)));
                },
                None => {},
            }
            let title = trim(trim_start_matches(line, '#')).to_owned();
            let fresh = Section::new(title);
            assert(fresh.texts() =~= Seq::<Seq<char>>::empty());
            cur_sec = Some(fresh);
        } else {
            let text = trim(line);
            if !text.is_empty() {
                match cur_sec {
                    Some(mut sec) => {
                        let ghost before = sec.texts();
                        sec.add_paragraph(Paragraph::new(text.to_owned()));
                        assert(sec.texts() =~= before.push(text@));
                        cur_sec = Some(sec);
                    },
                    None => {
                        cur_sec = None;
                    },
                }
            }
        }
        i += 1;
    }
    assert(texts.subrange(0, all.len() as int) =~= texts);
    match cur_sec {
        Some(sec) => {
            let ghost before = outline(doc);
            doc.add_section(sec);
            assert(outline(doc) =~= before.push(section_said(sec)));
        },
        None => {},
    }
    doc
}

/// The lines that a list of paragraphs is written as.
pub open spec fn paragraphs_text(texts: Seq<Seq<char>>) -> Seq<char>
    decreases texts.len(),
{
    if texts.len() == 0 {
        Seq::empty()
    } else {
        paragraphs_text(texts.drop_last()) + texts.last() + "\n"@
    }
}

/// The lines that one section is written as: its heading, then its
/// paragraphs.
pub open spec fn section_text(said: SectionText) -> Seq<char> {
    "# "@ + said.title + "\n"@ + paragraphs_text(said.paragraphs)
}

/// The markdown text of an outline.
pub open spec fn markdown_text(sections: Seq<SectionText>) -> Seq<char>
    decreases sections.len(),
{
    if sections.len() == 0 {
        Seq::empty()
    } else {
        markdown_text(sections.drop_last()) + section_text(sections.last())
    }
}

/// Writes a document as markdown text.
pub fn to_markdown(doc: &Document) -> (output: String)
    ensures
        output@ == markdown_text(outline(*doc)),
{
    let ghost said = outline(*doc);
    let mut output = String::new();
    let mut i: usize = 0;
    assert(said.subrange(0, 0) =~= Seq::<SectionText>::empty());
    while i < doc.sections.len()
        invariant
            i <= doc.sections.len(),
            said == outline(*doc),
            output@ == markdown_text(said.subrange(0, i as int)),
        decreases doc.sections.len() - i,
    {
        let section = &doc.sections[i];
        let ghost texts = section.texts();
        let ghost head = output@;
        proof {
            let next = said.subrange(0, i + 1);
            assert(next.drop_last() =~= said.subrange(0, i as int));
            assert(next.last() == section_said(*section));
        }
        output.append("# ");
        output.append(section.title.as_str());
        output.append("\n");
        let mut j: usize = 0;
        assert(texts.subrange(0, 0) =~= Seq::<Seq<char>>::empty());
        assert(output@ =~= head + ("# "@ + section.title@ + "\n"@ + paragraphs_text(
            texts.subrange(0, 0),
        )));
        while j < section.paragraphs.len()
            invariant
                j <= section.paragraphs.len(),
                texts == section.texts(),
                output@ == head + ("# "@ + section.title@ + "\n"@ + paragraphs_text(
                    texts.subrange(0, j as int),
                )),
            decreases section.paragraphs.len() - j,
        {
            proof {
                let next = texts.subrange(0, j + 1);
                assert(next.drop_last() =~= texts.subrange(0, j as int));
                assert(next.last() == section.paragraphs[j as int]@);
            }
            output.append(section.paragraphs[j].content());
            output.append("\n");
            assert(output@ =~= head + ("# "@ + section.title@ + "\n"@ + paragraphs_text(
                texts.subrange(0, j + 1),
            )));
            j += 1;
        }
        assert(texts.subrange(0, section.paragraphs.len() as int) =~= texts);
        i += 1;
    }
    assert(said.subrange(0, doc.sections.len() as int) =~= said);
    output
}

} // verus!
