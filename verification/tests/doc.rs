use mpsc_chat::doc::command::{apply_command, handle_command, Command, Outcome};
use mpsc_chat::doc::document::Document;
use mpsc_chat::doc::markdown::{parse_markdown, to_markdown};
use mpsc_chat::doc::paragraph::Paragraph;
use mpsc_chat::doc::section::Section;

#[test]
fn markdown_is_read_into_sections() {
    let doc = parse_markdown("stray\n# One\nfirst\n\n  second  \n## Two ##\n#\nlast\n");
    assert_eq!(doc.sections.len(), 3);
    assert_eq!(doc.sections[0].title, "One");
    assert_eq!(doc.sections[0].paragraphs.len(), 2);
    assert_eq!(doc.sections[0].paragraphs[0].content(), "first");
    assert_eq!(doc.sections[0].paragraphs[1].content(), "second");
    assert_eq!(doc.sections[1].title, "Two ##");
    assert!(doc.sections[1].paragraphs.is_empty());
    assert_eq!(doc.sections[2].title, "");
    assert_eq!(doc.sections[2].paragraphs[0].content(), "last");
}

#[test]
fn markdown_without_heading_is_empty() {
    assert!(parse_markdown("").sections.is_empty());
    assert!(parse_markdown("just text\nmore text").sections.is_empty());
    let doc = parse_markdown("# T\r\nfirst\r\n\r\nlast\r");
    assert_eq!(to_markdown(&doc), "# T\nfirst\nlast\n");
}

#[test]
fn document_is_written_as_markdown() {
    let mut doc = Document::new();
    let mut one = Section::new("One".to_string());
    one.add_paragraph(Paragraph::new("first".to_string()));
    one.add_paragraph(Paragraph::new("second".to_string()));
    doc.add_section(one);
    doc.add_section(Section::new("Two".to_string()));
    assert_eq!(to_markdown(&doc), "# One\nfirst\nsecond\n# Two\n");
    assert_eq!(to_markdown(&Document::default()), "");
}

#[test]
fn written_markdown_reads_back() {
    let text = "# A\nx\ny\n# B\nz\n";
    assert_eq!(to_markdown(&parse_markdown(text)), text);
}

#[test]
fn sections_and_paragraphs_are_edited_in_place() {
    let mut doc = parse_markdown("# A\nx\n");
    assert!(doc.get_section(1).is_none());
    let section = doc.get_section(0).unwrap();
    section.title = "B".to_string();
    assert!(section.get_paragraph(1).is_none());
    section.get_paragraph(0).unwrap().edit_content("y".to_string());
    assert_eq!(to_markdown(&doc), "# B\ny\n");
}

#[test]
fn commands_are_read_from_lines() {
    assert!(matches!(Command::from("help"), Command::Help));
    assert!(matches!(Command::from("H"), Command::Help));
    assert!(matches!(Command::from("quit"), Command::Quit));
    assert!(matches!(Command::from("Q"), Command::Quit));
    assert!(matches!(Command::from("list SEC"), Command::ListSections));
    assert!(matches!(Command::from("list"), Command::Unknown));
    assert!(matches!(Command::from("save out.md"), Command::Save(name) if name == "out.md"));
    assert!(matches!(Command::from("save"), Command::Unknown));
    assert!(matches!(Command::from("show sec 3"), Command::ShowSec(3)));
    assert!(matches!(Command::from("show sec x"), Command::Unknown));
    assert!(matches!(Command::from("show par 3"), Command::Unknown));
    assert!(matches!(Command::from("add sec  My   Title "), Command::AddSec(t) if t == "My Title"));
    assert!(matches!(Command::from("add sec"), Command::Unknown));
    assert!(matches!(Command::from("add par 2 some text"), Command::AddPar(2, t) if t == "some text"));
    assert!(matches!(Command::from("add par 2"), Command::AddPar(2, t) if t.is_empty()));
    assert!(matches!(Command::from("add par two"), Command::Unknown));
    assert!(matches!(Command::from("edit sec 1 New"), Command::EditSec(1, t) if t == "New"));
    assert!(matches!(Command::from("edit par 1 0 a b"), Command::EditPar(1, 0, t) if t == "a b"));
    assert!(matches!(Command::from("edit par 1"), Command::Unknown));
    assert!(matches!(Command::from("edit"), Command::Unknown));
    assert!(matches!(Command::from(""), Command::Unknown));
    assert!(matches!(Command::from("   "), Command::Unknown));
    assert!(matches!(Command::from("dance"), Command::Unknown));
    assert!(matches!(Command::from_line("help me"), Command::Help));
    assert!(matches!(Command::from("show sec +3"), Command::ShowSec(3)));
    assert!(matches!(Command::from("show sec 007"), Command::ShowSec(7)));
    assert!(matches!(Command::from("show sec -3"), Command::Unknown));
    assert!(matches!(Command::from("show sec +"), Command::Unknown));
    assert!(matches!(Command::from("show sec 3x"), Command::Unknown));
    assert!(matches!(
        Command::from("show sec 18446744073709551615"),
        Command::ShowSec(usize::MAX)
    ));
    assert!(matches!(Command::from("show sec 18446744073709551616"), Command::Unknown));
    assert!(matches!(Command::from("show sec 99999999999999999999999999"), Command::Unknown));
}

#[test]
fn commands_change_the_document() {
    let mut doc = Document::new();
    assert!(matches!(handle_command("add sec Intro", &mut doc), Outcome::SectionAdded));
    assert!(matches!(handle_command("add par 0 first words", &mut doc), Outcome::ParagraphAdded(0)));
    assert!(matches!(handle_command("add par 1 nowhere", &mut doc), Outcome::NoSection(1)));
    assert!(matches!(handle_command("edit sec 0 Start", &mut doc), Outcome::SectionRenamed(0)));
    assert!(matches!(handle_command("edit sec 4 Start", &mut doc), Outcome::NoSection(4)));
    assert!(matches!(
        handle_command("edit par 0 0 other words", &mut doc),
        Outcome::ParagraphEdited { section: 0, paragraph: 0 }
    ));
    assert!(matches!(
        handle_command("edit par 0 3 x", &mut doc),
        Outcome::NoParagraph { section: 0, paragraph: 3 }
    ));
    assert!(matches!(handle_command("edit par 2 0 x", &mut doc), Outcome::NoSection(2)));
    assert!(matches!(handle_command("show sec 0", &mut doc), Outcome::ShowSection(0)));
    assert!(matches!(handle_command("show sec 1", &mut doc), Outcome::NoSection(1)));
    assert!(matches!(handle_command("list sec", &mut doc), Outcome::ListTitles));
    assert!(matches!(handle_command("help", &mut doc), Outcome::Help));
    assert!(matches!(handle_command("quit", &mut doc), Outcome::Quit));
    assert!(matches!(handle_command("what", &mut doc), Outcome::UnknownCommand));
    assert!(matches!(handle_command("", &mut doc), Outcome::Nothing));
    assert!(matches!(handle_command("  ", &mut doc), Outcome::UnknownCommand));
    assert!(matches!(
        handle_command("save out.md", &mut doc),
        Outcome::Save { path, markdown } if path == "out.md" && markdown == "# Start\nother words\n"
    ));
    assert!(matches!(
        apply_command(Command::Save(String::new()), &mut doc),
        Outcome::NoFilename
    ));
    assert_eq!(to_markdown(&doc), "# Start\nother words\n");
}
