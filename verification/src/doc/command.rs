use crate::text::{
    join_from, joined, lowercase_of, parse_usize, split_whitespace, str_eq, to_lowercase, usize_of,
    words_of,
};
use crate::doc::document::Document;
use crate::doc::markdown::{markdown_text, outline, to_markdown, SectionText};
use crate::doc::paragraph::Paragraph;
use crate::doc::section::Section;
use vstd::prelude::*;

verus! {

/// The commands of the outline editor.
#[derive(Debug)]
pub enum Command {
    Help,
    Quit,
    ListSections,
    Save(String),
    ShowSec(usize),
    AddSec(String),
    EditSec(usize, String),
    AddPar(usize, String),
    EditPar(usize, usize, String),
    /// What is entered when a line is no command.
    Unknown,
}

/// A command with its texts as sequences of characters.
pub enum CommandText {
    Help,
    Quit,
    ListSections,
    Save(Seq<char>),
    ShowSec(usize),
    AddSec(Seq<char>),
    EditSec(usize, Seq<char>),
    AddPar(usize, Seq<char>),
    EditPar(usize, usize, Seq<char>),
    Unknown,
}

impl View for Command {
    type V = CommandText;

    open spec fn view(&self) -> CommandText {
        match *self {
            Command::Help => CommandText::Help,
            Command::Quit => CommandText::Quit,
            Command::ListSections => CommandText::ListSections,
            Command::Save(name) => CommandText::Save(name@),
            Command::ShowSec(idx) => CommandText::ShowSec(idx),
            Command::AddSec(title) => CommandText::AddSec(title@),
            Command::EditSec(idx, title) => CommandText::EditSec(idx, title@),
            Command::AddPar(idx, content) => CommandText::AddPar(idx, content@),
            Command::EditPar(sidx, pidx, content) => CommandText::EditPar(sidx, pidx, content@),
            Command::Unknown => CommandText::Unknown,
        }
    }
}

/// The word at `i`, or the empty word where the line has fewer words.
pub open spec fn word_at(words: Seq<Seq<char>>, i: int) -> Seq<char> {
    if 0 <= i < words.len() {
        words[i]
    } else {
        Seq::empty()
    }
}

/// The words from `from` on, with one blank between each two.
pub open spec fn rest_from(words: Seq<Seq<char>>, from: int) -> Seq<char> {
    joined(
        words.subrange(if from <= words.len() { from } else { words.len() as int }, words.len() as int),
        " "@,
    )
}

/// The number written as the word at `i`, if there is such a word and it
/// reads as a number.
pub open spec fn number_at(words: Seq<Seq<char>>, i: int) -> Option<usize> {
    if 0 <= i < words.len() {
        usize_of(words[i])
    } else {
        None
    }
}

/// The command that a line of words stands for. The first word, and the
/// `sec` or `par` after it, are read without regard to case.
pub open spec fn command_of_words(words: Seq<Seq<char>>) -> CommandText {
    let verb = lowercase_of(word_at(words, 0));
    let entity = lowercase_of(word_at(words, 1));
    if words.len() == 0 {
        CommandText::Unknown
    } else if verb == "help"@ || verb == "h"@ {
        CommandText::Help
    } else if verb == "quit"@ || verb == "q"@ {
        CommandText::Quit
    } else if verb == "list"@ {
        if words.len() > 1 && entity == "sec"@ {
            CommandText::ListSections
        } else {
            CommandText::Unknown
        }
    } else if verb == "save"@ {
        if word_at(words, 1).len() > 0 {
            CommandText::Save(word_at(words, 1))
        } else {
            CommandText::Unknown
        }
    } else if verb == "show"@ {
        match number_at(words, 2) {
            Some(idx) if entity == "sec"@ => CommandText::ShowSec(idx),
            _ => CommandText::Unknown,
        }
    } else if verb == "add"@ {
        if entity == "sec"@ {
            if rest_from(words, 2).len() > 0 {
                CommandText::AddSec(rest_from(words, 2))
            } else {
                CommandText::Unknown
            }
        } else if entity == "par"@ {
            match number_at(words, 2) {
                Some(idx) => CommandText::AddPar(idx, rest_from(words, 3)),
                None => CommandText::Unknown,
            }
        } else {
            CommandText::Unknown
        }
    } else if verb == "edit"@ {
        if entity == "sec"@ {
            match number_at(words, 2) {
                Some(idx) => CommandText::EditSec(idx, rest_from(words, 3)),
                None => CommandText::Unknown,
            }
        } else if entity == "par"@ {
            match (number_at(words, 2), number_at(words, 3)) {
                (Some(sidx), Some(pidx)) => CommandText::EditPar(sidx, pidx, rest_from(words, 4)),
                _ => CommandText::Unknown,
            }
        } else {
            CommandText::Unknown
        }
    } else {
        CommandText::Unknown
    }
}

/// The command that a line stands for.
pub open spec fn command_of(line: Seq<char>) -> CommandText {
    command_of_words(words_of(line))
}

impl From<&str> for Command {
    fn from(line: &str) -> (c: Command)
        ensures
            c@ == command_of(line@),
    {
        Command::from_line(line)
    }
}

impl vstd::std_specs::convert::FromSpecImpl<&str> for Command {
    /// The conversion makes new strings, so it is described by `command_of`
    /// on views and not by a value.
    open spec fn obeys_from_spec() -> bool {
        false
    }

    open spec fn from_spec(line: &str) -> Command {
        Command::Unknown
    }
}

/// The number written as the word at `i`, if any.
fn read_number(tokens: &Vec<String>, i: usize) -> (r: Option<usize>)
    ensures
        r == number_at(tokens@.map_values(|w: String| w@), i as int),
{
    if i < tokens.len() {
        parse_usize(tokens[i].as_str())
    } else {
        None
    }
}

/// The words from `from` on, joined by blanks.
fn rest(tokens: &Vec<String>, from: usize) -> (r: String)
    ensures
        r@ == rest_from(tokens@.map_values(|w: String| w@), from as int),
{
    join_from(tokens, from, " ")
}

/// The lowercase form of the word at `i`, or of the empty word.
fn lower_word(tokens: &Vec<String>, i: usize) -> (r: String)
    ensures
        r@ == lowercase_of(word_at(tokens@.map_values(|w: String| w@), i as int)),
{
    if i < tokens.len() {
        to_lowercase(tokens[i].as_str())
    } else {
        proof {
            reveal_strlit("");
            assert(""@ =~= Seq::<char>::empty());
        }
        to_lowercase("")
    }
}

impl Command {
    /// Reads a command from the words of a line.
    pub fn from_words(tokens: &Vec<String>) -> (c: Command)
        ensures
            c@ == command_of_words(tokens@.map_values(|w: String| w@)),
    {
        let ghost words = tokens@.map_values(|w: String| w@);
        if tokens.len() == 0 {
            return Command::Unknown;
        }
        let main_cmd = lower_word(tokens, 0);
        let verb = main_cmd.as_str();
        let entity_word = lower_word(tokens, 1);
        let entity = entity_word.as_str();
        if str_eq(verb, "help") || str_eq(verb, "h") {
            Command::Help
        } else if str_eq(verb, "quit") || str_eq(verb, "q") {
            Command::Quit
        } else if str_eq(verb, "list") {
            if tokens.len() > 1 && str_eq(entity, "sec") {
                Command::ListSections
            } else {
                Command::Unknown
            }
        } else if str_eq(verb, "save") {
            if tokens.len() > 1 && !tokens[1].as_str().is_empty() {
                assert(words[1] == tokens[1]@);
                Command::Save(tokens[1].clone())
            } else {
                Command::Unknown
            }
        } else if str_eq(verb, "show") {
            match read_number(tokens, 2) {
                Some(idx) => {
                    if str_eq(entity, "sec") {
                        Command::ShowSec(idx)
                    } else {
                        Command::Unknown
                    }
                },
                None => Command::Unknown,
            }
        } else if str_eq(verb, "add") {
            if str_eq(entity, "sec") {
                let title = rest(tokens, 2);
                if title.as_str().is_empty() {
                    Command::Unknown
                } else {
                    Command::AddSec(title)
                }
            } else if str_eq(entity, "par") {
                match read_number(tokens, 2) {
                    Some(idx) => Command::AddPar(idx, rest(tokens, 3)),
                    None => Command::Unknown,
                }
            } else {
                Command::Unknown
            }
        } else if str_eq(verb, "edit") {
            if str_eq(entity, "sec") {
                match read_number(tokens, 2) {
                    Some(idx) => Command::EditSec(idx, rest(tokens, 3)),
                    None => Command::Unknown,
                }
            } else if str_eq(entity, "par") {
                match (read_number(tokens, 2), read_number(tokens, 3)) {
                    (Some(sidx), Some(pidx)) => Command::EditPar(sidx, pidx, rest(tokens, 4)),
                    _ => Command::Unknown,
                }
            } else {
                Command::Unknown
            }
        } else {
            Command::Unknown
        }
    }

    /// Reads a command from a line.
    pub fn from_line(line: &str) -> (c: Command)
        ensures
            c@ == command_of(line@),
    {
        let tokens = split_whitespace(line);
        Command::from_words(&tokens)
    }
}

/// What the editor reports after a command, for its front end to show or to
/// carry out.
pub enum Outcome {
    /// Show the list of commands.
    Help,
    /// Leave the program.
    Quit,
    /// Show the titles of all sections.
    ListTitles,
    /// Write `markdown` to the file `path`.
    Save { path: String, markdown: String },
    /// A save was asked for without a file name.
    NoFilename,
    /// Show the section at this position with its paragraphs.
    ShowSection(usize),
    /// There is no section at this position.
    NoSection(usize),
    SectionAdded,
    SectionRenamed(usize),
    /// A paragraph was added to the section at this position.
    ParagraphAdded(usize),
    ParagraphEdited { section: usize, paragraph: usize },
    NoParagraph { section: usize, paragraph: usize },
    /// The line was no command.
    UnknownCommand,
    /// The line was empty.
    Nothing,
}

/// An outcome with its texts as sequences of characters.
pub enum OutcomeText {
    Help,
    Quit,
    ListTitles,
    Save { path: Seq<char>, markdown: Seq<char> },
    NoFilename,
    ShowSection(usize),
    NoSection(usize),
    SectionAdded,
    SectionRenamed(usize),
    ParagraphAdded(usize),
    ParagraphEdited { section: usize, paragraph: usize },
    NoParagraph { section: usize, paragraph: usize },
    UnknownCommand,
    Nothing,
}

impl View for Outcome {
    type V = OutcomeText;

    open spec fn view(&self) -> OutcomeText {
        match *self {
            Outcome::Help => OutcomeText::Help,
            Outcome::Quit => OutcomeText::Quit,
            Outcome::ListTitles => OutcomeText::ListTitles,
            Outcome::Save { path, markdown } => OutcomeText::Save {
                path: path@,
                markdown: markdown@,
            },
            Outcome::NoFilename => OutcomeText::NoFilename,
            Outcome::ShowSection(idx) => OutcomeText::ShowSection(idx),
            Outcome::NoSection(idx) => OutcomeText::NoSection(idx),
            Outcome::SectionAdded => OutcomeText::SectionAdded,
            Outcome::SectionRenamed(idx) => OutcomeText::SectionRenamed(idx),
            Outcome::ParagraphAdded(idx) => OutcomeText::ParagraphAdded(idx),
            Outcome::ParagraphEdited { section, paragraph } => OutcomeText::ParagraphEdited {
                section,
                paragraph,
            },
            Outcome::NoParagraph { section, paragraph } => OutcomeText::NoParagraph {
                section,
                paragraph,
            },
            Outcome::UnknownCommand => OutcomeText::UnknownCommand,
            Outcome::Nothing => OutcomeText::Nothing,
        }
    }
}

/// The outline after a command. Only four commands change it: a new section
/// goes to the end, a paragraph to the end of its section, and an edit
/// replaces one title or one paragraph. A command that names a section or a
/// paragraph that is not there changes nothing.
pub open spec fn outline_after(command: CommandText, before: Seq<SectionText>) -> Seq<
    SectionText,
> {
    match command {
        CommandText::AddSec(title) => before.push(
            SectionText { title, paragraphs: Seq::empty() },
        ),
        CommandText::EditSec(idx, title) => if idx < before.len() {
            before.update(
                idx as int,
                SectionText { title, paragraphs: before[idx as int].paragraphs },
            )
        } else {
            before
        },
        CommandText::AddPar(idx, content) => if idx < before.len() {
            before.update(
                idx as int,
                SectionText {
                    title: before[idx as int].title,
                    paragraphs: before[idx as int].paragraphs.push(content),
                },
            )
        } else {
            before
        },
        CommandText::EditPar(sidx, pidx, content) => if sidx < before.len() && pidx
            < before[sidx as int].paragraphs.len() {
            before.update(
                sidx as int,
                SectionText {
                    title: before[sidx as int].title,
                    paragraphs: before[sidx as int].paragraphs.update(pidx as int, content),
                },
            )
        } else {
            before
        },
        _ => before,
    }
}

/// What the editor reports after a command.
pub open spec fn outcome_of(command: CommandText, before: Seq<SectionText>) -> OutcomeText {
    match command {
        CommandText::Help => OutcomeText::Help,
        CommandText::Quit => OutcomeText::Quit,
        CommandText::ListSections => OutcomeText::ListTitles,
        CommandText::Save(path) => if path.len() == 0 {
            OutcomeText::NoFilename
        } else {
            OutcomeText::Save { path, markdown: markdown_text(before) }
        },
        CommandText::ShowSec(idx) => if idx < before.len() {
            OutcomeText::ShowSection(idx)
        } else {
            OutcomeText::NoSection(idx)
        },
        CommandText::AddSec(_) => OutcomeText::SectionAdded,
        CommandText::EditSec(idx, _) => if idx < before.len() {
            OutcomeText::SectionRenamed(idx)
        } else {
            OutcomeText::NoSection(idx)
        },
        CommandText::AddPar(idx, _) => if idx < before.len() {
            OutcomeText::ParagraphAdded(idx)
        } else {
            OutcomeText::NoSection(idx)
        },
        CommandText::EditPar(sidx, pidx, _) => if sidx >= before.len() {
            OutcomeText::NoSection(sidx)
        } else if pidx < before[sidx as int].paragraphs.len() {
            OutcomeText::ParagraphEdited { section: sidx, paragraph: pidx }
        } else {
            OutcomeText::NoParagraph { section: sidx, paragraph: pidx }
        },
        CommandText::Unknown => OutcomeText::UnknownCommand,
    }
}

/// Carries out a command on a document.
pub fn apply_command(command: Command, doc: &mut Document) -> (outcome: Outcome)
    ensures
        outline(*final(doc)) == outline_after(command@, outline(*old(doc))),
        outcome@ == outcome_of(command@, outline(*old(doc))),
{
    let ghost before = outline(*doc);
    match command {
        Command::Help => Outcome::Help,
        Command::Quit => Outcome::Quit,
        Command::ListSections => Outcome::ListTitles,
        Command::Save(out_file) => {
            if out_file.as_str().is_empty() {
                Outcome::NoFilename
            } else {
                let markdown = to_markdown(doc);
                Outcome::Save { path: out_file, markdown }
            }
        },
        Command::ShowSec(idx) => {
            if idx < doc.sections.len() {
                Outcome::ShowSection(idx)
            } else {
                Outcome::NoSection(idx)
            }
        },
        Command::AddSec(title) => {
            let section = Section::new(title);
            assert(section.texts() =~= Seq::<Seq<char>>::empty());
            doc.add_section(section);
            assert(outline(*doc) =~= outline_after(command@, before));
            Outcome::SectionAdded
        },
        Command::EditSec(idx, new_title) => {
            match doc.get_section(idx) {
                Some(sec) => {
                    sec.title = new_title;
                    assert(outline(*doc) =~= outline_after(command@, before));
                    Outcome::SectionRenamed(idx)
                },
                None => Outcome::NoSection(idx),
            }
        },
        Command::AddPar(sidx, content) => {
            match doc.get_section(sidx) {
                Some(sec) => {
                    let ghost texts = sec.texts();
                    sec.add_paragraph(Paragraph::new(content));
                    assert(sec.texts() =~= texts.push(content@));
                    assert(outline(*doc) =~= outline_after(command@, before));
                    Outcome::ParagraphAdded(sidx)
                },
                None => Outcome::NoSection(sidx),
            }
        },
        Command::EditPar(sidx, pidx, new_content) => {
            match doc.get_section(sidx) {
                Some(sec) => {
                    let ghost texts = sec.texts();
                    match sec.get_paragraph(pidx) {
                        Some(para) => {
                            para.edit_content(new_content);
                            assert(sec.texts() =~= texts.update(pidx as int, new_content@));
                            assert(outline(*doc) =~= outline_after(command@, before));
                            Outcome::ParagraphEdited { section: sidx, paragraph: pidx }
                        },
                        None => Outcome::NoParagraph { section: sidx, paragraph: pidx },
                    }
                },
                None => Outcome::NoSection(sidx),
            }
        },
        Command::Unknown => Outcome::UnknownCommand,
    }
}

/// Reads a command from `line` and carries it out on `doc`. An empty line
/// is passed over in silence.
pub fn handle_command(line: &str, doc: &mut Document) -> (outcome: Outcome)
    ensures
        outline(*final(doc)) == outline_after(command_of(line@), outline(*old(doc))),
        outcome@ == if command_of(line@) is Unknown && line@.len() == 0 {
            OutcomeText::Nothing
        } else {
            outcome_of(command_of(line@), outline(*old(doc)))
        },
{
    let command = Command::from_line(line);
    match command {
        Command::Unknown => {
            if line.is_empty() {
                Outcome::Nothing
            } else {
                Outcome::UnknownCommand
            }
        },
        _ => apply_command(command, doc),
    }
}

} // verus!
