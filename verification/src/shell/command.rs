use crate::shell::executable::is_builtin_name;
use crate::shell::utils::{parse_args, parsed_args};
use crate::text::{chars_of, join_from, joined, str_eq, trim, trimmed};
use vstd::prelude::*;
use vstd::string::*;

verus! {

/// The command a line names, as the shell's plain read-and-run loop sorts
/// it.
pub enum Command {
    Cd,
    Echo,
    Exit,
    Pwd,
    Type,
    Unknown(String),
}

impl From<String> for Command {
    fn from(s: String) -> (c: Command) {
        if str_eq(s.as_str(), "cd") {
            Command::Cd
        } else if str_eq(s.as_str(), "echo") {
            Command::Echo
        } else if str_eq(s.as_str(), "exit") {
            Command::Exit
        } else if str_eq(s.as_str(), "pwd") {
            Command::Pwd
        } else if str_eq(s.as_str(), "type") {
            Command::Type
        } else {
            Command::Unknown(s)
        }
    }
}

impl vstd::std_specs::convert::FromSpecImpl<String> for Command {
    open spec fn obeys_from_spec() -> bool {
        true
    }

    open spec fn from_spec(s: String) -> Command {
        if s@ == "cd"@ {
            Command::Cd
        } else if s@ == "echo"@ {
            Command::Echo
        } else if s@ == "exit"@ {
            Command::Exit
        } else if s@ == "pwd"@ {
            Command::Pwd
        } else if s@ == "type"@ {
            Command::Type
        } else {
            Command::Unknown(s)
        }
    }
}

impl Command {
    /// Whether `s` names one of the shell's own commands.
    pub fn is_builtin(s: &str) -> (r: bool)
        ensures
            r == is_builtin_name(s@),
    {
        match Command::from(s.to_owned()) {
            Command::Unknown(_) => false,
            _ => true,
        }
    }
}

/// What `echo` is asked to print, and the file it is to print to, if any.
pub struct EchoRequest {
    pub message: String,
    pub no_newline: bool,
    pub file_path: Option<String>,
}

#[derive(Debug, Clone, Copy, PartialEq, Eq, Structural)]
pub enum EchoError {
    /// A `>` with no file name after it.
    MissingFilePath,
}

/// The position of the first `c` in `s` from `from` on, if there is one.
pub open spec fn first_of(s: Seq<char>, c: char, from: int) -> Option<int>
    decreases s.len() - from,
{
    if from < 0 || from >= s.len() {
        None
    } else if s[from] == c {
        Some(from)
    } else {
        first_of(s, c, from + 1)
    }
}

/// The words that `echo` prints: all but the command's name and a leading
/// `-n`.
pub open spec fn echo_words(args: Seq<Seq<char>>) -> Seq<Seq<char>>
    recommends
        args.len() > 1,
{
    args.subrange(if args[1] == "-n"@ { 2 } else { 1 }, args.len() as int)
}

/// The words that stand behind the first `>` of the line, if it has one.
pub open spec fn words_after_redirect(input: Seq<char>) -> Option<Seq<Seq<char>>> {
    match first_of(input, '>', 0) {
        Some(at) => Some(parsed_args(trimmed(input.subrange(at + 1, input.len() as int)))),
        None => None,
    }
}

fn find_char(chars: &Vec<char>, c: char) -> (r: Option<usize>)
    ensures
        match r {
            Some(at) => first_of(chars@, c, 0) == Some(at as int) && at < chars.len(),
            None => first_of(chars@, c, 0) is None,
        },
{
    let mut i: usize = 0;
    while i < chars.len()
        invariant
            i <= chars.len(),
            first_of(chars@, c, 0) == first_of(chars@, c, i as int),
        decreases chars.len() - i,
    {
        if chars[i] == c {
            return Some(i);
        }
        i += 1;
    }
    None
}

/// Reads what `echo` is asked for from the words of the line and from the
/// line itself: the words are printed with one blank between each two, to
/// the file that the first word behind the line's first `>` names.
pub fn handle_echo(args: &Vec<String>, input: &str) -> (r: Result<EchoRequest, EchoError>)
    requires
        args.len() > 1,
    ensures
        match words_after_redirect(input@) {
            Some(words) => if words.len() == 0 {
                r == Err::<EchoRequest, EchoError>(EchoError::MissingFilePath)
            } else {
                r matches Ok(request) && (request.file_path matches Some(path) && path@
                    == words[0])
            },
            None => r matches Ok(request) && request.file_path is None,
        },
        r matches Ok(request) ==> request.no_newline == (args[1]@ == "-n"@) && request.message@
            == joined(echo_words(args@.map_values(|a: String| a@)), " "@),
{
    let ghost words = args@.map_values(|a: String| a@);
    assert(words[1] == args[1]@);
    let no_newline = str_eq(args[1].as_str(), "-n");
    let arg_index: usize = if no_newline { 2 } else { 1 };
    let message = join_from(args, arg_index, " ");
    let chars = chars_of(input);
    let file_path = match find_char(&chars, '>') {
        Some(at) => {
            let rest = trim(input.substring_char(at + 1, chars.len()));
            let mut file_args = parse_args(rest);
            if file_args.len() == 0 {
                return Err(EchoError::MissingFilePath);
            }
            assert(file_args@.map_values(|a: String| a@)[0] == file_args[0]@);
            Some(file_args.swap_remove(0))
        },
        None => None,
    };
    Ok(EchoRequest { message, no_newline, file_path })
}

} // verus!
