use crate::shell::executable::{is_builtin_name, Executable};
use crate::shell::utils::{parse_args, parsed_args};
use crate::text::{i32_of, parse_i32, str_eq, trim, trimmed};
use vstd::prelude::*;
use vstd::string::*;

verus! {

/// A command line: the stages of a pipeline.
pub struct Cmdline {
    pub stages: Vec<Cmd>,
}

/// One command: what to run, its words, and where its streams go.
pub struct Cmd {
    pub executable: Executable,
    /// The words of the line, the command's name first.
    pub args: Vec<String>,
    pub stdout_redirect: Option<RedirectInfo>,
    pub stderr_redirect: Option<RedirectInfo>,
    pub stdin_redirect: Option<RedirectInfo>,
}

/// Where one stream of a command goes.
pub struct RedirectInfo {
    pub path: String,
    /// The descriptor number: 0, 1 or 2.
    pub fd: u32,
    pub mode: RedirectMode,
}

#[derive(Debug, Clone, Copy, PartialEq, Eq, Structural)]
pub enum RedirectMode {
    /// `>`: write to the file, which is created or emptied.
    Write,
    /// `>|`: write even where overwriting is guarded against.
    ForceWrite,
    /// `>>`: append to the file.
    Append,
    /// `<`: read from the file.
    Read,
}

/// A redirection with its path as a sequence of characters.
pub struct Target {
    pub path: Seq<char>,
    pub fd: u32,
    pub mode: RedirectMode,
}

impl View for RedirectInfo {
    type V = Target;

    open spec fn view(&self) -> Target {
        Target { path: self.path@, fd: self.fd, mode: self.mode }
    }
}

/// The redirections found on a command line, and the path that the last of
/// them names.
pub struct Redirects {
    pub stdout: Option<Target>,
    pub stderr: Option<Target>,
    pub stdin: Option<Target>,
    pub last: Option<Seq<char>>,
}

/// The redirections of a command line as `ensure_redirect` returns them.
pub struct Redirection {
    pub stdout_redirect: Option<RedirectInfo>,
    pub stderr_redirect: Option<RedirectInfo>,
    pub stdin_redirect: Option<RedirectInfo>,
    /// The path named by the last redirection on the line. The shell makes
    /// sure that its directory exists before the command runs.
    pub output_target: Option<String>,
}

pub open spec fn seen(r: Option<RedirectInfo>) -> Option<Target> {
    match r {
        Some(info) => Some(info@),
        None => None,
    }
}

pub open spec fn seen_path(p: Option<String>) -> Option<Seq<char>> {
    match p {
        Some(path) => Some(path@),
        None => None,
    }
}

impl View for Redirection {
    type V = Redirects;

    open spec fn view(&self) -> Redirects {
        Redirects {
            stdout: seen(self.stdout_redirect),
            stderr: seen(self.stderr_redirect),
            stdin: seen(self.stdin_redirect),
            last: seen_path(self.output_target),
        }
    }
}

pub open spec fn with_stdout(st: Redirects, path: Seq<char>, mode: RedirectMode) -> Redirects {
    Redirects {
        stdout: Some(Target { path, fd: 1, mode }),
        stderr: st.stderr,
        stdin: st.stdin,
        last: Some(path),
    }
}

pub open spec fn with_stderr(st: Redirects, path: Seq<char>, mode: RedirectMode) -> Redirects {
    Redirects {
        stdout: st.stdout,
        stderr: Some(Target { path, fd: 2, mode }),
        stdin: st.stdin,
        last: Some(path),
    }
}

pub open spec fn with_stdin(st: Redirects, path: Seq<char>) -> Redirects {
    Redirects {
        stdout: st.stdout,
        stderr: st.stderr,
        stdin: Some(Target { path, fd: 0, mode: RedirectMode::Read }),
        last: Some(path),
    }
}

/// What the word at `i` adds to the redirections found before it. An output
/// operator counts where a word follows it, and names that word. The input
/// operator `<` counts from the third word on, and names the word before
/// it.
pub open spec fn redirect_at(st: Redirects, args: Seq<Seq<char>>, i: int) -> Redirects
    recommends
        1 <= i < args.len(),
{
    let follows = i + 1 < args.len();
    let s1 = if (args[i] == ">"@ || args[i] == "1>"@) && follows {
        with_stdout(st, args[i + 1], RedirectMode::Write)
    } else {
        st
    };
    let s2 = if args[i] == ">>"@ && follows {
        with_stdout(s1, args[i + 1], RedirectMode::Append)
    } else {
        s1
    };
    let s3 = if args[i] == ">|"@ && follows {
        with_stdout(s2, args[i + 1], RedirectMode::ForceWrite)
    } else {
        s2
    };
    let s4 = if args[i] == "2>"@ && follows {
        with_stderr(s3, args[i + 1], RedirectMode::Write)
    } else {
        s3
    };
    let s5 = if args[i] == "2>>"@ && follows {
        with_stderr(s4, args[i + 1], RedirectMode::Append)
    } else {
        s4
    };
    if args[i] == "<"@ && i - 1 > 0 {
        with_stdin(s5, args[i - 1])
    } else {
        s5
    }
}

/// The redirections among the words before position `n`. The first word is
/// the command's name and is never an operator.
pub open spec fn redirects_before(args: Seq<Seq<char>>, n: int) -> Redirects
    decreases n,
{
    if n <= 1 {
        Redirects { stdout: None, stderr: None, stdin: None, last: None }
    } else {
        redirect_at(redirects_before(args, n - 1), args, n - 1)
    }
}

/// The redirections of a command line: for each stream the last one named.
pub open spec fn redirects_of(args: Seq<Seq<char>>) -> Redirects {
    redirects_before(args, args.len() as int)
}

/// Whether `word` is an operator that the shell takes out of a command's
/// arguments together with the word after it.
pub open spec fn is_redirect_op(word: Seq<char>) -> bool {
    word == ">"@ || word == ">>"@ || word == "1>"@ || word == "1>>"@ || word == "2>"@ || word
        == "2>>"@ || word == "<"@ || word == ">|"@
}

fn redirect_op(word: &str) -> (r: bool)
    ensures
        r == is_redirect_op(word@),
{
    str_eq(word, ">") || str_eq(word, ">>") || str_eq(word, "1>") || str_eq(word, "1>>")
        || str_eq(word, "2>") || str_eq(word, "2>>") || str_eq(word, "<") || str_eq(word, ">|")
}

/// Finds the redirections on a command line.
pub fn ensure_redirect(args: &Vec<String>) -> (found: Redirection)
    ensures
        found@ == redirects_of(args@.map_values(|a: String| a@)),
{
    let ghost words = args@.map_values(|a: String| a@);
    let mut found = Redirection {
        stdout_redirect: None,
        stderr_redirect: None,
        stdin_redirect: None,
        output_target: None,
    };
    let mut i: usize = 1;
    while i < args.len()
        invariant
            1 <= i,
            words == args@.map_values(|a: String| a@),
            found@ == redirects_before(words, if i <= args.len() { i as int } else { args.len() as int }),
        decreases args.len() - i,
    {
        let word = args[i].as_str();
        assert(words[i as int] == word@);
        let follows = i + 1 < args.len();
        if follows {
            assert(words[i + 1] == args[i + 1]@);
        }
        assert(words[i - 1] == args[i - 1]@);
        if (str_eq(word, ">") || str_eq(word, "1>")) && follows {
            found.output_target = Some(args[i + 1].clone());
            found.stdout_redirect = Some(
                RedirectInfo { fd: 1, path: args[i + 1].clone(), mode: RedirectMode::Write },
            );
        }
        if str_eq(word, ">>") && follows {
            found.output_target = Some(args[i + 1].clone());
            found.stdout_redirect = Some(
                RedirectInfo { fd: 1, path: args[i + 1].clone(), mode: RedirectMode::Append },
            );
        }
        if str_eq(word, ">|") && follows {
            found.output_target = Some(args[i + 1].clone());
            found.stdout_redirect = Some(
                RedirectInfo { fd: 1, path: args[i + 1].clone(), mode: RedirectMode::ForceWrite },
            );
        }
        if str_eq(word, "2>") && follows {
            found.output_target = Some(args[i + 1].clone());
            found.stderr_redirect = Some(
                RedirectInfo { fd: 2, path: args[i + 1].clone(), mode: RedirectMode::Write },
            );
        }
        if str_eq(word, "2>>") && follows {
            found.output_target = Some(args[i + 1].clone());
            found.stderr_redirect = Some(
                RedirectInfo { fd: 2, path: args[i + 1].clone(), mode: RedirectMode::Append },
            );
        }
        if str_eq(word, "<") && i - 1 > 0 {
            found.output_target = Some(args[i - 1].clone());
            found.stdin_redirect = Some(
                RedirectInfo { fd: 0, path: args[i - 1].clone(), mode: RedirectMode::Read },
            );
        }
        i += 1;
    }
    found
}

/// The first position from `i` on that holds an operator with a word after
/// it, or the number of words where there is none.
pub open spec fn echo_stop(args: Seq<Seq<char>>, i: int) -> int
    decreases args.len() - i,
{
    if i >= args.len() {
        args.len() as int
    } else if is_redirect_op(args[i]) && i + 1 < args.len() {
        i
    } else {
        echo_stop(args, i + 1)
    }
}

/// The words from `first` up to `n`, with one blank between each two.
pub open spec fn echo_text(args: Seq<Seq<char>>, first: int, n: int) -> Seq<char>
    decreases n - first,
{
    if n <= first {
        Seq::empty()
    } else {
        let before = echo_text(args, first, n - 1);
        if n - 1 > first && before.len() > 0 {
            before + " "@ + args[n - 1]
        } else {
            before + args[n - 1]
        }
    }
}

/// Whether `echo` is asked to leave out the final line feed.
pub open spec fn echo_no_newline(args: Seq<Seq<char>>) -> bool {
    args.len() > 1 && args[1] == "-n"@
}

/// The position of the first word that `echo` prints.
pub open spec fn echo_first(args: Seq<Seq<char>>) -> int {
    if echo_no_newline(args) {
        2
    } else {
        1
    }
}

/// The text that `echo` prints: its words up to the first redirection.
pub open spec fn echo_message(args: Seq<Seq<char>>) -> Seq<char> {
    echo_text(args, echo_first(args), echo_stop(args, echo_first(args)))
}

/// What `echo` is to do.
pub struct EchoPlan {
    pub message: String,
    pub no_newline: bool,
    /// The file to open first, if output is redirected, and whether it is
    /// opened for appending. Otherwise it is created or emptied.
    pub open_path: Option<String>,
    pub append: bool,
    /// Whether the message goes to that file. Otherwise it goes to standard
    /// output.
    pub to_file: bool,
}

/// What the shell is to do for a command. The shell's own commands name
/// themselves; they read their words from the command.
pub enum Action {
    ChangeDir,
    Exit,
    Echo(EchoPlan),
    PrintDir,
    Type,
    /// Run the program named by the first word, if it can be found, with
    /// these arguments.
    Run(Vec<String>),
    /// There is nothing to run.
    Nothing,
}

#[derive(Debug, Clone, Copy, PartialEq, Eq, Structural)]
pub enum ShellError {
    /// `echo` was given a redirection that reads.
    InvalidRedirectMode,
}

/// The one redirection that `echo` honours: that of standard output or that
/// of standard error, where exactly one of the two is given.
pub open spec fn echo_redirect(stdout: Option<Target>, stderr: Option<Target>) -> Option<Target> {
    match (stdout, stderr) {
        (Some(r), None) => Some(r),
        (None, Some(r)) => Some(r),
        _ => None,
    }
}

/// The arguments from position `i` on that a program is run with: the
/// words without the redirection operators and the word after each.
pub open spec fn run_args(rest: Seq<Seq<char>>, i: int) -> Seq<Seq<char>>
    decreases rest.len() - i,
{
    if i >= rest.len() || i < 0 {
        Seq::empty()
    } else if is_redirect_op(rest[i]) && i + 1 < rest.len() {
        run_args(rest, i + 2)
    } else {
        seq![rest[i]] + run_args(rest, i + 1)
    }
}

impl Cmd {
    /// Reads a command from a line.
    pub fn new(input: &str) -> (cmd: Cmd)
        ensures
            cmd.args@.map_values(|a: String| a@) == parsed_args(input@),
            seen(cmd.stdout_redirect) == redirects_of(parsed_args(input@)).stdout,
            seen(cmd.stderr_redirect) == redirects_of(parsed_args(input@)).stderr,
            seen(cmd.stdin_redirect) == redirects_of(parsed_args(input@)).stdin,
            cmd.args.len() > 0 ==> cmd.executable == <Executable as vstd::std_specs::convert::FromSpec<
                String,
            >>::from_spec(cmd.args[0]),
            cmd.args.len() == 0 ==> (cmd.executable matches Executable::Unknown(name) && name@.len()
                == 0),
    {
        let args = Cmd::parse_args(input);
        let found = ensure_redirect(&args);
        let executable = if args.len() > 0 {
            Executable::from(args[0].clone())
        } else {
            proof {
                reveal_strlit("");
            }
            Executable::Unknown("".to_owned())
        };
        Cmd {
            executable,
            args,
            stdout_redirect: found.stdout_redirect,
            stderr_redirect: found.stderr_redirect,
            stdin_redirect: found.stdin_redirect,
        }
    }

    /// Splits a command line into words.
    pub fn parse_args(input: &str) -> (args: Vec<String>)
        ensures
            args@.map_values(|a: String| a@) == parsed_args(input@),
    {
        parse_args(input)
    }

    /// The text that `echo` prints for this command's words.
    pub fn echo_message(&self) -> (message: String)
        ensures
            message@ == echo_message(self.args@.map_values(|a: String| a@)),
    {
        let ghost words = self.args@.map_values(|a: String| a@);
        let mut arg_index: usize = 1;
        if self.args.len() > 1 && str_eq(self.args[1].as_str(), "-n") {
            assert(words[1] == self.args[1]@);
            arg_index = 2;
        } else if self.args.len() > 1 {
            assert(words[1] == self.args[1]@);
        }
        let mut output_message = String::new();
        let mut i: usize = arg_index;
        while i < self.args.len()
            invariant
                arg_index == echo_first(words),
                arg_index <= i,
                i <= self.args.len() || i == arg_index,
                words == self.args@.map_values(|a: String| a@),
                echo_stop(words, arg_index as int) == echo_stop(words, i as int),
                output_message@ == echo_text(words, arg_index as int, i as int),
            decreases self.args.len() - i,
        {
            assert(words[i as int] == self.args[i as int]@);
            if redirect_op(self.args[i].as_str()) && i + 1 < self.args.len() {
                return output_message;
            }
            if i > arg_index && !output_message.as_str().is_empty() {
                output_message.append(" ");
            }
            output_message.append(self.args[i].as_str());
            assert(output_message@ =~= echo_text(words, arg_index as int, i + 1));
            i += 1;
        }
        output_message
    }

    /// What `echo` is to do for this command.
    pub fn echo_plan(&self) -> (r: Result<EchoPlan, ShellError>)
        ensures
            match echo_redirect(seen(self.stdout_redirect), seen(self.stderr_redirect)) {
                Some(target) => if target.mode == RedirectMode::Read {
                    r == Err::<EchoPlan, ShellError>(ShellError::InvalidRedirectMode)
                } else {
                    r matches Ok(plan) && seen_path(plan.open_path) == Some(target.path)
                        && plan.append == (target.mode == RedirectMode::Append) && plan.to_file
                        == (target.fd == 1)
                },
                None => r matches Ok(plan) && plan.open_path is None && !plan.append
                    && !plan.to_file,
            },
            r matches Ok(plan) ==> plan.message@ == echo_message(
                self.args@.map_values(|a: String| a@),
            ) && plan.no_newline == echo_no_newline(self.args@.map_values(|a: String| a@)),
    {
        let ghost words = self.args@.map_values(|a: String| a@);
        let no_newline = self.args.len() > 1 && str_eq(self.args[1].as_str(), "-n");
        if self.args.len() > 1 {
            assert(words[1] == self.args[1]@);
        }
        let redirect = match (&self.stdout_redirect, &self.stderr_redirect) {
            (Some(r), None) => Some(r),
            (None, Some(r)) => Some(r),
            _ => None,
        };
        match redirect {
            Some(target) => {
                let append = match target.mode {
                    RedirectMode::Write => false,
                    RedirectMode::ForceWrite => false,
                    RedirectMode::Append => true,
                    RedirectMode::Read => {
                        return Err(ShellError::InvalidRedirectMode);
                    },
                };
                Ok(
                    EchoPlan {
                        message: self.echo_message(),
                        no_newline,
                        open_path: Some(target.path.clone()),
                        append,
                        to_file: target.fd == 1,
                    },
                )
            },
            None => Ok(
                EchoPlan {
                    message: self.echo_message(),
                    no_newline,
                    open_path: None,
                    append: false,
                    to_file: false,
                },
            ),
        }
    }

    /// The arguments that the program named by the first word is run with.
    pub fn program_args(&self) -> (out: Vec<String>)
        ensures
            out@.map_values(|a: String| a@) == run_args(
                self.args@.map_values(|a: String| a@),
                1,
            ),
    {
        let ghost words = self.args@.map_values(|a: String| a@);
        let mut out: Vec<String> = Vec::new();
        let mut i: usize = 1;
        assert(out@.map_values(|a: String| a@) =~= Seq::<Seq<char>>::empty());
        while i < self.args.len()
            invariant
                1 <= i,
                words == self.args@.map_values(|a: String| a@),
                out@.map_values(|a: String| a@) + run_args(words, i as int) == run_args(words, 1),
            decreases self.args.len() - i,
        {
            assert(words[i as int] == self.args[i as int]@);
            if redirect_op(self.args[i].as_str()) && i + 1 < self.args.len() {
                i += 2;
            } else {
                let ghost before = out@.map_values(|a: String| a@);
                out.push(self.args[i].clone());
                assert(out@.map_values(|a: String| a@) =~= before + seq![words[i as int]]);
                assert((before + seq![words[i as int]]) + run_args(words, i + 1) =~= before + (
                seq![words[i as int]] + run_args(words, i + 1)));
                i += 1;
            }
        }
        assert(out@.map_values(|a: String| a@) + Seq::<Seq<char>>::empty() =~= out@.map_values(
            |a: String| a@,
        ));
        out
    }

    /// The code that `exit` is to leave with: the number that the last word
    /// reads as, if it reads as one.
    pub fn exit_code(&self) -> (code: Option<i32>)
        requires
            self.args.len() > 0,
        ensures
            code == i32_of(trimmed(self.args[self.args.len() - 1]@)),
    {
        parse_i32(trim(self.args[self.args.len() - 1].as_str()))
    }

    /// The directory that `cd` is to change to: the second word without the
    /// whitespace around it, or the empty text where there is none.
    pub fn cd_target(&self) -> (dir: String)
        ensures
            dir@ == if self.args.len() > 1 {
                trimmed(self.args[1]@)
            } else {
                Seq::<char>::empty()
            },
    {
        if self.args.len() > 1 {
            trim(self.args[1].as_str()).to_owned()
        } else {
            String::new()
        }
    }

    /// The name that `type` is asked about: the last word without the
    /// whitespace around it.
    pub fn type_target(&self) -> (name: String)
        requires
            self.args.len() > 0,
        ensures
            name@ == trimmed(self.args[self.args.len() - 1]@),
    {
        trim(self.args[self.args.len() - 1].as_str()).to_owned()
    }

    /// Decides what the shell is to do for this command.
    pub fn handle_execs(&self) -> (r: Result<Action, ShellError>)
        ensures
            match self.executable {
                Executable::Cd => r matches Ok(Action::ChangeDir),
                Executable::Exit => r matches Ok(Action::Exit),
                Executable::Pwd => r matches Ok(Action::PrintDir),
                Executable::Type => r matches Ok(Action::Type),
                Executable::Echo => match r {
                    Ok(Action::Echo(plan)) => plan.message@ == echo_message(
                        self.args@.map_values(|a: String| a@),
                    ),
                    Ok(_) => false,
                    Err(_) => echo_redirect(
                        seen(self.stdout_redirect),
                        seen(self.stderr_redirect),
                    ) matches Some(target) && target.mode == RedirectMode::Read,
                },
                Executable::Unknown(_) => if self.args.len() == 0 || is_builtin_name(
                    self.args[0]@,
                ) {
                    r matches Ok(Action::Nothing)
                } else {
                    r matches Ok(Action::Run(out)) && out@.map_values(|a: String| a@) == run_args(
                        self.args@.map_values(|a: String| a@),
                        1,
                    )
                },
            },
    {
        match self.executable {
            Executable::Cd => Ok(Action::ChangeDir),
            Executable::Exit => Ok(Action::Exit),
            Executable::Echo => {
                match self.echo_plan() {
                    Ok(plan) => Ok(Action::Echo(plan)),
                    Err(e) => Err(e),
                }
            },
            Executable::Pwd => Ok(Action::PrintDir),
            Executable::Type => Ok(Action::Type),
            Executable::Unknown(_) => {
                if self.args.len() == 0 || Executable::is_builtin(self.args[0].as_str()) {
                    Ok(Action::Nothing)
                } else {
                    Ok(Action::Run(self.program_args()))
                }
            },
        }
    }
}

} // verus!
