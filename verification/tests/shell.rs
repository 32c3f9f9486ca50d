use mpsc_chat::shell::cmdline::{ensure_redirect, Action, Cmd, RedirectMode, ShellError};
use mpsc_chat::shell::command::{handle_echo, Command, EchoError};
use mpsc_chat::shell::executable::Executable;
use mpsc_chat::shell::utils::parse_args;

fn words(list: &[&str]) -> Vec<String> {
    list.iter().map(|w| w.to_string()).collect()
}

#[test]
fn words_are_split_at_whitespace() {
    assert_eq!(parse_args("echo  hello   world\n"), words(&["echo", "hello", "world"]));
    assert_eq!(parse_args(""), Vec::<String>::new());
    assert_eq!(parse_args("  \t "), Vec::<String>::new());
    assert_eq!(Cmd::parse_args("ls -l"), words(&["ls", "-l"]));
}

#[test]
fn quotes_keep_words_together() {
    assert_eq!(parse_args("echo 'a  b' \"c d\""), words(&["echo", "a  b", "c d"]));
    assert_eq!(parse_args("echo 'it\"s' \"it's\""), words(&["echo", "it\"s", "it's"]));
    assert_eq!(parse_args("echo 'open"), words(&["echo", "open"]));
    assert_eq!(parse_args("a''b"), words(&["ab"]));
}

#[test]
fn backslashes_escape() {
    assert_eq!(parse_args("a\\ b"), words(&["a b"]));
    assert_eq!(parse_args("a\\\nb"), words(&["ab"]));
    assert_eq!(parse_args("\"a\\\"b\""), words(&["a\"b"]));
    assert_eq!(parse_args("\"a\\nb\""), words(&["a\\nb"]));
    assert_eq!(parse_args("'a\\'b"), words(&["a\\'b"]));
    assert_eq!(parse_args("tail\\"), words(&["tail\\"]));
    assert_eq!(parse_args("\"tail\\"), words(&["tail\\"]));
}

#[test]
fn builtins_are_known() {
    for name in ["cd", "echo", "exit", "pwd", "type"] {
        assert!(Executable::is_builtin(name));
        assert!(Command::is_builtin(name));
    }
    for name in ["ls", "", "CD", "cd "] {
        assert!(!Executable::is_builtin(name));
        assert!(!Command::is_builtin(name));
    }
    assert_eq!(Executable::get_builtin_str(), words(&["cd", "pwd", "type", "exit", "echo"]));
    assert!(matches!(Executable::from("pwd".to_string()), Executable::Pwd));
    assert!(matches!(Executable::from("ls".to_string()), Executable::Unknown(n) if n == "ls"));
    assert!(matches!(Command::from("type".to_string()), Command::Type));
    assert!(matches!(Command::from("x".to_string()), Command::Unknown(n) if n == "x"));
}

#[test]
fn redirections_are_found() {
    let cmd = Cmd::new("ls -l > out.txt 2>> err.log");
    assert!(matches!(cmd.executable, Executable::Unknown(ref n) if n == "ls"));
    let out = cmd.stdout_redirect.as_ref().unwrap();
    assert_eq!((out.path.as_str(), out.fd, out.mode), ("out.txt", 1, RedirectMode::Write));
    let err = cmd.stderr_redirect.as_ref().unwrap();
    assert_eq!((err.path.as_str(), err.fd, err.mode), ("err.log", 2, RedirectMode::Append));
    assert!(cmd.stdin_redirect.is_none());

    let found = ensure_redirect(&words(&["cat", "1>", "a", ">|", "b", ">>", "c"]));
    let out = found.stdout_redirect.unwrap();
    assert_eq!((out.path.as_str(), out.mode), ("c", RedirectMode::Append));
    assert_eq!(found.output_target, Some("c".to_string()));

    let found = ensure_redirect(&words(&["sort", "in.txt", "<"]));
    let input = found.stdin_redirect.unwrap();
    assert_eq!((input.path.as_str(), input.fd, input.mode), ("in.txt", 0, RedirectMode::Read));

    let found = ensure_redirect(&words(&["sort", "<", ">"]));
    assert!(found.stdin_redirect.is_none());
    assert!(found.stdout_redirect.is_none());
    assert!(found.output_target.is_none());

    let empty = Cmd::new("");
    assert!(matches!(empty.executable, Executable::Unknown(ref n) if n.is_empty()));
    assert!(empty.args.is_empty());
}

#[test]
fn echo_prints_up_to_the_redirection() {
    let cmd = Cmd::new("echo -n hello  world > out.txt ignored");
    let plan = cmd.echo_plan().unwrap();
    assert_eq!(plan.message, "hello world");
    assert!(plan.no_newline);
    assert_eq!(plan.open_path, Some("out.txt".to_string()));
    assert!(!plan.append);
    assert!(plan.to_file);

    let cmd = Cmd::new("echo oops 2>> err.log");
    let plan = cmd.echo_plan().unwrap();
    assert_eq!(plan.message, "oops");
    assert!(plan.append);
    assert!(!plan.to_file);

    let cmd = Cmd::new("echo a >");
    let plan = cmd.echo_plan().unwrap();
    assert_eq!(plan.message, "a >");
    assert!(plan.open_path.is_none());

    assert_eq!(Cmd::new("echo").echo_message(), "");
    assert_eq!(Cmd::new("echo '' x").echo_message(), "x");
}

#[test]
fn echo_refuses_to_write_to_an_input() {
    let mut cmd = Cmd::new("echo hi");
    cmd.stdout_redirect = Cmd::new("sort in.txt <").stdin_redirect;
    assert!(matches!(cmd.echo_plan(), Err(ShellError::InvalidRedirectMode)));
    assert!(matches!(cmd.handle_execs(), Err(ShellError::InvalidRedirectMode)));
}

#[test]
fn commands_are_dispatched() {
    assert!(matches!(Cmd::new("cd /tmp").handle_execs(), Ok(Action::ChangeDir)));
    assert!(matches!(Cmd::new("exit 0").handle_execs(), Ok(Action::Exit)));
    assert!(matches!(Cmd::new("pwd").handle_execs(), Ok(Action::PrintDir)));
    assert!(matches!(Cmd::new("type ls").handle_execs(), Ok(Action::Type)));
    assert!(matches!(Cmd::new("").handle_execs(), Ok(Action::Nothing)));
    assert!(
        matches!(Cmd::new("echo hi there").handle_execs(), Ok(Action::Echo(plan)) if plan.message == "hi there")
    );
    match Cmd::new("grep -n x < in.txt file > out.txt 2>").handle_execs() {
        Ok(Action::Run(args)) => assert_eq!(args, words(&["-n", "x", "file", "2>"])),
        _ => panic!("a program was expected"),
    }
}

#[test]
fn exit_and_cd_and_type_read_their_words() {
    assert_eq!(Cmd::new("exit 3").exit_code(), Some(3));
    assert_eq!(Cmd::new("exit ' -1 '").exit_code(), Some(-1));
    assert_eq!(Cmd::new("exit").exit_code(), None);
    assert_eq!(Cmd::new("exit 1 two").exit_code(), None);
    assert_eq!(Cmd::new("exit +7").exit_code(), Some(7));
    assert_eq!(Cmd::new("exit -0").exit_code(), Some(0));
    assert_eq!(Cmd::new("exit 2147483647").exit_code(), Some(i32::MAX));
    assert_eq!(Cmd::new("exit 2147483648").exit_code(), None);
    assert_eq!(Cmd::new("exit -2147483648").exit_code(), Some(i32::MIN));
    assert_eq!(Cmd::new("exit -2147483649").exit_code(), None);
    assert_eq!(Cmd::new("exit -").exit_code(), None);
    assert_eq!(Cmd::new("exit 1_0").exit_code(), None);
    assert_eq!(Cmd::new("cd ' /tmp '").cd_target(), "/tmp");
    assert_eq!(Cmd::new("cd").cd_target(), "");
    assert_eq!(Cmd::new("type ls").type_target(), "ls");
    assert_eq!(Cmd::new("x > a/b.txt").program_args(), Vec::<String>::new());
}

#[test]
fn plain_echo_reads_the_line_for_its_file() {
    let line = "echo -n hello  world > 'my file.txt' more\n";
    let request = handle_echo(&parse_args(line), line).unwrap();
    assert!(request.no_newline);
    assert_eq!(request.message, "hello world > my file.txt more");
    assert_eq!(request.file_path, Some("my file.txt".to_string()));

    let line = "echo one two";
    let request = handle_echo(&parse_args(line), line).unwrap();
    assert!(!request.no_newline);
    assert_eq!(request.message, "one two");
    assert_eq!(request.file_path, None);

    let line = "echo -n";
    let request = handle_echo(&parse_args(line), line).unwrap();
    assert_eq!(request.message, "");

    let line = "echo lost >  ";
    assert!(matches!(handle_echo(&parse_args(line), line), Err(EchoError::MissingFilePath)));
}
