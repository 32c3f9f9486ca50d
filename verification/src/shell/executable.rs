use crate::text::str_eq;
use vstd::prelude::*;
use vstd::string::*;

verus! {

/// What the first word of a command line names: one of the shell's own
/// commands, or a program to look for.
pub enum Executable {
    Cd,
    Echo,
    Exit,
    Pwd,
    Type,
    Unknown(String),
}

/// Whether `name` is one of the shell's own commands.
pub open spec fn is_builtin_name(name: Seq<char>) -> bool {
    name == "cd"@ || name == "echo"@ || name == "exit"@ || name == "pwd"@ || name == "type"@
}

impl From<String> for Executable {
    fn from(s: String) -> (e: Executable) {
        if str_eq(s.as_str(), "cd") {
            Executable::Cd
        } else if str_eq(s.as_str(), "echo") {
            Executable::Echo
        } else if str_eq(s.as_str(), "exit") {
            Executable::Exit
        } else if str_eq(s.as_str(), "pwd") {
            Executable::Pwd
        } else if str_eq(s.as_str(), "type") {
            Executable::Type
        } else {
            Executable::Unknown(s)
        }
    }
}

impl vstd::std_specs::convert::FromSpecImpl<String> for Executable {
    open spec fn obeys_from_spec() -> bool {
        true
    }

    open spec fn from_spec(s: String) -> Executable {
        if s@ == "cd"@ {
            Executable::Cd
        } else if s@ == "echo"@ {
            Executable::Echo
        } else if s@ == "exit"@ {
            Executable::Exit
        } else if s@ == "pwd"@ {
            Executable::Pwd
        } else if s@ == "type"@ {
            Executable::Type
        } else {
            Executable::Unknown(s)
        }
    }
}

impl Executable {
    /// Whether `s` names one of the shell's own commands.
    pub fn is_builtin(s: &str) -> (r: bool)
        ensures
            r == is_builtin_name(s@),
    {
        match Executable::from(s.to_owned()) {
            Executable::Unknown(_) => false,
            _ => true,
        }
    }

    /// The names of the shell's own commands, in the order in which
    /// completion offers them.
    pub fn get_builtin_str() -> (names: Vec<String>)
        ensures
            names@.map_values(|n: String| n@) == seq!["cd"@, "pwd"@, "type"@, "exit"@, "echo"@],
            forall|i: int| 0 <= i < names.len() ==> is_builtin_name(#[trigger] names[i]@),
    {
        let mut names: Vec<String> = Vec::new();
        names.push("cd".to_owned());
        names.push("pwd".to_owned());
        names.push("type".to_owned());
        names.push("exit".to_owned());
        names.push("echo".to_owned());
        assert(names@.map_values(|n: String| n@) =~= seq![
            "cd"@,
            "pwd"@,
            "type"@,
            "exit"@,
            "echo"@,
        ]);
        names
    }
}

} // verus!
