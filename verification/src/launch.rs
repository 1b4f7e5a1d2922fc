//! How the command of a fired binding is handed to a shell under another
//! user's identity.

use vstd::prelude::*;
use vstd::string::StringExecFns;

verus! {

/// The program that switches the user and runs the shell.
pub open spec fn spec_launcher() -> Seq<char> {
    "runuser"@
}

/// The shell that is used when the environment names none.
pub open spec fn spec_default_shell() -> Seq<char> {
    "sh"@
}

/// The arguments of the launcher: the user, then the shell with the command
/// as the text it is to run.
pub open spec fn spec_launch_arguments(
    user: Seq<char>,
    shell: Option<Seq<char>>,
    command: Seq<char>,
) -> Seq<Seq<char>> {
    seq![
        "-u"@,
        user,
        "--"@,
        match shell {
            Some(s) => s,
            None => spec_default_shell(),
        },
        "-c"@,
        command,
    ]
}

/// The program that switches the user and runs the shell.
pub fn launcher() -> (r: &'static str)
    ensures
        r@ == spec_launcher(),
{
    "runuser"
}

/// The arguments with which the launcher runs `command` as `user`, in the
/// shell the environment names or in `sh`.
pub fn launch_arguments(user: &str, shell: Option<&str>, command: &str) -> (r: Vec<String>)
    ensures
        r@.len() == 6,
        forall|i: int|
            0 <= i < 6 ==> (#[trigger] r@[i])@ == spec_launch_arguments(
                user@,
                match shell {
                    Some(s) => Some(s@),
                    None => None,
                },
                command@,
            )[i],
{
    let shell_text = match shell {
        Some(s) => s,
        None => "sh",
    };
    let mut r: Vec<String> = Vec::new();
    r.push(String::from_str("-u"));
    r.push(String::from_str(user));
    r.push(String::from_str("--"));
    r.push(String::from_str(shell_text));
    r.push(String::from_str("-c"));
    r.push(String::from_str(command));
    r
}

} // verus!
