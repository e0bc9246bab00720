//! The built-in dispatcher: which commands the shell runs in its own
//! process instead of spawning a child.
//!
//! Exactly two program names are intercepted, by case-sensitive exact
//! match on the first token of a stage: `cd` changes the shell's working
//! directory, and `exit` ends the read-eval loop.  Everything else is
//! ordinary and goes to the process orchestrator.

use vstd::prelude::*;
use vstd::string::StringExecFns;
use crate::command::ShellCommand;

verus! {

/// How the dispatcher treats one command descriptor.
#[derive(Debug, Clone, Copy, PartialEq, Eq, Structural)]
pub enum BuiltinClass {
    /// Run `cd` in the shell's own process.
    DirChange,
    /// End the read-eval loop.
    Exit,
    /// Delegate to the process orchestrator.
    Ordinary,
}

/// The classification of a program name: `cd` and `exit` are built-ins,
/// every other name is ordinary.
pub open spec fn classify_spec(program: Seq<char>) -> BuiltinClass {
    if program == "cd"@ {
        BuiltinClass::DirChange
    } else if program == "exit"@ {
        BuiltinClass::Exit
    } else {
        BuiltinClass::Ordinary
    }
}

/// Classifies one descriptor by its program name.
pub fn classify(cmd: &ShellCommand) -> (c: BuiltinClass)
    ensures
        c == classify_spec(cmd@.program),
{
    if cmd.command == String::from_str("cd") {
        BuiltinClass::DirChange
    } else if cmd.command == String::from_str("exit") {
        BuiltinClass::Exit
    } else {
        BuiltinClass::Ordinary
    }
}

/// The directory a `cd` moves to: its first argument, or the filesystem
/// root where no argument was given.
pub open spec fn cd_target_spec(args: Seq<Seq<char>>) -> Seq<char> {
    if args.len() == 0 {
        "/"@
    } else {
        args[0]
    }
}

/// The target path of a `cd` descriptor.  Further arguments are ignored;
/// with none at all the target is the filesystem root, not the home
/// directory and not a no-op.
pub fn cd_target(cmd: &ShellCommand) -> (t: String)
    ensures
        t@ == cd_target_spec(cmd@.args),
{
    if cmd.args.len() == 0 {
        String::from_str("/")
    } else {
        proof {
            assert(cmd.args.deep_view()[0] == cmd.args@[0]@);
        }
        cmd.args[0].clone()
    }
}

} // verus!
