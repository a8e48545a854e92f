//! The shell that a new session runs.

use vstd::prelude::*;

verus! {

/// A program and the arguments it is started with.
pub struct ShellCommand {
    pub program: String,
    pub args: Vec<String>,
}

impl ShellCommand {
    /// Whether this is the interactive shell that sessions run unless told
    /// otherwise: `powershell.exe -NoLogo`.
    pub open spec fn is_default_shell(&self) -> bool {
        &&& self.program@ == "powershell.exe"@
        &&& self.args@.len() == 1
        &&& self.args@[0]@ == "-NoLogo"@
    }

    /// The shell that sessions run unless told otherwise.
    pub fn default_shell() -> (command: ShellCommand)
        ensures
            command.is_default_shell(),
    {
        let mut args: Vec<String> = Vec::new();
        args.push("-NoLogo".to_string());
        ShellCommand { program: "powershell.exe".to_string(), args }
    }
}

} // verus!
