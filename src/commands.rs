//! Values of the command line that the library knows about.

use vstd::prelude::*;

verus! {

/// The shells that completion scripts can be written for.
#[derive(Clone, Copy, Debug, PartialEq, Eq, Structural)]
pub enum Shell {
    Bash,
    Zsh,
    Fish,
    PowerShell,
}

impl Shell {
    /// The name that selects this shell on the command line.
    pub fn value_name(&self) -> (r: &'static str)
        ensures
            r@ == match self {
                Shell::Bash => "bash"@,
                Shell::Zsh => "zsh"@,
                Shell::Fish => "fish"@,
                Shell::PowerShell => "power-shell"@,
            },
    {
        match self {
            Shell::Bash => "bash",
            Shell::Zsh => "zsh",
            Shell::Fish => "fish",
            Shell::PowerShell => "power-shell",
        }
    }
}

} // verus!
