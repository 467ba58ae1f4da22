//! The closed set of shell interpreters a package may declare, with their
//! canonical names and shebang lines.

use vstd::prelude::*;

use crate::errors::SpmError;
use crate::strutil::lower_chars;
use crate::strutil::lower_str;
use crate::strutil::str_eq;

verus! {

/// A shell interpreter a package script may declare.
#[derive(Clone, Copy, Debug, PartialEq, Eq, Hash, Structural)]
pub enum ShellType {
    /// Plain `sh`.
    Sh,
    /// Bourne Again SHell.
    Bash,
    /// Z shell.
    Zsh,
    /// The Windows command prompt.
    Cmd,
}

/// The canonical lowercase name of an interpreter.
pub open spec fn shell_name(t: ShellType) -> Seq<char> {
    match t {
        ShellType::Sh => "sh"@,
        ShellType::Bash => "bash"@,
        ShellType::Zsh => "zsh"@,
        ShellType::Cmd => "cmd"@,
    }
}

/// The interpreter with the given canonical name, if any.
pub open spec fn shell_of_name(s: Seq<char>) -> Option<ShellType> {
    if s == "sh"@ {
        Some(ShellType::Sh)
    } else if s == "bash"@ {
        Some(ShellType::Bash)
    } else if s == "zsh"@ {
        Some(ShellType::Zsh)
    } else if s == "cmd"@ {
        Some(ShellType::Cmd)
    } else {
        None
    }
}

/// The shebang line of an interpreter.
pub open spec fn shell_shebang(t: ShellType) -> Seq<char> {
    match t {
        ShellType::Sh => "#!/usr/bin/env sh"@,
        ShellType::Bash => "#!/usr/bin/env bash"@,
        ShellType::Zsh => "#!/usr/bin/env zsh"@,
        ShellType::Cmd => "#!/usr/bin/env cmd"@,
    }
}

impl ShellType {
    /// The shebang line for the corresponding shell interpreter.
    pub fn get_shebang(&self) -> (r: &'static str)
        ensures
            r@ == shell_shebang(*self),
    {
        match self {
            ShellType::Bash => "#!/usr/bin/env bash",
            ShellType::Cmd => "#!/usr/bin/env cmd",
            ShellType::Sh => "#!/usr/bin/env sh",
            ShellType::Zsh => "#!/usr/bin/env zsh",
        }
    }

    /// The canonical name used to invoke the interpreter.
    pub fn name(&self) -> (r: &'static str)
        ensures
            r@ == shell_name(*self),
    {
        match self {
            ShellType::Bash => "bash",
            ShellType::Cmd => "cmd",
            ShellType::Sh => "sh",
            ShellType::Zsh => "zsh",
        }
    }

    /// Parse an interpreter from its name, ignoring ASCII case.  Every
    /// string other than the four canonical names is rejected.
    pub fn from_str(s: &str) -> (r: Result<ShellType, SpmError>)
        ensures
            match r {
                Ok(t) => shell_of_name(lower_chars(s@)) == Some(t),
                Err(e) => shell_of_name(lower_chars(s@)) is None && e == SpmError::InvalidInput,
            },
    {
        let l = lower_str(s);
        if str_eq(l.as_str(), "sh") {
            Ok(ShellType::Sh)
        } else if str_eq(l.as_str(), "bash") {
            Ok(ShellType::Bash)
        } else if str_eq(l.as_str(), "zsh") {
            Ok(ShellType::Zsh)
        } else if str_eq(l.as_str(), "cmd") {
            Ok(ShellType::Cmd)
        } else {
            Err(SpmError::InvalidInput)
        }
    }

    /// The interpreter with the given exact canonical name, as stored in a
    /// manifest document.
    pub fn from_exact_name(s: &str) -> (r: Option<ShellType>)
        ensures
            r == shell_of_name(s@),
    {
        if str_eq(s, "sh") {
            Some(ShellType::Sh)
        } else if str_eq(s, "bash") {
            Some(ShellType::Bash)
        } else if str_eq(s, "zsh") {
            Some(ShellType::Zsh)
        } else if str_eq(s, "cmd") {
            Some(ShellType::Cmd)
        } else {
            None
        }
    }
}

} // verus!
