//! Platform differences: command names, the shell in use, and where shell
//! completion scripts go. The caller reads the environment and says which
//! platform it runs on.

use vstd::prelude::*;
use vstd::string::*;
use crate::text::{concat, contains, ends_with, has_infix, has_suffix, owned, str_eq};

verus! {

/// Cross-platform helpers.
pub struct Platform;

/// `dir` joined with the relative path `name`.
pub open spec fn joined(dir: Seq<char>, name: Seq<char>) -> Seq<char> {
    if has_suffix(dir, "/"@) {
        dir + name
    } else {
        dir + "/"@ + name
    }
}

/// `dir` joined with the relative path `name`.
pub fn join_path(dir: &str, name: &str) -> (r: String)
    ensures
        r@ == joined(dir@, name@),
{
    if ends_with(dir, "/") {
        concat(dir, name)
    } else {
        let d = concat(dir, "/");
        concat(d.as_str(), name)
    }
}

/// Where the completion script for `shell` is written.
pub open spec fn completion_path(
    shell: Seq<char>,
    home: Seq<char>,
    config_dir: Option<Seq<char>>,
    windows: bool,
) -> Option<Seq<char>> {
    if shell == "bash"@ {
        Some(joined(home, ".spine_completion.bash"@))
    } else if shell == "zsh"@ {
        Some(joined(home, ".spine_completion.zsh"@))
    } else if shell == "fish"@ {
        if windows {
            None
        } else {
            match config_dir {
                Some(c) => Some(joined(c, "fish/completions/spine.fish"@)),
                None => Some(joined(home, ".config/fish/completions/spine.fish"@)),
            }
        }
    } else if shell == "powershell"@ || shell == "cmd"@ {
        Some(joined(home, "spine_completion.ps1"@))
    } else {
        Some(joined(home, ".spine_completion."@ + shell))
    }
}

impl Platform {
    /// The executable name of `base_name`: on Windows the package manager
    /// and Angular tools carry a `.cmd` suffix.
    pub fn get_command_name(base_name: &str, windows: bool) -> (r: String)
        ensures
            windows && (base_name@ == "npm"@ || base_name@ == "ng"@ || base_name@ == "npx"@) ==> r@
                == base_name@ + ".cmd"@,
            !(windows && (base_name@ == "npm"@ || base_name@ == "ng"@ || base_name@ == "npx"@))
                ==> r@ == base_name@,
    {
        if windows && (str_eq(base_name, "npm") || str_eq(base_name, "ng") || str_eq(base_name, "npx")) {
            concat(base_name, ".cmd")
        } else {
            owned(base_name)
        }
    }

    /// The shell in use. Elsewhere than on Windows it is read from the file
    /// name of `$SHELL` and only bash, zsh and fish are known; on Windows
    /// PowerShell is assumed unless `%COMSPEC%` names cmd and PowerShell's
    /// module path is unset.
    pub fn detect_current_shell(
        windows: bool,
        shell_file_name: Option<&str>,
        ps_module_path_set: bool,
        comspec_lowercase: Option<&str>,
    ) -> (r: Option<String>)
        ensures
            windows ==> (r matches Some(s) && if !ps_module_path_set && (comspec_lowercase matches Some(
                c,
            ) && has_infix(c@, "cmd"@)) {
                s@ == "cmd"@
            } else {
                s@ == "powershell"@
            }),
            !windows ==> match shell_file_name {
                Some(n) => if n@ == "bash"@ || n@ == "zsh"@ || n@ == "fish"@ {
                    r matches Some(s) && s@ == n@
                } else {
                    r is None
                },
                None => r is None,
            },
    {
        if windows {
            if ps_module_path_set {
                return Some(owned("powershell"));
            }
            if let Some(c) = comspec_lowercase {
                if contains(c, "cmd") {
                    return Some(owned("cmd"));
                }
            }
            return Some(owned("powershell"));
        }
        match shell_file_name {
            Some(n) => if str_eq(n, "bash") || str_eq(n, "zsh") || str_eq(n, "fish") {
                Some(owned(n))
            } else {
                None
            },
            None => None,
        }
    }

    /// Where the completion script for `shell` goes, below the home
    /// directory or, for fish, the configuration directory.
    pub fn get_completion_script_path(
        shell: &str,
        home_dir: &str,
        config_dir: Option<&str>,
        windows: bool,
    ) -> (r: Option<String>)
        ensures
            r matches Some(p) ==> completion_path(
                shell@,
                home_dir@,
                match config_dir {
                    Some(c) => Some(c@),
                    None => None,
                },
                windows,
            ) == Some(p@),
            r is None ==> completion_path(
                shell@,
                home_dir@,
                match config_dir {
                    Some(c) => Some(c@),
                    None => None,
                },
                windows,
            ) is None,
    {
        if str_eq(shell, "bash") {
            Some(join_path(home_dir, ".spine_completion.bash"))
        } else if str_eq(shell, "zsh") {
            Some(join_path(home_dir, ".spine_completion.zsh"))
        } else if str_eq(shell, "fish") {
            if windows {
                None
            } else {
                match config_dir {
                    Some(c) => Some(join_path(c, "fish/completions/spine.fish")),
                    None => Some(join_path(home_dir, ".config/fish/completions/spine.fish")),
                }
            }
        } else if str_eq(shell, "powershell") || str_eq(shell, "cmd") {
            Some(join_path(home_dir, "spine_completion.ps1"))
        } else {
            let name = concat(".spine_completion.", shell);
            Some(join_path(home_dir, name.as_str()))
        }
    }
}

} // verus!
