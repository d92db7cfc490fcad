//! Installing shell completion scripts: which shell is in use, where its
//! script goes under the home directory, and whether its start-up file still
//! needs the lines that load the script.

use vstd::prelude::*;
use vstd::string::*;
use crate::cli::{contains_text, shell_from_hint, shell_hint, str_contains, ShellKind};

verus! {

/// The view of an optional text.
pub open spec fn opt_text(o: Option<&str>) -> Option<Seq<char>> {
    match o {
        Some(s) => Some(s@),
        None => None,
    }
}

/// The shell in use: the one that `$SHELL` points to, else the one that the
/// program's own name points to (see `shell_hint`).
pub open spec fn detected_shell(shell_var: Option<Seq<char>>, program_name: Option<Seq<char>>) -> Option<ShellKind> {
    let from_var = match shell_var {
        Some(s) => shell_hint(s),
        None => None,
    };
    if from_var is Some {
        from_var
    } else {
        match program_name {
            Some(p) => shell_hint(p),
            None => None,
        }
    }
}

/// Detects the shell in use from the value of `$SHELL` and the program's
/// file name, when either is known.
pub fn detect_shell(shell_var: Option<&str>, program_name: Option<&str>) -> (k: Option<ShellKind>)
    ensures
        k == detected_shell(opt_text(shell_var), opt_text(program_name)),
{
    if let Some(s) = shell_var {
        let k = shell_from_hint(s);
        if k.is_some() {
            return k;
        }
    }
    match program_name {
        Some(p) => shell_from_hint(p),
        None => None,
    }
}

/// `base` joined with the relative path `part`: a `/` goes between them
/// unless `base` is empty or already ends with one.
pub open spec fn path_join(base: Seq<char>, part: Seq<char>) -> Seq<char> {
    if base.len() == 0 || base.last() == '/' {
        base + part
    } else {
        base + seq!['/'] + part
    }
}

/// Joins a relative path to a directory path (see `path_join`).
pub fn join_path(base: &str, part: &str) -> (p: String)
    ensures
        p@ == path_join(base@, part@),
{
    let mut p = String::from_str(base);
    let n = base.unicode_len();
    if n > 0 && base.get_char(n - 1) != '/' {
        proof {
            reveal_strlit("/");
            assert("/"@ =~= seq!['/']);
        }
        p.append("/");
    }
    p.append(part);
    p
}

/// Where a completion script goes, as plain texts.
pub struct InstallModel {
    pub dir: Seq<char>,
    pub file_name: Seq<char>,
    pub script_path: Seq<char>,
    pub rc_file: Option<Seq<char>>,
    pub snippet: Option<Seq<char>>,
}

/// Where the completion script of a shell goes.
#[derive(Debug, Clone)]
pub struct CompletionInstall {
    /// The directory to create.
    pub dir: String,
    /// The name of the script in it.
    pub file_name: String,
    /// The full path of the script.
    pub script_path: String,
    /// The start-up file that must load the script, if any.
    pub rc_file: Option<String>,
    /// The lines to add to that file.
    pub snippet: Option<String>,
}

impl CompletionInstall {
    /// The value of this plan.
    pub open spec fn model(&self) -> InstallModel {
        InstallModel {
            dir: self.dir@,
            file_name: self.file_name@,
            script_path: self.script_path@,
            rc_file: match self.rc_file {
                Some(f) => Some(f@),
                None => None,
            },
            snippet: match self.snippet {
                Some(t) => Some(t@),
                None => None,
            },
        }
    }
}

/// The plan for a shell with its directory and script name, its start-up
/// file and snippet.
pub open spec fn install_at(dir: Seq<char>, file_name: Seq<char>, rc_file: Option<Seq<char>>, snippet: Option<Seq<char>>) -> InstallModel {
    InstallModel { dir, file_name, script_path: path_join(dir, file_name), rc_file, snippet }
}

/// Where the completion script of `shell` goes for the home directory
/// `home`: zsh under `~/.zsh/completion` (loaded from `~/.zshrc`), fish under
/// `~/.config/fish/completions`, bash under
/// `~/.local/share/bash-completion/completions` (loaded from `~/.bashrc`).
/// Other shells are not supported.
pub open spec fn planned_install(shell: ShellKind, home: Seq<char>) -> Option<InstallModel> {
    match shell {
        ShellKind::Zsh => Some(install_at(
            path_join(path_join(home, ".zsh"@), "completion"@),
            "_synap"@,
            Some(path_join(home, ".zshrc"@)),
            Some("\n# Synap completions\nfpath=($HOME/.zsh/completion $fpath)\n"@),
        )),
        ShellKind::Fish => Some(install_at(
            path_join(path_join(path_join(home, ".config"@), "fish"@), "completions"@),
            "synap.fish"@,
            None,
            None,
        )),
        ShellKind::Bash => Some(install_at(
            path_join(path_join(path_join(path_join(home, ".local"@), "share"@), "bash-completion"@), "completions"@),
            "synap"@,
            Some(path_join(home, ".bashrc"@)),
            Some("\n# Synap completions\nsource ~/.local/share/bash-completion/completions/synap 2>/dev/null\n"@),
        )),
        _ => None,
    }
}

/// Plans the installation of the completion script of `shell` under the
/// home directory `home` (see `planned_install`); `None` for a shell whose
/// installation is not supported.
pub fn completion_install(shell: ShellKind, home: &str) -> (r: Option<CompletionInstall>)
    ensures
        match r {
            Some(c) => planned_install(shell, home@) == Some(c.model()),
            None => planned_install(shell, home@) is None,
        },
{
    match shell {
        ShellKind::Zsh => {
            let base = join_path(home, ".zsh");
            let dir = join_path(base.as_str(), "completion");
            let file_name = String::from_str("_synap");
            let script_path = join_path(dir.as_str(), file_name.as_str());
            let rc = join_path(home, ".zshrc");
            let snippet = String::from_str("\n# Synap completions\nfpath=($HOME/.zsh/completion $fpath)\n");
            Some(CompletionInstall { dir, file_name, script_path, rc_file: Some(rc), snippet: Some(snippet) })
        },
        ShellKind::Fish => {
            let a = join_path(home, ".config");
            let b = join_path(a.as_str(), "fish");
            let dir = join_path(b.as_str(), "completions");
            let file_name = String::from_str("synap.fish");
            let script_path = join_path(dir.as_str(), file_name.as_str());
            Some(CompletionInstall { dir, file_name, script_path, rc_file: None, snippet: None })
        },
        ShellKind::Bash => {
            let a = join_path(home, ".local");
            let b = join_path(a.as_str(), "share");
            let c = join_path(b.as_str(), "bash-completion");
            let dir = join_path(c.as_str(), "completions");
            let file_name = String::from_str("synap");
            let script_path = join_path(dir.as_str(), file_name.as_str());
            let rc = join_path(home, ".bashrc");
            let snippet = String::from_str(
                "\n# Synap completions\nsource ~/.local/share/bash-completion/completions/synap 2>/dev/null\n",
            );
            Some(CompletionInstall { dir, file_name, script_path, rc_file: Some(rc), snippet: Some(snippet) })
        },
        _ => None,
    }
}

/// What to do with a shell's start-up file.
#[derive(Debug, Clone, Copy, PartialEq, Eq, Structural)]
pub enum RcUpdate {
    /// It already loads the completions: leave it.
    AlreadyConfigured,
    /// It exists without them: append the snippet.
    Append,
    /// It does not exist: create it with the snippet.
    Create,
}

/// Decides what to do with a start-up file, given its content when it
/// exists: it is left alone when it mentions `Synap completions`.
pub fn rc_update(existing: Option<&str>) -> (u: RcUpdate)
    ensures
        match existing {
            None => u == RcUpdate::Create,
            Some(c) => u == if contains_text(c@, "Synap completions"@) {
                RcUpdate::AlreadyConfigured
            } else {
                RcUpdate::Append
            },
        },
{
    match existing {
        None => RcUpdate::Create,
        Some(c) => {
            if str_contains(c, "Synap completions") {
                RcUpdate::AlreadyConfigured
            } else {
                RcUpdate::Append
            }
        },
    }
}

/// The start-up file after an install, given its content before (if it
/// existed): left alone when it mentions `Synap completions`, else with the
/// snippet appended (the snippet alone for a new file).
pub open spec fn rc_after(existing: Option<Seq<char>>, snippet: Seq<char>) -> Seq<char> {
    match existing {
        None => snippet,
        Some(c) => if contains_text(c, "Synap completions"@) {
            c
        } else {
            c + snippet
        },
    }
}

/// Text that contains `m` still contains it with anything put in front.
proof fn lemma_contains_after_prefix(c: Seq<char>, s: Seq<char>, m: Seq<char>)
    requires
        contains_text(s, m),
    ensures
        contains_text(c + s, m),
{
    let i = choose|i: int| 0 <= i && i + m.len() <= s.len() && #[trigger] s.subrange(i, i + m.len()) == m;
    assert((c + s).subrange(c.len() + i, c.len() + i + m.len()) =~= s.subrange(i, i + m.len()));
}

/// Every start-up snippet names the completions it loads.
proof fn lemma_snippet_marked(shell: ShellKind, home: Seq<char>)
    requires
        planned_install(shell, home) matches Some(p) && p.snippet is Some,
    ensures
        contains_text(planned_install(shell, home)->Some_0.snippet->Some_0, "Synap completions"@),
{
    reveal_strlit("Synap completions");
    let m = "Synap completions"@;
    let s = planned_install(shell, home)->Some_0.snippet->Some_0;
    if shell == ShellKind::Zsh {
        reveal_strlit("\n# Synap completions\nfpath=($HOME/.zsh/completion $fpath)\n");
    } else {
        reveal_strlit("\n# Synap completions\nsource ~/.local/share/bash-completion/completions/synap 2>/dev/null\n");
    }
    assert(s.subrange(3, 3 + m.len() as int) =~= m);
}

/// Installing the completions twice changes the start-up file once: after
/// an install the file mentions `Synap completions`, so a second install
/// with the same plan leaves it as it is.
pub proof fn lemma_second_install_leaves_rc_alone(shell: ShellKind, home: Seq<char>, existing: Option<Seq<char>>)
    requires
        planned_install(shell, home) matches Some(p) && p.snippet is Some,
    ensures
        ({
            let snippet = planned_install(shell, home)->Some_0.snippet->Some_0;
            let once = rc_after(existing, snippet);
            &&& contains_text(once, "Synap completions"@)
            &&& rc_after(Some(once), snippet) == once
        }),
{
    let snippet = planned_install(shell, home)->Some_0.snippet->Some_0;
    lemma_snippet_marked(shell, home);
    if let Some(c) = existing {
        if !contains_text(c, "Synap completions"@) {
            lemma_contains_after_prefix(c, snippet, "Synap completions"@);
        }
    }
}

} // verus!
