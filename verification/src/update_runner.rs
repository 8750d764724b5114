//! The update script and the terminal command that runs it.
use vstd::prelude::*;
use vstd::string::*;

use crate::flake_checker::{commit_message, generate_commit_message};
use crate::flake_update::{update_views, FlakeUpdate};
use crate::ordering_keys::{lowercase, to_lowercase};
use crate::text::{chars_of, str_eq, string_from_chars};

verus! {

/// Why an update could not be started.
#[derive(Debug, Clone, PartialEq, Eq)]
pub enum UpdateError {
    /// The terminal could not be spawned; holds the text of the I/O error.
    SpawnFailed(String),
    UnsupportedTerminal(String),
}

impl UpdateError {
    /// The message of the error (its `Display` text).
    pub fn message(&self) -> (s: String)
        ensures
            s@ == match *self {
                UpdateError::SpawnFailed(m) => "Failed to spawn terminal: "@ + m@,
                UpdateError::UnsupportedTerminal(t) => "Unsupported terminal: "@ + t@,
            },
    {
        match self {
            UpdateError::SpawnFailed(m) => String::from_str("Failed to spawn terminal: ").concat(
                m.as_str(),
            ),
            UpdateError::UnsupportedTerminal(t) => String::from_str("Unsupported terminal: ").concat(
                t.as_str(),
            ),
        }
    }
}

/// The script text before the flake path.
pub const SCRIPT_HEAD: &'static str = "#!/bin/bash
set -e

echo \"=== NixOS Flake Update ===\"
echo \"\"

cd '";

/// The script text between the flake path and the commit message.
pub const SCRIPT_MIDDLE: &'static str = "'
echo \"Working directory: $(pwd)\"
echo \"\"

echo \"=== Updating flake inputs ===\"
nix flake update
echo \"\"

echo \"=== Rebuilding NixOS ===\"
sudo nixos-rebuild switch --flake .
echo \"\"

echo \"=== Committing changes ===\"
git add -A
git commit -m '";

/// The script text after the commit message.
pub const SCRIPT_TAIL: &'static str = "' || echo \"Nothing to commit\"
echo \"\"

echo \"=== Pushing to remote ===\"
git push || echo \"Push failed or no remote configured\"
echo \"\"

echo \"=== Update complete! ===\"
echo \"\"
echo \"Press Enter to close this terminal...\"
read
";

/// `s` with every single quote written as `'\''`, for use inside single quotes in a
/// shell script.
pub open spec fn escape_single_quotes(s: Seq<char>) -> Seq<char>
    decreases s.len(),
{
    if s.len() == 0 {
        s
    } else if s.last() == '\'' {
        escape_single_quotes(s.drop_last()) + seq!['\'', '\\', '\'', '\'']
    } else {
        escape_single_quotes(s.drop_last()).push(s.last())
    }
}

/// The update script for a flake and a commit message.
pub open spec fn update_script(flake_path: Seq<char>, commit_msg: Seq<char>) -> Seq<char> {
    SCRIPT_HEAD@ + flake_path + SCRIPT_MIDDLE@ + escape_single_quotes(commit_msg) + SCRIPT_TAIL@
}

/// Escapes the single quotes of `s`.
pub fn escape_quotes(s: &str) -> (r: String)
    ensures
        r@ == escape_single_quotes(s@),
{
    let cs = chars_of(s);
    let mut out: Vec<char> = Vec::new();
    let mut i: usize = 0;
    while i < cs.len()
        invariant
            0 <= i <= cs@.len(),
            cs@ == s@,
            out@ == escape_single_quotes(cs@.take(i as int)),
        decreases cs@.len() - i,
    {
        assert(cs@.take(i + 1).drop_last() =~= cs@.take(i as int));
        let c = cs[i];
        if c == '\'' {
            out.push('\'');
            out.push('\\');
            out.push('\'');
            out.push('\'');
        } else {
            out.push(c);
        }
        assert(out@ =~= escape_single_quotes(cs@.take(i + 1)));
        i = i + 1;
    }
    assert(cs@.take(i as int) =~= cs@);
    string_from_chars(out.as_slice())
}

/// Build the shell script that performs the update
pub fn build_update_script(flake_path: &str, commit_msg: &str) -> (script: String)
    ensures
        script@ == update_script(flake_path@, commit_msg@),
{
    let escaped_msg = escape_quotes(commit_msg);
    String::from_str(SCRIPT_HEAD).concat(flake_path).concat(SCRIPT_MIDDLE).concat(
        escaped_msg.as_str(),
    ).concat(SCRIPT_TAIL)
}

/// A program to run with its arguments.
#[derive(Debug, Clone)]
pub struct TerminalCommand {
    pub program: String,
    pub args: Vec<String>,
}

/// The texts of a list of strings.
pub open spec fn texts(v: Seq<String>) -> Seq<Seq<char>> {
    v.map_values(|a: String| a@)
}

/// The terminal emulators with a known command line, by lowercase name; any other name
/// is run as given with `-e`.
pub open spec fn terminal_program(lower: Seq<char>, terminal: Seq<char>) -> Seq<char> {
    if lower == "ghostty"@ || lower == "konsole"@ || lower == "gnome-terminal"@ || lower
        == "alacritty"@ || lower == "kitty"@ || lower == "wezterm"@ || lower == "xterm"@ || lower
        == "foot"@ || lower == "terminator"@ || lower == "tilix"@ || lower == "st"@ {
        lower
    } else if lower == "urxvt"@ || lower == "rxvt-unicode"@ {
        "urxvt"@
    } else {
        terminal
    }
}

/// The arguments that come before the script path.
pub open spec fn terminal_flags(lower: Seq<char>) -> Seq<Seq<char>> {
    if lower == "gnome-terminal"@ {
        seq!["--"@]
    } else if lower == "kitty"@ || lower == "foot"@ {
        seq![]
    } else if lower == "wezterm"@ {
        seq!["start"@, "--"@]
    } else {
        seq!["-e"@]
    }
}

fn one_arg(a: &str) -> (v: Vec<String>)
    ensures
        texts(v@) == seq![a@],
{
    let mut v = Vec::new();
    v.push(String::from_str(a));
    assert(texts(v@) =~= seq![a@]);
    v
}

/// The command that runs `script_path` in terminal `terminal`, given the lowercase form
/// of its name.
pub fn terminal_invocation(terminal: &str, lower: &str, script_path: &str) -> (c: TerminalCommand)
    ensures
        c.program@ == terminal_program(lower@, terminal@),
        texts(c.args@) == terminal_flags(lower@).push(script_path@),
{
    let known = str_eq(lower, "ghostty") || str_eq(lower, "konsole") || str_eq(
        lower,
        "gnome-terminal",
    ) || str_eq(lower, "alacritty") || str_eq(lower, "kitty") || str_eq(lower, "wezterm")
        || str_eq(lower, "xterm") || str_eq(lower, "foot") || str_eq(lower, "terminator")
        || str_eq(lower, "tilix") || str_eq(lower, "st");
    let program = if known {
        String::from_str(lower)
    } else if str_eq(lower, "urxvt") || str_eq(lower, "rxvt-unicode") {
        String::from_str("urxvt")
    } else {
        String::from_str(terminal)
    };
    let mut args = if str_eq(lower, "gnome-terminal") {
        one_arg("--")
    } else if str_eq(lower, "kitty") || str_eq(lower, "foot") {
        let v: Vec<String> = Vec::new();
        assert(texts(v@) =~= Seq::<Seq<char>>::empty());
        v
    } else if str_eq(lower, "wezterm") {
        let mut v = one_arg("start");
        let ghost first = v@;
        v.push(String::from_str("--"));
        assert(texts(v@) =~= texts(first).push("--"@));
        assert(texts(v@) =~= seq!["start"@, "--"@]);
        v
    } else {
        one_arg("-e")
    };
    let ghost before = args@;
    args.push(String::from_str(script_path));
    assert(texts(args@) =~= texts(before).push(script_path@));
    TerminalCommand { program, args }
}

/// What starting an update does: the script to write to `script_path`, and the terminal
/// command that runs it.
#[derive(Debug, Clone)]
pub struct UpdateLaunch {
    pub script: String,
    pub command: TerminalCommand,
}

/// Prepares the update process in a terminal: the script (with a commit message for
/// `updates`) and the command that runs it from `script_path` in `terminal`.
pub fn run_update(flake_path: &str, terminal: &str, updates: &[FlakeUpdate], script_path: &str) -> (l: UpdateLaunch)
    ensures
        l.script@ == update_script(flake_path@, commit_message(update_views(updates@))),
        l.command.program@ == terminal_program(lowercase(terminal@), terminal@),
        texts(l.command.args@) == terminal_flags(lowercase(terminal@)).push(script_path@),
{
    let commit_msg = generate_commit_message(updates);
    let script = build_update_script(flake_path, commit_msg.as_str());
    let lower = to_lowercase(terminal);
    let command = terminal_invocation(terminal, lower.as_str(), script_path);
    UpdateLaunch { script, command }
}


/// A message without single quotes is written unchanged.
pub proof fn lemma_escape_without_quotes(s: Seq<char>)
    requires
        !s.contains('\''),
    ensures
        escape_single_quotes(s) == s,
    decreases s.len(),
{
    if s.len() > 0 {
        assert(!s.drop_last().contains('\'')) by {
            if s.drop_last().contains('\'') {
                let k = choose|k: int| 0 <= k < s.drop_last().len() && s.drop_last()[k] == '\'';
                assert(s[k] == '\'');
            }
        }
        lemma_escape_without_quotes(s.drop_last());
        assert(s[s.len() - 1] == s.last());
        assert(s.drop_last().push(s.last()) =~= s);
    }
}

/// Escaping a message writes its parts one after the other.
pub proof fn lemma_escape_concat(a: Seq<char>, b: Seq<char>)
    ensures
        escape_single_quotes(a + b) == escape_single_quotes(a) + escape_single_quotes(b),
    decreases b.len(),
{
    if b.len() == 0 {
        assert(a + b =~= a);
        assert(escape_single_quotes(a) + escape_single_quotes(b) =~= escape_single_quotes(a));
    } else {
        assert((a + b).drop_last() =~= a + b.drop_last());
        lemma_escape_concat(a, b.drop_last());
        if b.last() == '\'' {
            assert(escape_single_quotes(a) + escape_single_quotes(b) =~= escape_single_quotes(a)
                + escape_single_quotes(b.drop_last()) + seq!['\'', '\\', '\'', '\'']);
        } else {
            assert(escape_single_quotes(a) + escape_single_quotes(b) =~= (escape_single_quotes(a)
                + escape_single_quotes(b.drop_last())).push(b.last()));
        }
    }
}

/// Which flags a terminal gets before the script path: `--` for gnome-terminal, none for
/// kitty and foot, `start --` for wezterm, and `-e` for every other terminal name
/// (alacritty, konsole, xterm, names not known, ...).
pub proof fn lemma_terminal_flags(lower: Seq<char>)
    ensures
        lower == "gnome-terminal"@ ==> terminal_flags(lower) == seq!["--"@],
        lower == "kitty"@ || lower == "foot"@ ==> terminal_flags(lower) == Seq::<Seq<char>>::empty(),
        lower == "wezterm"@ ==> terminal_flags(lower) == seq!["start"@, "--"@],
        lower != "gnome-terminal"@ && lower != "kitty"@ && lower != "foot"@ && lower
            != "wezterm"@ ==> terminal_flags(lower) == seq!["-e"@],
{
    reveal_strlit("gnome-terminal");
    reveal_strlit("kitty");
    reveal_strlit("foot");
    reveal_strlit("wezterm");
    assert("kitty"@.len() != "gnome-terminal"@.len());
    assert("foot"@.len() != "gnome-terminal"@.len());
    assert("wezterm"@.len() != "gnome-terminal"@.len());
    assert("wezterm"@.len() != "kitty"@.len());
    assert("wezterm"@.len() != "foot"@.len());
}

/// The terminal named runs the script: the program is the lowercase name for the known
/// emulators, `urxvt` for `rxvt-unicode`, and the name as given otherwise; the script
/// path is its last argument, after the terminal's flags.
pub proof fn lemma_terminal_runs_script(lower: Seq<char>, terminal: Seq<char>, script_path: Seq<char>)
    ensures
        lower == "alacritty"@ || lower == "konsole"@ || lower == "xterm"@ || lower == "kitty"@
            || lower == "ghostty"@ ==> terminal_program(lower, terminal) == lower,
        lower == "rxvt-unicode"@ ==> terminal_program(lower, terminal) == "urxvt"@,
        terminal_flags(lower).push(script_path).last() == script_path,
{
    if lower == "rxvt-unicode"@ {
        reveal_strlit("rxvt-unicode");
        reveal_strlit("ghostty");
        reveal_strlit("konsole");
        reveal_strlit("gnome-terminal");
        reveal_strlit("alacritty");
        reveal_strlit("kitty");
        reveal_strlit("wezterm");
        reveal_strlit("xterm");
        reveal_strlit("foot");
        reveal_strlit("terminator");
        reveal_strlit("tilix");
        reveal_strlit("st");
    }
}

} // verus!
