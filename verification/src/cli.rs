//! The command line: its commands and options, and the examples shown in
//! the help.
use crate::ide_reload::ReloadAppTarget;
use crate::text::{owned, push_str};
use vstd::prelude::*;

verus! {

/// The command line: plain output or not, and the command.
#[derive(Clone, Debug, PartialEq, Eq)]
pub struct Cli {
    pub plain: bool,
    pub command: Commands,
}

/// The commands.
#[derive(Clone, Debug, PartialEq, Eq)]
pub enum Commands {
    /// Save the current auth.json as a profile.
    Save { label: Option<String> },
    /// Load a profile from the interactive list.
    Load { label: Option<String> },
    /// List profiles ordered by last used.
    List,
    /// Show usage details for the current profile.
    Status { all: bool, current: bool, label: Option<String> },
    /// Switch to the best profile based on remaining 7d/5h usage.
    Switch { dry_run: bool, reload_ide: bool, reload_app: Option<ReloadAppTarget> },
    /// Run the IDE/app reload logic without switching profiles.
    ReloadApp { dry_run: bool, target: Option<ReloadAppTarget> },
    /// Show or edit the config.
    Config { command: ConfigCommands },
    /// Copy profiles from another Codex directory into current storage.
    Migrate { from: Option<String>, overwrite: bool },
    /// Delete saved profiles from the interactive list.
    Delete { yes: bool, label: Option<String> },
    /// Relay an existing Roo/Codex callback URL to a local listener.
    RelayLogin { url: Option<String> },
}

/// The commands of `config`.
#[derive(Clone, Copy, Debug, PartialEq, Eq, Structural)]
pub enum ConfigCommands {
    /// Open the config file in your editor.
    Edit,
    /// Print config path and current contents.
    Show,
}

/// The example command lines after a name, one per line.
pub open spec fn example_lines() -> Seq<Seq<char>> {
    seq![
        " save --label work"@,
        " load --label work"@,
        " switch"@,
        " switch --reload-app codex"@,
        " switch --reload-app cursor"@,
        " reload-app"@,
        " reload-app codex --dry-run"@,
        " reload-app cursor --dry-run"@,
        " config show"@,
        " config edit"@,
        " migrate"@,
        " relay-login --url \"http://localhost:1455/auth/callback?code=...&state=...\""@,
        " list"@,
        " status"@,
        " status --current"@,
        " delete --label work"@,
    ]
}

/// The examples section of the help for a command name: `Examples:`, then
/// each example on a line of its own, indented by two spaces.
pub open spec fn examples_text(name: Seq<char>, n: int) -> Seq<char>
    decreases n,
{
    if n <= 0 {
        "Examples:"@
    } else {
        examples_text(name, n - 1) + "\n  "@ + name + example_lines()[n - 1]
    }
}

/// The examples section of the help.
pub fn examples_root(name: &str) -> (res: String)
    ensures
        res@ == examples_text(name@, example_lines().len() as int),
{
    let lines: Vec<&str> = vec![
        " save --label work",
        " load --label work",
        " switch",
        " switch --reload-app codex",
        " switch --reload-app cursor",
        " reload-app",
        " reload-app codex --dry-run",
        " reload-app cursor --dry-run",
        " config show",
        " config edit",
        " migrate",
        " relay-login --url \"http://localhost:1455/auth/callback?code=...&state=...\"",
        " list",
        " status",
        " status --current",
        " delete --label work",
    ];
    proof {
        reveal_strlit(" save --label work");
        reveal_strlit(" load --label work");
        reveal_strlit(" switch");
        reveal_strlit(" switch --reload-app codex");
        reveal_strlit(" switch --reload-app cursor");
        reveal_strlit(" reload-app");
        reveal_strlit(" reload-app codex --dry-run");
        reveal_strlit(" reload-app cursor --dry-run");
        reveal_strlit(" config show");
        reveal_strlit(" config edit");
        reveal_strlit(" migrate");
        reveal_strlit(" relay-login --url \"http://localhost:1455/auth/callback?code=...&state=...\"");
        reveal_strlit(" list");
        reveal_strlit(" status");
        reveal_strlit(" status --current");
        reveal_strlit(" delete --label work");
        assert(lines@.len() == example_lines().len());
        assert forall|i: int| 0 <= i < lines@.len() implies #[trigger] lines@[i]@
            == example_lines()[i] by {}
    }
    let mut out = owned("Examples:");
    let mut i: usize = 0;
    while i < lines.len()
        invariant
            i <= lines.len() == example_lines().len(),
            forall|j: int| 0 <= j < lines@.len() ==> #[trigger] lines@[j]@ == example_lines()[j],
            out@ == examples_text(name@, i as int),
        decreases lines.len() - i,
    {
        push_str(&mut out, "\n  ");
        push_str(&mut out, name);
        push_str(&mut out, lines[i]);
        i = i + 1;
    }
    out
}

} // verus!
