use vstd::prelude::*;
use vstd::string::StringExecFns;

verus! {

/// Absolute path of the user-visible, sandboxed workspace directory.
pub fn workspace_dir_path(home: &str) -> (r: String)
    ensures
        r@ == home@ + "/.proctor_workspace"@,
{
    let mut s = String::from_str(home);
    s.append("/.proctor_workspace");
    s
}

/// Absolute path of the hidden internal directory that holds the history
/// file and the generated shell override configuration.
pub fn internal_dir_path(home: &str) -> (r: String)
    ensures
        r@ == home@ + "/.proctor_internal"@,
{
    let mut s = String::from_str(home);
    s.append("/.proctor_internal");
    s
}

/// Absolute path of the command-history file inside the internal directory.
pub fn history_file_path(internal_dir: &str) -> (r: String)
    ensures
        r@ == internal_dir@ + "/.cmd_history"@,
{
    let mut s = String::from_str(internal_dir);
    s.append("/.cmd_history");
    s
}

/// Absolute path of the session log inside the workspace directory.
pub fn session_log_path(workspace_dir: &str) -> (r: String)
    ensures
        r@ == workspace_dir@ + "/session_log.txt"@,
{
    let mut s = String::from_str(workspace_dir);
    s.append("/session_log.txt");
    s
}

/// Absolute path of the generated shell override configuration; it lives in
/// the hidden internal directory, so the user's own configuration is never
/// touched.
pub fn zsh_override_path(internal_dir: &str) -> (r: String)
    ensures
        r@ == internal_dir@ + "/.zshrc"@,
{
    let mut s = String::from_str(internal_dir);
    s.append("/.zshrc");
    s
}

/// Contents of the generated shell override configuration: source the user's
/// own configuration when present, then force the history file and enable
/// incremental, shared history.
pub fn zsh_override_config(history_file: &str) -> (r: String)
    ensures
        r@ == "[[ -f \"$HOME/.zshrc\" ]] && source \"$HOME/.zshrc\"\nexport HISTFILE=\""@
            + history_file@ + "\"\nsetopt INC_APPEND_HISTORY\nsetopt SHARE_HISTORY\n"@,
{
    let mut s = String::from_str("[[ -f \"$HOME/.zshrc\" ]] && source \"$HOME/.zshrc\"\nexport HISTFILE=\"");
    s.append(history_file);
    s.append("\"\nsetopt INC_APPEND_HISTORY\nsetopt SHARE_HISTORY\n");
    s
}

/// Launch command for shells with an override configuration directory: point
/// the shell at the generated configuration and replace the launcher with a
/// login shell.
pub fn zsh_launch_command(internal_dir: &str) -> (r: String)
    ensures
        r@ == "export ZDOTDIR='"@ + internal_dir@ + "'; exec /bin/zsh -l"@,
{
    let mut s = String::from_str("export ZDOTDIR='");
    s.append(internal_dir);
    s.append("'; exec /bin/zsh -l");
    s
}

/// Launch command for shells without an override directory: force the
/// history file, append history after every command, and restart the shell
/// indefinitely so the terminal keeps presenting a live shell.
pub fn bash_launch_command(history_file: &str) -> (r: String)
    ensures
        r@ == "export HISTFILE='"@ + history_file@
            + "'; export PROMPT_COMMAND='history -a'; while true; do /bin/bash; done"@,
{
    let mut s = String::from_str("export HISTFILE='");
    s.append(history_file);
    s.append("'; export PROMPT_COMMAND='history -a'; while true; do /bin/bash; done");
    s
}

} // verus!
