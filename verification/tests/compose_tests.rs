use proctor_core::compose::bash_launch_command;
use proctor_core::compose::history_file_path;
use proctor_core::compose::internal_dir_path;
use proctor_core::compose::session_log_path;
use proctor_core::compose::workspace_dir_path;
use proctor_core::compose::zsh_launch_command;
use proctor_core::compose::zsh_override_config;
use proctor_core::compose::zsh_override_path;
use proctor_core::terminal::reader_step;
use proctor_core::terminal::ReaderStep;
use proctor_core::terminal::terminal_spawn_config;

#[test]
fn layout_paths() {
    assert_eq!(workspace_dir_path("/home/u"), "/home/u/.proctor_workspace");
    assert_eq!(internal_dir_path("/home/u"), "/home/u/.proctor_internal");
    assert_eq!(history_file_path("/home/u/.proctor_internal"), "/home/u/.proctor_internal/.cmd_history");
    assert_eq!(session_log_path("/home/u/.proctor_workspace"), "/home/u/.proctor_workspace/session_log.txt");
    assert_eq!(zsh_override_path("/home/u/.proctor_internal"), "/home/u/.proctor_internal/.zshrc");
}

#[test]
fn bash_launch_forces_incremental_history() {
    assert_eq!(
        bash_launch_command("/home/u/.proctor_internal/.cmd_history"),
        "export HISTFILE='/home/u/.proctor_internal/.cmd_history'; \
         export PROMPT_COMMAND='history -a'; while true; do /bin/bash; done"
    );
}

#[test]
fn zsh_launch_points_at_override_directory() {
    assert_eq!(
        zsh_launch_command("/home/u/.proctor_internal"),
        "export ZDOTDIR='/home/u/.proctor_internal'; exec /bin/zsh -l"
    );
}

#[test]
fn zsh_override_sources_user_config_then_forces_history() {
    let cfg = zsh_override_config("/home/u/.proctor_internal/.cmd_history");
    let expected = "[[ -f \"$HOME/.zshrc\" ]] && source \"$HOME/.zshrc\"\n\
                    export HISTFILE=\"/home/u/.proctor_internal/.cmd_history\"\n\
                    setopt INC_APPEND_HISTORY\nsetopt SHARE_HISTORY\n";
    assert_eq!(cfg, expected);
}

#[test]
fn spawn_config_has_fixed_geometry_and_env() {
    let cfg = terminal_spawn_config(
        "sh",
        vec![String::from("-c"), String::from("echo hi")],
        "/home/u/.proctor_workspace",
        vec![(String::from("EXTRA"), String::from("1"))],
    );
    assert_eq!(cfg.rows, 24);
    assert_eq!(cfg.cols, 80);
    assert_eq!(cfg.pixel_width, 0);
    assert_eq!(cfg.pixel_height, 0);
    assert_eq!(cfg.command, "sh");
    assert_eq!(cfg.args, vec![String::from("-c"), String::from("echo hi")]);
    assert_eq!(cfg.working_dir, "/home/u/.proctor_workspace");
    assert_eq!(cfg.env.len(), 3);
    assert_eq!(cfg.env[0], (String::from("TERM"), String::from("xterm-256color")));
    assert_eq!(cfg.env[1], (String::from("COLORTERM"), String::from("truecolor")));
    assert_eq!(cfg.env[2], (String::from("EXTRA"), String::from("1")));
}

#[test]
fn reader_forwards_the_filled_prefix() {
    let buffer = vec![10, 20, 30, 40];
    assert_eq!(reader_step(&buffer, Some(2)), ReaderStep::Emit(vec![10, 20]));
}

#[test]
fn reader_stops_on_eof_and_error() {
    let buffer = vec![10, 20];
    assert_eq!(reader_step(&buffer, Some(0)), ReaderStep::Stop);
    assert_eq!(reader_step(&buffer, None), ReaderStep::Stop);
}
