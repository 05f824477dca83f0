use speck::shell::{
    detect_shell, docker_host_conflicts, render_env, render_init_block, render_speck_home,
    replace_or_append_block, resolve_shell, resolve_speck_home, resolve_target_file, EnvShell,
    InitError, ShellTarget,
};
use speck::shell::{config_scaffold_message, docker_host_warning, init_file_contents, persisted_message};

const HOME: &str = "/tmp/speck-home";

#[test]
fn render_env_posix_emits_docker_host_with_unix_scheme_and_socket_path() {
    let out = render_env(HOME, EnvShell::Posix);
    assert!(
        out.contains("export DOCKER_HOST=unix:///tmp/speck-home/speck.sock"),
        "posix render_env must emit `export DOCKER_HOST=unix://<speck_home>/speck.sock`; got: {out:?}"
    );
}

#[test]
fn render_env_posix_emits_testcontainers_socket_override() {
    let out = render_env(HOME, EnvShell::Posix);
    assert!(
        out.contains("export TESTCONTAINERS_DOCKER_SOCKET_OVERRIDE=/var/run/docker.sock"),
        "posix render_env must emit the testcontainers socket override; got: {out:?}"
    );
}

#[test]
fn render_env_fish_emits_set_gx_docker_host() {
    let out = render_env(HOME, EnvShell::Fish);
    assert!(
        out.contains("set -gx DOCKER_HOST unix:///tmp/speck-home/speck.sock"),
        "fish render_env must emit `set -gx DOCKER_HOST unix://...`; got: {out:?}"
    );
}

#[test]
fn render_env_fish_emits_set_gx_testcontainers_socket_override() {
    let out = render_env(HOME, EnvShell::Fish);
    assert!(
        out.contains("set -gx TESTCONTAINERS_DOCKER_SOCKET_OVERRIDE /var/run/docker.sock"),
        "fish render_env must emit the testcontainers socket override with set -gx; got: {out:?}"
    );
}

#[test]
fn render_speck_home_posix_emits_export() {
    let out = render_speck_home(HOME, EnvShell::Posix);
    assert!(
        out.contains("export SPECK_HOME=/tmp/speck-home"),
        "posix render_speck_home must emit `export SPECK_HOME=<home>`; got: {out:?}"
    );
}

#[test]
fn render_speck_home_fish_emits_set_gx() {
    let out = render_speck_home(HOME, EnvShell::Fish);
    assert!(
        out.contains("set -gx SPECK_HOME /tmp/speck-home"),
        "fish render_speck_home must emit `set -gx SPECK_HOME <home>`; got: {out:?}"
    );
}

#[test]
fn detect_shell_defaults_to_zsh_when_unset() {
    assert_eq!(detect_shell(None), ShellTarget::Zsh);
}

#[test]
fn detect_shell_returns_bash_for_bash_shell() {
    assert_eq!(detect_shell(Some("/bin/bash")), ShellTarget::Bash);
}

#[test]
fn detect_shell_returns_zsh_for_zsh_shell() {
    assert_eq!(detect_shell(Some("/bin/zsh")), ShellTarget::Zsh);
}

#[test]
fn detect_shell_returns_fish_for_fish_shell() {
    assert_eq!(detect_shell(Some("/usr/local/bin/fish")), ShellTarget::Fish);
}

#[test]
fn detect_shell_defaults_to_zsh_for_unrecognized_shell() {
    assert_eq!(detect_shell(Some("/bin/sh")), ShellTarget::Zsh);
}

#[test]
fn render_init_block_bash_contains_begin_and_end_markers() {
    let block = render_init_block(ShellTarget::Bash);
    assert!(block.contains("# BEGIN speck"), "got: {block:?}");
    assert!(block.contains("# END speck"), "got: {block:?}");
}

#[test]
fn render_init_block_bash_contains_command_v_spk_and_eval() {
    let block = render_init_block(ShellTarget::Bash);
    assert!(block.contains("command -v spk"), "got: {block:?}");
    assert!(block.contains("eval \"$(spk env)\""), "got: {block:?}");
}

#[test]
fn render_init_block_zsh_contains_same_format_as_bash() {
    let bash_block = render_init_block(ShellTarget::Bash);
    let zsh_block = render_init_block(ShellTarget::Zsh);
    assert_eq!(bash_block, zsh_block);
}

#[test]
fn render_init_block_fish_contains_begin_and_end_markers() {
    let block = render_init_block(ShellTarget::Fish);
    assert!(block.contains("# BEGIN speck"), "got: {block:?}");
    assert!(block.contains("# END speck"), "got: {block:?}");
}

#[test]
fn render_init_block_fish_contains_command_q_spk_and_source() {
    let block = render_init_block(ShellTarget::Fish);
    assert!(block.contains("command -q spk"), "got: {block:?}");
    assert!(block.contains("spk env --shell fish | source"), "got: {block:?}");
}

#[test]
fn render_init_block_fish_ends_with_end_not_fi() {
    let block = render_init_block(ShellTarget::Fish);
    assert!(block.contains("end"), "got: {block:?}");
    assert!(!block.contains("\nfi\n"), "got: {block:?}");
}

#[test]
fn init_has_begin_speck_marker() {
    for target in [ShellTarget::Bash, ShellTarget::Zsh, ShellTarget::Fish] {
        assert!(render_init_block(target).starts_with("# BEGIN speck"));
    }
    let spliced = replace_or_append_block("alias ll='ls -l'\n", &render_init_block(ShellTarget::Bash));
    assert!(spliced.contains("# BEGIN speck"));
}

#[test]
fn init_has_end_speck_marker() {
    for target in [ShellTarget::Bash, ShellTarget::Zsh, ShellTarget::Fish] {
        assert!(render_init_block(target).contains("# END speck"));
    }
}

#[test]
fn init_warns_on_docker_host_conflict() {
    assert!(docker_host_conflicts("unix:///var/run/docker.sock"));
    assert!(docker_host_conflicts("tcp://127.0.0.1:2375"));
    assert!(!docker_host_conflicts("unix:///Users/me/.local/share/speck/speck.sock"));
}

#[test]
fn init_supports_fish_conf_d() {
    let with_xdg = resolve_target_file(ShellTarget::Fish, Some("/Users/me"), Some("/Users/me/cfg"))
        .unwrap();
    assert_eq!(with_xdg, "/Users/me/cfg/fish/conf.d/speck.fish");
    let without_xdg = resolve_target_file(ShellTarget::Fish, Some("/Users/me"), None).unwrap();
    assert_eq!(without_xdg, "/Users/me/.config/fish/conf.d/speck.fish");
}

#[test]
fn init_targets_bashrc_and_zshrc_under_home() {
    assert_eq!(resolve_target_file(ShellTarget::Bash, Some("/Users/me"), None).unwrap(), "/Users/me/.bashrc");
    assert_eq!(resolve_target_file(ShellTarget::Zsh, Some("/Users/me"), Some("/x")).unwrap(), "/Users/me/.zshrc");
    assert_eq!(resolve_target_file(ShellTarget::Bash, None, None), Err(InitError::HomeNotSet));
    assert_eq!(InitError::HomeNotSet.message(), "HOME not set");
}

#[test]
fn resolve_shell_accepts_overrides_and_rejects_others() {
    assert_eq!(resolve_shell(Some("bash"), Some("/bin/zsh")), Ok(ShellTarget::Bash));
    assert_eq!(resolve_shell(Some("fish"), None), Ok(ShellTarget::Fish));
    assert_eq!(resolve_shell(None, Some("/bin/bash")), Ok(ShellTarget::Bash));
    let err = resolve_shell(Some("tcsh"), None).unwrap_err();
    assert_eq!(err, InitError::UnsupportedShell("tcsh".to_string()));
    assert_eq!(err.message(), "unsupported shell `tcsh` (expected bash, zsh, or fish)");
}

#[test]
fn init_is_idempotent_for_zsh() {
    let block = render_init_block(ShellTarget::Zsh);
    let first = replace_or_append_block("export PATH=/usr/bin\n", &block);
    let second = replace_or_append_block(&first, &block);
    assert_eq!(second.matches("# BEGIN speck").count(), 1);
    assert_eq!(second.matches("# END speck").count(), 1);
    assert!(second.starts_with("export PATH=/usr/bin\n# BEGIN speck"));
}

#[test]
fn replace_or_append_block_appends_and_replaces() {
    assert_eq!(replace_or_append_block("", "B\n"), "B\n");
    assert_eq!(replace_or_append_block("a", "B\n"), "a\nB\n");
    assert_eq!(replace_or_append_block("a\n", "B\n"), "a\nB\n");
    let content = "top\n# BEGIN speck\nold\n# END speck\nbottom\n";
    assert_eq!(
        replace_or_append_block(content, "# BEGIN speck\nnew\n# END speck"),
        "top\n# BEGIN speck\nnew\n# END speck\nbottom\n"
    );
}

#[test]
fn resolve_speck_home_prefers_variable_then_home() {
    assert_eq!(resolve_speck_home(Some("/opt/speck"), Some("/Users/me")), "/opt/speck");
    assert_eq!(resolve_speck_home(None, Some("/Users/me")), "/Users/me/.local/share/speck");
}

#[test]
fn init_file_contents_keep_rc_files_and_own_the_fish_file() {
    let block = render_init_block(ShellTarget::Bash);
    assert_eq!(init_file_contents(ShellTarget::Bash, None), block);
    assert_eq!(
        init_file_contents(ShellTarget::Bash, Some("alias ll='ls -l'")),
        format!("alias ll='ls -l'\n{block}")
    );
    let fish = render_init_block(ShellTarget::Fish);
    assert_eq!(init_file_contents(ShellTarget::Fish, Some("anything\n")), fish);
}

#[test]
fn init_messages() {
    assert_eq!(
        docker_host_warning("tcp://h:2375"),
        "Warning: DOCKER_HOST is currently set to `tcp://h:2375` \u{2014} spk init will override it."
    );
    assert_eq!(config_scaffold_message("/h/config.yaml", true), "Created /h/config.yaml");
    assert_eq!(
        config_scaffold_message("/h/config.yaml", false),
        "/h/config.yaml already exists \u{2014} skipping (not overwriting)"
    );
    assert_eq!(persisted_message("/h/.zshrc"), "Speck environment persisted to /h/.zshrc");
}
