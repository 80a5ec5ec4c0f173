use mascot_render::workspace::{
    escape_py_single_quoted, fallback_workspace_root, generate_update_script, parent,
    path_ancestors, python_list_literal, run_workspace_update, update_script_file_name,
    update_targets, workspace_cache_root, workspace_install_command, workspace_log_root,
    workspace_path, workspace_relative_display_path, workspace_root, WorkspaceUpdateError,
    python_launch_step, PythonLaunchStep, SpawnOutcome, workspace_update_script,
};

#[test]
fn workspace_paths_resolve_against_the_root() {
    assert_eq!(workspace_path("/ws", "config/a.toml"), "/ws/config/a.toml");
    assert_eq!(workspace_path("/ws", "/etc/a.toml"), "/etc/a.toml");
    assert_eq!(workspace_cache_root("/ws"), "/ws/cache");
    assert_eq!(workspace_log_root("/ws"), "/ws/log");
}

#[test]
fn display_paths_are_relative_with_forward_slashes() {
    assert_eq!(workspace_relative_display_path("/ws", "/ws/cache/a.png"), "cache/a.png");
    assert_eq!(workspace_relative_display_path("/ws", "/elsewhere/a.png"), "/elsewhere/a.png");
    assert_eq!(workspace_relative_display_path("/ws", "rel\\a.png"), "rel/a.png");
}

#[test]
fn root_resolution_prefers_env_then_cwd_then_exe() {
    let s = |x: &str| Some(x.to_string());
    assert_eq!(workspace_root(s("/env"), s("/cwd"), s("/exe"), "/fb".to_string()), "/env");
    assert_eq!(workspace_root(None, s("/cwd"), s("/exe"), "/fb".to_string()), "/cwd");
    assert_eq!(workspace_root(None, None, s("/exe"), "/fb".to_string()), "/exe");
    assert_eq!(workspace_root(None, None, None, "/fb".to_string()), "/fb");
}

#[test]
fn fallback_root_is_two_levels_above_the_manifest() {
    assert_eq!(fallback_workspace_root("/ws/crates/mascot-render-core"), "/ws");
    assert_eq!(parent("/ws/crates"), Some("/ws".to_string()));
    assert_eq!(parent("/"), None);
    assert_eq!(
        path_ancestors("/ws/crates/core"),
        vec!["/ws/crates/core", "/ws/crates", "/ws", "/"]
    );
}

#[test]
fn install_command_and_targets() {
    assert_eq!(
        workspace_install_command(),
        "cargo install --force --git https://github.com/cat2151/mascot-render-server mascot-render-server psd-viewer-tui"
    );
    assert_eq!(update_targets(), vec!["mascot-render-server", "psd-viewer-tui"]);
}

#[test]
fn update_failures_name_the_manual_command() {
    assert_eq!(run_workspace_update(Ok(())), Ok(()));
    let error = run_workspace_update(Err("no python".to_string())).unwrap_err();
    assert_eq!(error, WorkspaceUpdateError { detail: "no python".to_string() });
    assert_eq!(
        error.message(),
        "manual reinstall command: cargo install --force --git https://github.com/cat2151/mascot-render-server mascot-render-server psd-viewer-tui: failed to update workspace: no python"
    );
}

#[test]
fn python_quoting() {
    assert_eq!(escape_py_single_quoted("it's a\\b"), "it\\'s a\\\\b");
    assert_eq!(
        python_list_literal(&vec!["a".to_string(), "b'c".to_string()]),
        "['a', 'b\\'c']"
    );
    assert_eq!(python_list_literal(&vec![]), "[]");
}

#[test]
fn update_script_installs_and_relaunches_each_binary() {
    let script = generate_update_script(
        "cat2151",
        "mascot-render-server",
        &vec!["mascot-render-server".to_string(), "psd-viewer-tui".to_string()],
        4242,
    );
    assert!(script.starts_with("import os\nimport shlex\n"));
    assert!(script.contains("PARENT_PID = 4242\n"));
    assert!(script.contains(
        "INSTALL_PARTS = ['cargo', 'install', '--force', '--git', 'https://github.com/cat2151/mascot-render-server', 'mascot-render-server', 'psd-viewer-tui']\n"
    ));
    assert!(script.contains(
        "    log(\"cargo install が完了しました\")\n    launch(['mascot-render-server'])\n    launch(['psd-viewer-tui'])\nexcept subprocess.CalledProcessError as err:\n"
    ));
    assert!(script.contains("    log(f\"起動しています: {format_command(parts)}\")\n"));
    assert!(script.ends_with("        os.remove(__file__)\n    except OSError:\n        pass\n"));
}

#[test]
fn update_script_without_binaries_relaunches_the_repo() {
    let script = generate_update_script("o", "r", &vec![], 1);
    assert!(script.contains("INSTALL_PARTS = ['cargo', 'install', '--force', '--git', 'https://github.com/o/r']\n"));
    assert!(script.contains("    launch(['r'])\nexcept"));
}

#[test]
fn update_script_names_are_unique_per_process_and_time() {
    assert_eq!(update_script_file_name(12, 345), "mascot_render_update_12_345.py");
}

#[test]
fn windows_paths() {
    assert_eq!(workspace_relative_display_path("C:\\w", "C:\\w\\cache\\a.png"), "cache/a.png");
    assert_eq!(workspace_relative_display_path("C:\\w", "D:\\x\\a.png"), "D:/x/a.png");
    assert_eq!(workspace_path("C:\\w", "D:\\etc\\a.toml"), "D:\\etc\\a.toml");
    assert_eq!(workspace_path("C:\\w\\", "config"), "C:\\w\\config");
    assert_eq!(parent("C:\\w"), Some("C:\\".to_string()));
    assert_eq!(parent("C:\\w\\x"), Some("C:\\w".to_string()));
    assert_eq!(parent("C:\\"), None);
    assert_eq!(path_ancestors("C:\\w\\x"), vec!["C:\\w\\x", "C:\\w", "C:\\"]);
}

#[test]
fn python_launch_steps() {
    assert_eq!(python_launch_step(3, &vec![]), PythonLaunchStep::Try(0));
    assert_eq!(python_launch_step(3, &vec![SpawnOutcome::NotFound]), PythonLaunchStep::Try(1));
    assert_eq!(python_launch_step(3, &vec![SpawnOutcome::NotFound, SpawnOutcome::Started]), PythonLaunchStep::Started);
    assert_eq!(python_launch_step(3, &vec![SpawnOutcome::NotFound, SpawnOutcome::Failed]), PythonLaunchStep::LaunchFailed(1));
    assert_eq!(python_launch_step(3, &vec![SpawnOutcome::NotFound, SpawnOutcome::NotFound, SpawnOutcome::NotFound]), PythonLaunchStep::NotFound(2));
    assert_eq!(python_launch_step(0, &vec![]), PythonLaunchStep::NoCandidates);
}

#[test]
fn display_path_strips_whole_components() {
    assert_eq!(workspace_relative_display_path("/ws", "/ws//a"), "a");
    assert_eq!(workspace_relative_display_path("/ws", "/ws/a/"), "a");
    assert_eq!(workspace_relative_display_path("/ws", "/ws/cache//a.png"), "cache//a.png");
}

#[test]
fn update_script_for_this_workspace() {
    let script = workspace_update_script(77);
    assert!(script.contains("PARENT_PID = 77\nINSTALL_PARTS = ['cargo', 'install', '--force', '--git', 'https://github.com/cat2151/mascot-render-server', 'mascot-render-server', 'psd-viewer-tui']\n"));
    assert!(script.contains("    launch(['mascot-render-server'])\n    launch(['psd-viewer-tui'])\n"));
}
