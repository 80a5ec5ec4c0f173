//! The server's command line: what it asks for, its help text, and the
//! title of its window.
use vstd::prelude::*;

use crate::path_text::{file_name, file_name_of, join, join_path};

verus! {

/// A subcommand of the server binary.
#[derive(Debug, Clone, Copy, PartialEq, Eq, Structural)]
pub enum CliCommand {
    Update,
    Check,
}

/// What the server binary is asked to do.
#[derive(Debug, Clone, PartialEq, Eq)]
pub enum CliAction {
    /// Run the server with this configuration file.
    Run(String),
    /// Reinstall the workspace binaries.
    Update,
    /// Compare the build's commit with the remote branch.
    Check,
    /// Print this help text.
    PrintHelp(String),
}

/// The action of a parsed command line: the subcommand if one was given,
/// else running with the given configuration or the default one.
pub fn cli_action(command: Option<CliCommand>, config: Option<String>, default_config_path: String) -> (a:
    CliAction)
    ensures
        match command {
            Some(CliCommand::Update) => a == CliAction::Update,
            Some(CliCommand::Check) => a == CliAction::Check,
            None => match config {
                Some(c) => a == CliAction::Run(c),
                None => a == CliAction::Run(default_config_path),
            },
        },
{
    match command {
        Some(CliCommand::Update) => CliAction::Update,
        Some(CliCommand::Check) => CliAction::Check,
        None => match config {
            Some(c) => CliAction::Run(c),
            None => CliAction::Run(default_config_path),
        },
    }
}

/// The help text, with the default local data directory, cache directory
/// and configuration file filled in.
pub open spec fn help_text_of(data_root: Seq<char>, cache_root: Seq<char>, config_path: Seq<char>) -> Seq<
    char,
> {
    "Usage:\n  mascot-render-server [--config <path>]\n  mascot-render-server update\n  mascot-render-server check\n\nCommands:\n  update           Stop running binaries and reinstall workspace binaries.\n  check            Compare the embedded commit hash with the remote main branch.\n\nOptions:\n  --config <path>  Use a custom mascot static config TOML.\n  -h, --help       Show this help.\n\nDefault local data directory:\n  "@
        + data_root + "\n\nDefault paths:\n  assets  "@ + join_path(data_root, "assets"@)
        + "\n  cache   "@ + cache_root + "\n  config  "@ + config_path + "\n"@
}

/// The help text, as `help_text_of` says.
pub fn help_text(local_data_root: &str, cache_root: &str, config_path: &str) -> (s: String)
    ensures
        s@ == help_text_of(local_data_root@, cache_root@, config_path@),
{
    let assets_root = join(local_data_root, "assets");
    let mut s = String::from_str(
        "Usage:\n  mascot-render-server [--config <path>]\n  mascot-render-server update\n  mascot-render-server check\n\nCommands:\n  update           Stop running binaries and reinstall workspace binaries.\n  check            Compare the embedded commit hash with the remote main branch.\n\nOptions:\n  --config <path>  Use a custom mascot static config TOML.\n  -h, --help       Show this help.\n\nDefault local data directory:\n  ",
    );
    s.append(local_data_root);
    s.append("\n\nDefault paths:\n  assets  ");
    s.append(assets_root.as_str());
    s.append("\n  cache   ");
    s.append(cache_root);
    s.append("\n  config  ");
    s.append(config_path);
    s.append("\n");
    s
}

/// The file name of the configuration, or its whole path when it names no
/// file.
pub open spec fn config_label(config_path: Seq<char>) -> Seq<char> {
    match file_name_of(config_path) {
        Some(n) => n,
        None => config_path,
    }
}

/// The window title: the ensemble, or the PSD shown, and the configuration
/// file.
pub open spec fn window_title_text(
    favorite_ensemble_enabled: bool,
    psd_path_in_zip: Seq<char>,
    config_path: Seq<char>,
) -> Seq<char> {
    if favorite_ensemble_enabled {
        "Mascot Render Server: favorite ensemble ("@ + config_label(config_path) + ")"@
    } else {
        "Mascot Render Server: "@ + psd_path_in_zip + " ("@ + config_label(config_path) + ")"@
    }
}

/// The window title, as `window_title_text` says.
pub fn window_title(favorite_ensemble_enabled: bool, psd_path_in_zip: &str, config_path: &str) -> (s:
    String)
    ensures
        s@ == window_title_text(favorite_ensemble_enabled, psd_path_in_zip@, config_path@),
{
    let label = match file_name(config_path) {
        Some(n) => n,
        None => String::from_str(config_path),
    };
    let mut s: String;
    if favorite_ensemble_enabled {
        s = String::from_str("Mascot Render Server: favorite ensemble (");
    } else {
        s = String::from_str("Mascot Render Server: ");
        s.append(psd_path_in_zip);
        s.append(" (");
    }
    s.append(label.as_str());
    s.append(")");
    s
}

} // verus!
