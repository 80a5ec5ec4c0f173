//! Log lines the server writes while it applies control commands and shows
//! skins, and the record of the last skin it logged.
use vstd::prelude::*;

use crate::path_text::{file_name, file_name_of, path_key, same_path};
use crate::reload::{mode_name, mode_text, EnsembleMode};

verus! {

/// The text of an optional path: the path, or `-`.
pub open spec fn optional_text(p: Option<Seq<char>>) -> Seq<char> {
    match p {
        Some(p) => p,
        None => "-"@,
    }
}

/// The text of an optional path, as `optional_text` says.
pub fn optional_path_text(path: Option<&str>) -> (s: String)
    ensures
        s@ == optional_text(
            match path {
                Some(p) => Some(p@),
                None => None,
            },
        ),
{
    match path {
        Some(p) => String::from_str(p),
        None => String::from_str("-"),
    }
}

/// The line logged at each stage of a skin change.
pub open spec fn stage_text(
    action: Seq<char>,
    previous_png_path: Seq<char>,
    png_path: Seq<char>,
    stage: Seq<char>,
) -> Seq<char> {
    "trigger=control_command action="@ + action + " character変更を処理中です: stage="@ + stage
        + " from="@ + previous_png_path + " to="@ + png_path
}

/// The line logged when a skin change succeeded.
pub open spec fn success_text(
    action: Seq<char>,
    previous_png_path: Seq<char>,
    png_path: Seq<char>,
    runtime_state_path: Seq<char>,
    persisted_png_path: Seq<char>,
) -> Seq<char> {
    "trigger=control_command action="@ + action + " character変更に成功しました: from="@
        + previous_png_path + " to="@ + png_path + " runtime_state_path="@ + runtime_state_path
        + " persisted_png_path="@ + persisted_png_path
}

/// The line logged when a stage of a skin change failed.
pub open spec fn failure_text(
    action: Seq<char>,
    previous_png_path: Seq<char>,
    png_path: Seq<char>,
    stage: Seq<char>,
    error_detail: Seq<char>,
) -> Seq<char> {
    "trigger=control_command action="@ + action + " character変更に失敗しました: stage="@ + stage
        + " from="@ + previous_png_path + " to="@ + png_path + " error="@ + error_detail
}

/// The stage line of a skin change done by `action`, as `stage_text` says.
pub fn control_command_stage_message(
    action: &str,
    previous_png_path: &str,
    png_path: &str,
    stage: &str,
) -> (s: String)
    ensures
        s@ == stage_text(action@, previous_png_path@, png_path@, stage@),
{
    let mut s = String::from_str("trigger=control_command action=");
    s.append(action);
    s.append(" character変更を処理中です: stage=");
    s.append(stage);
    s.append(" from=");
    s.append(previous_png_path);
    s.append(" to=");
    s.append(png_path);
    s
}

/// The stage line of a character change.
pub fn change_character_stage_message(previous_png_path: &str, png_path: &str, stage: &str) -> (s:
    String)
    ensures
        s@ == stage_text("change_character"@, previous_png_path@, png_path@, stage@),
{
    control_command_stage_message("change_character", previous_png_path, png_path, stage)
}

/// The stage line of a preview-target change.
pub fn preview_target_stage_message(previous_png_path: &str, png_path: &str, stage: &str) -> (s:
    String)
    ensures
        s@ == stage_text("preview_target"@, previous_png_path@, png_path@, stage@),
{
    control_command_stage_message("preview_target", previous_png_path, png_path, stage)
}

/// The success line of a skin change done by `action`, as `success_text`
/// says.
pub fn control_command_success_message(
    action: &str,
    previous_png_path: &str,
    png_path: &str,
    runtime_state_path: &str,
    persisted_png_path: &str,
) -> (s: String)
    ensures
        s@ == success_text(
            action@,
            previous_png_path@,
            png_path@,
            runtime_state_path@,
            persisted_png_path@,
        ),
{
    let mut s = String::from_str("trigger=control_command action=");
    s.append(action);
    s.append(" character変更に成功しました: from=");
    s.append(previous_png_path);
    s.append(" to=");
    s.append(png_path);
    s.append(" runtime_state_path=");
    s.append(runtime_state_path);
    s.append(" persisted_png_path=");
    s.append(persisted_png_path);
    s
}

/// The success line of a character change.
pub fn change_character_success_message(
    previous_png_path: &str,
    png_path: &str,
    runtime_state_path: &str,
    persisted_png_path: &str,
) -> (s: String)
    ensures
        s@ == success_text(
            "change_character"@,
            previous_png_path@,
            png_path@,
            runtime_state_path@,
            persisted_png_path@,
        ),
{
    control_command_success_message(
        "change_character",
        previous_png_path,
        png_path,
        runtime_state_path,
        persisted_png_path,
    )
}

/// The success line of a preview-target change.
pub fn preview_target_success_message(
    previous_png_path: &str,
    png_path: &str,
    runtime_state_path: &str,
    persisted_png_path: &str,
) -> (s: String)
    ensures
        s@ == success_text(
            "preview_target"@,
            previous_png_path@,
            png_path@,
            runtime_state_path@,
            persisted_png_path@,
        ),
{
    control_command_success_message(
        "preview_target",
        previous_png_path,
        png_path,
        runtime_state_path,
        persisted_png_path,
    )
}

/// The failure line of a skin change done by `action`, as `failure_text`
/// says.
pub fn control_command_failure_message(
    action: &str,
    previous_png_path: &str,
    png_path: &str,
    stage: &str,
    error_detail: &str,
) -> (s: String)
    ensures
        s@ == failure_text(action@, previous_png_path@, png_path@, stage@, error_detail@),
{
    let mut s = String::from_str("trigger=control_command action=");
    s.append(action);
    s.append(" character変更に失敗しました: stage=");
    s.append(stage);
    s.append(" from=");
    s.append(previous_png_path);
    s.append(" to=");
    s.append(png_path);
    s.append(" error=");
    s.append(error_detail);
    s
}

/// The failure line of a character change.
pub fn change_character_failure_message(
    previous_png_path: &str,
    png_path: &str,
    stage: &str,
    error_detail: &str,
) -> (s: String)
    ensures
        s@ == failure_text(
            "change_character"@,
            previous_png_path@,
            png_path@,
            stage@,
            error_detail@,
        ),
{
    control_command_failure_message(
        "change_character",
        previous_png_path,
        png_path,
        stage,
        error_detail,
    )
}

/// The failure line of a preview-target change.
pub fn preview_target_failure_message(
    previous_png_path: &str,
    png_path: &str,
    stage: &str,
    error_detail: &str,
) -> (s: String)
    ensures
        s@ == failure_text(
            "preview_target"@,
            previous_png_path@,
            png_path@,
            stage@,
            error_detail@,
        ),
{
    control_command_failure_message(
        "preview_target",
        previous_png_path,
        png_path,
        stage,
        error_detail,
    )
}

/// The line logged when a skin is shown: its path and its file name (the
/// whole path when it names no file).
pub open spec fn rendered_skin_text(png_path: Seq<char>) -> Seq<char> {
    let name = match file_name_of(png_path) {
        Some(n) => n,
        None => png_path,
    };
    "trigger=render action=display_skin displayed_png_path="@ + png_path
        + " displayed_png_file_name="@ + name
}

/// The line logged when a skin is shown, as `rendered_skin_text` says.
pub fn rendered_skin_message(png_path: &str) -> (s: String)
    ensures
        s@ == rendered_skin_text(png_path@),
{
    let name = match file_name(png_path) {
        Some(n) => n,
        None => String::from_str(png_path),
    };
    let mut s = String::from_str("trigger=render action=display_skin displayed_png_path=");
    s.append(png_path);
    s.append(" displayed_png_file_name=");
    s.append(name.as_str());
    s
}

/// A skin is logged when it differs from the last one logged.
pub open spec fn should_log(last_logged: Option<Seq<char>>, png_path: Seq<char>) -> bool {
    match last_logged {
        Some(last) => path_key(last) != path_key(png_path),
        None => true,
    }
}

/// The view of an optional path.
pub open spec fn opt_path(p: Option<String>) -> Option<Seq<char>> {
    match p {
        Some(s) => Some(s@),
        None => None,
    }
}

/// Whether showing `png_path` is to be logged, as `should_log` says.
pub fn should_log_rendered_skin(last_logged_skin_path: Option<&str>, png_path: &str) -> (b: bool)
    ensures
        b == should_log(
            match last_logged_skin_path {
                Some(p) => Some(p@),
                None => None,
            },
            png_path@,
        ),
{
    match last_logged_skin_path {
        Some(last) => !same_path(last, png_path),
        None => true,
    }
}

/// Notes that `png_path` is shown: returns whether it is to be logged, and
/// then remembers it as the last skin logged.
pub fn record_rendered_skin_path(last_logged_skin_path: &mut Option<String>, png_path: &str) -> (b:
    bool)
    ensures
        b == should_log(opt_path(*old(last_logged_skin_path)), png_path@),
        b ==> opt_path(*final(last_logged_skin_path)) == Some(png_path@),
        !b ==> *final(last_logged_skin_path) == *old(last_logged_skin_path),
{
    let log = match last_logged_skin_path {
        Some(last) => !same_path(last.as_str(), png_path),
        None => true,
    };
    if !log {
        return false;
    }
    *last_logged_skin_path = Some(String::from_str(png_path));
    true
}

/// Forgets the last skin logged, so that the next one is logged.
pub fn clear_rendered_skin_path(last_logged_skin_path: &mut Option<String>)
    ensures
        *final(last_logged_skin_path) == None::<String>,
{
    *last_logged_skin_path = None;
}

/// A skin just recorded is not logged again (nor under another spelling of
/// the same path), a different path is, and after the record is cleared any
/// skin is logged.
pub proof fn lemma_rendered_skin_logged_once(png_path: Seq<char>, other: Seq<char>)
    ensures
        !should_log(Some(png_path), png_path),
        should_log(None, other),
        path_key(other) == path_key(png_path) ==> !should_log(Some(png_path), other),
        path_key(other) != path_key(png_path) ==> should_log(Some(png_path), other),
{
}

/// The summary of work on a skin: `png_path=<path>`.
pub fn skin_work_summary(png_path: &str) -> (s: String)
    ensures
        s@ == "png_path="@ + png_path@,
{
    let mut s = String::from_str("png_path=");
    s.append(png_path);
    s
}

/// The line logged when a character change is refused because the
/// favorite ensemble is shown.
pub fn favorite_ensemble_refusal_message(character_name: &str) -> (s: String)
    ensures
        s@ == "trigger=control_command action=change_character favorite_ensemble_enabled=true requested_character="@
            + character_name@ + " のため character変更できません"@,
{
    let mut s = String::from_str(
        "trigger=control_command action=change_character favorite_ensemble_enabled=true requested_character=",
    );
    s.append(character_name);
    s.append(" のため character変更できません");
    s
}

/// The error a character change is refused with while the favorite
/// ensemble is shown.
pub fn favorite_ensemble_refusal_error() -> (s: String)
    ensures
        s@ == "favorite_ensemble_enabled=true; cannot change character while favorite ensemble is active"@,
{
    String::from_str(
        "favorite_ensemble_enabled=true; cannot change character while favorite ensemble is active",
    )
}

/// The error a preview request is refused with while an ensemble is shown.
pub fn preview_refusal_error(ensemble_mode: EnsembleMode) -> (s: String)
    ensures
        s@ == "ensemble_mode="@ + mode_text(ensemble_mode)
            + "; cannot apply preview target while ensemble mode is active"@,
{
    let mut s = String::from_str("ensemble_mode=");
    s.append(mode_name(ensemble_mode));
    s.append("; cannot apply preview target while ensemble mode is active");
    s
}

/// The line logged when a preview request is refused while an ensemble is
/// shown.
pub fn preview_refusal_message(
    ensemble_mode: EnsembleMode,
    png_path: &str,
    zip_path: &str,
    psd_path_in_zip: &str,
) -> (s: String)
    ensures
        s@ == "trigger=control_command action=preview_target ensemble_mode="@ + mode_text(
            ensemble_mode,
        ) + " png_path="@ + png_path@ + " zip_path="@ + zip_path@ + " psd_path_in_zip="@
            + psd_path_in_zip@ + " のため preview target を適用できません"@,
{
    let mut s = String::from_str("trigger=control_command action=preview_target ensemble_mode=");
    s.append(mode_name(ensemble_mode));
    s.append(" png_path=");
    s.append(png_path);
    s.append(" zip_path=");
    s.append(zip_path);
    s.append(" psd_path_in_zip=");
    s.append(psd_path_in_zip);
    s.append(" のため preview target を適用できません");
    s
}

} // verus!
