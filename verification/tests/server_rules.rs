use mascot_render::cli::{cli_action, help_text, window_title, CliAction, CliCommand};
use mascot_render::command::{MotionTimelineKind, MotionTimelineRequest, MotionTimelineStep};
use mascot_render::reload::{
    active_ensemble_path, describe_motion_timeline_request, plan_reload,
    should_consume_targeted_mouth_flap_timeline, should_refresh_auxiliary_skins_now,
    should_reload_config, should_restore_window_history_for_reload, EnsembleMode, ReloadInputs,
    SkinSource,
};
use mascot_render::scale_persist::{
    pending_scale_persist_remaining_at, should_persist_pending_scale, SCALE_PERSIST_DEBOUNCE_NS,
};
use mascot_render::shortcuts::{
    display_position_reset_requested, keyboard_scale_steps, placement_context_menu_action,
    PlacementContextMenuAction, ShortcutKey, ShortcutModifiers,
};
use mascot_render::skin_state::{
    active_skin_state, ensemble_mouth_flap_is_open, ensemble_repaint_after, find_member_by_name,
    member_drawn_skin, mouth_flap_skin_state, ActiveSkinState, SkinSet,
};
use mascot_render::status::PlacementMode;

fn step(kind: MotionTimelineKind) -> MotionTimelineStep {
    MotionTimelineStep { kind, duration_ms: 1000, fps: 4 }
}

fn inputs(times: [Option<u128>; 5]) -> ReloadInputs {
    ReloadInputs {
        config_modified_at: times[0],
        runtime_state_modified_at: times[1],
        favorite_ensemble_modified_at: times[2],
        psd_viewer_tui_activity_modified_at: times[3],
        window_history_modified_at: times[4],
    }
}

#[test]
fn any_changed_file_triggers_a_reload() {
    let base = [Some(1), Some(2), None, Some(4), Some(5)];
    assert!(!should_reload_config(inputs(base), inputs(base)));
    for i in 0..5 {
        let mut next = base;
        next[i] = Some(99);
        assert!(should_reload_config(inputs(base), inputs(next)));
    }
    let mut gone = base;
    gone[0] = None;
    assert!(should_reload_config(inputs(base), inputs(gone)));
}

#[test]
fn reload_side_decisions() {
    assert!(should_restore_window_history_for_reload(PlacementMode::PerPsd, true, false));
    assert!(should_restore_window_history_for_reload(PlacementMode::PerPsd, false, true));
    assert!(!should_restore_window_history_for_reload(PlacementMode::PerPsd, false, false));
    assert!(!should_restore_window_history_for_reload(PlacementMode::SharedVisualSize, true, true));
    assert!(should_refresh_auxiliary_skins_now(false, true));
    assert!(!should_refresh_auxiliary_skins_now(true, true));
    assert!(!should_refresh_auxiliary_skins_now(false, false));
}

fn source(png: &str, zip: &str, psd: &str, mode: EnsembleMode) -> SkinSource {
    SkinSource {
        png_path: png.to_string(),
        zip_path: zip.to_string(),
        psd_path_in_zip: psd.to_string(),
        display_diff_path: None,
        ensemble_mode: mode,
    }
}

#[test]
fn unchanged_reload_redoes_nothing() {
    let s = source("a.png", "a.zip", "a.psd", EnsembleMode::SingleCharacter);
    let plan = plan_reload(&s, &s, false, false, false, PlacementMode::PerPsd);
    assert!(!plan.reload_active_skin && !plan.reload_ensemble && !plan.drop_ensemble);
    assert!(!plan.recompute_scale && !plan.refresh_auxiliary_skins);
    assert!(!plan.reset_window_history && !plan.restore_window_position);
}

#[test]
fn changed_png_reloads_the_skin() {
    let a = source("a.png", "a.zip", "a.psd", EnsembleMode::SingleCharacter);
    let b = source("b.png", "a.zip", "a.psd", EnsembleMode::SingleCharacter);
    let plan = plan_reload(&a, &b, false, false, false, PlacementMode::PerPsd);
    assert!(plan.png_changed && plan.reload_active_skin && plan.drop_ensemble);
    assert!(plan.recompute_scale && plan.refresh_auxiliary_skins);
    assert!(!plan.history_path_changed && !plan.reset_window_history);
}

#[test]
fn switching_to_an_ensemble_loads_it_and_restores_history() {
    let a = source("a.png", "a.zip", "a.psd", EnsembleMode::SingleCharacter);
    let b = source("a.png", "a.zip", "a.psd", EnsembleMode::Vpt);
    let plan = plan_reload(&a, &b, false, false, false, PlacementMode::PerPsd);
    assert!(plan.ensemble_mode_changed && plan.reload_ensemble && !plan.drop_ensemble);
    assert!(plan.history_path_changed && plan.reset_window_history && plan.restore_window_position);
    let shared = plan_reload(&a, &b, false, false, false, PlacementMode::SharedVisualSize);
    assert!(shared.reset_window_history && !shared.restore_window_position);
}

#[test]
fn display_diff_change_refreshes_auxiliary_skins_only() {
    let a = source("a.png", "a.zip", "a.psd", EnsembleMode::SingleCharacter);
    let mut b = source("a.png", "a.zip", "a.psd", EnsembleMode::SingleCharacter);
    b.display_diff_path = Some("d.json".to_string());
    let plan = plan_reload(&a, &b, false, false, false, PlacementMode::PerPsd);
    assert!(plan.blink_source_changed && plan.refresh_auxiliary_skins);
    assert!(!plan.reload_active_skin && !plan.recompute_scale && !plan.history_path_changed);
    let scale_only = plan_reload(&a, &a, true, false, false, PlacementMode::PerPsd);
    assert!(scale_only.recompute_scale && !scale_only.reload_active_skin);
}

#[test]
fn ensemble_files_live_under_the_data_root() {
    assert_eq!(active_ensemble_path(EnsembleMode::SingleCharacter, "/d"), None);
    assert_eq!(active_ensemble_path(EnsembleMode::Favorite, "/d"), Some("/d/favorites/favorites.toml".to_string()));
    assert_eq!(active_ensemble_path(EnsembleMode::Vpt, "/d"), Some("/d/vpt-ensemble/ensemble.toml".to_string()));
    assert!(EnsembleMode::Favorite.is_ensemble() && !EnsembleMode::SingleCharacter.is_ensemble());
}

#[test]
fn timeline_summaries_count_steps() {
    let mouth = MotionTimelineRequest { steps: vec![step(MotionTimelineKind::MouthFlap)] };
    assert_eq!(
        describe_motion_timeline_request(&mouth, Some("ずんだもん")),
        "口パクしました: steps=1 mouth_flap_steps=1 target_character_name=ずんだもん"
    );
    let shake = MotionTimelineRequest { steps: vec![step(MotionTimelineKind::Shake)] };
    assert_eq!(
        describe_motion_timeline_request(&shake, None),
        "揺れモーションを開始しました: steps=1 shake_steps=1 target_character_name=-"
    );
    let mixed = MotionTimelineRequest {
        steps: vec![step(MotionTimelineKind::Shake), step(MotionTimelineKind::MouthFlap), step(MotionTimelineKind::Shake)],
    };
    assert_eq!(
        describe_motion_timeline_request(&mixed, None),
        "モーションタイムラインを開始しました: steps=3 shake_steps=2 mouth_flap_steps=1 target_character_name=-"
    );
    let empty = MotionTimelineRequest { steps: vec![] };
    assert_eq!(
        describe_motion_timeline_request(&empty, None),
        "モーションタイムラインを開始しました: steps=0 shake_steps=0 mouth_flap_steps=0 target_character_name=-"
    );
}

#[test]
fn targeted_mouth_flaps_go_to_one_member() {
    let mouth = MotionTimelineRequest { steps: vec![step(MotionTimelineKind::MouthFlap)] };
    let shake = MotionTimelineRequest { steps: vec![step(MotionTimelineKind::Shake)] };
    assert!(should_consume_targeted_mouth_flap_timeline(&mouth, Some("a"), EnsembleMode::Vpt));
    assert!(!should_consume_targeted_mouth_flap_timeline(&mouth, None, EnsembleMode::Vpt));
    assert!(!should_consume_targeted_mouth_flap_timeline(&mouth, Some("a"), EnsembleMode::Favorite));
    assert!(!should_consume_targeted_mouth_flap_timeline(&shake, Some("a"), EnsembleMode::Vpt));
}

#[test]
fn mouth_flap_wins_over_blink() {
    assert_eq!(mouth_flap_skin_state(false, Some(true)), None);
    assert_eq!(mouth_flap_skin_state(true, Some(false)), Some(false));
    assert_eq!(active_skin_state(true, Some(true), true), ActiveSkinState::MouthOpen);
    assert_eq!(active_skin_state(true, Some(false), true), ActiveSkinState::MouthClosed);
    assert_eq!(active_skin_state(true, None, true), ActiveSkinState::BlinkClosed);
    assert_eq!(active_skin_state(false, Some(true), false), ActiveSkinState::Open);
    let all = SkinSet { has_closed: true, has_mouth_open: true, has_mouth_closed: true };
    assert_eq!(member_drawn_skin(all, Some(true), true), ActiveSkinState::MouthOpen);
    assert_eq!(member_drawn_skin(all, Some(false), true), ActiveSkinState::MouthClosed);
    assert_eq!(member_drawn_skin(all, None, true), ActiveSkinState::BlinkClosed);
    let open_only = SkinSet { has_closed: false, has_mouth_open: true, has_mouth_closed: false };
    assert_eq!(member_drawn_skin(open_only, Some(false), true), ActiveSkinState::Open);
    assert_eq!(member_drawn_skin(open_only, None, true), ActiveSkinState::Open);
}

#[test]
fn ensemble_states_combine() {
    assert_eq!(ensemble_mouth_flap_is_open(&vec![None, Some(false), Some(true)]), Some(true));
    assert_eq!(ensemble_mouth_flap_is_open(&vec![None, Some(false)]), Some(false));
    assert_eq!(ensemble_mouth_flap_is_open(&vec![None, None]), None);
    let names = vec![None, Some("ずんだもん".to_string()), Some("四国めたん".to_string())];
    assert_eq!(find_member_by_name(&names, "四国めたん"), Some(2));
    assert_eq!(find_member_by_name(&names, "春日部つむぎ"), None);
    assert_eq!(ensemble_repaint_after(&vec![(Some(30), None), (None, Some(20)), (Some(50), Some(10))]), Some(10));
    assert_eq!(ensemble_repaint_after(&vec![(None, None)]), None);
    assert_eq!(ensemble_repaint_after(&vec![]), None);
}

fn mods(alt: bool, ctrl: bool, command: bool, mac_cmd: bool) -> ShortcutModifiers {
    ShortcutModifiers { alt, ctrl, command, mac_cmd }
}

#[test]
fn keyboard_shortcuts() {
    let none = mods(false, false, false, false);
    assert_eq!(keyboard_scale_steps(none, true, false), 1);
    assert_eq!(keyboard_scale_steps(none, false, true), -1);
    assert_eq!(keyboard_scale_steps(none, true, true), 0);
    assert_eq!(keyboard_scale_steps(mods(false, true, false, false), true, false), 0);
    assert_eq!(
        placement_context_menu_action(none, &vec![ShortcutKey::Q, ShortcutKey::V]),
        Some(PlacementContextMenuAction::SetEnsembleMode(EnsembleMode::Vpt))
    );
    assert_eq!(
        placement_context_menu_action(none, &vec![ShortcutKey::S]),
        Some(PlacementContextMenuAction::SetPlacementMode(PlacementMode::SharedVisualSize))
    );
    assert_eq!(placement_context_menu_action(none, &vec![ShortcutKey::Q]), Some(PlacementContextMenuAction::Quit));
    assert_eq!(placement_context_menu_action(mods(true, false, false, false), &vec![ShortcutKey::Q]), None);
    assert_eq!(placement_context_menu_action(none, &vec![]), None);
    assert!(display_position_reset_requested(true, none, true));
    assert!(!display_position_reset_requested(false, none, true));
    assert!(!display_position_reset_requested(true, mods(false, false, false, true), true));
}

#[test]
fn command_line_actions_and_texts() {
    assert_eq!(cli_action(Some(CliCommand::Update), None, "d.toml".to_string()), CliAction::Update);
    assert_eq!(cli_action(Some(CliCommand::Check), Some("c.toml".to_string()), "d.toml".to_string()), CliAction::Check);
    assert_eq!(cli_action(None, Some("c.toml".to_string()), "d.toml".to_string()), CliAction::Run("c.toml".to_string()));
    assert_eq!(cli_action(None, None, "d.toml".to_string()), CliAction::Run("d.toml".to_string()));
    let help = help_text("/data", "/ws/cache", "/data/config.toml");
    assert!(help.starts_with("Usage:\n  mascot-render-server [--config <path>]\n"));
    assert!(help.ends_with("Default paths:\n  assets  /data/assets\n  cache   /ws/cache\n  config  /data/config.toml\n"));
    assert!(help.contains("Default local data directory:\n  /data\n"));
    assert_eq!(window_title(false, "chars/a.psd", "/x/mascot.toml"), "Mascot Render Server: chars/a.psd (mascot.toml)");
    assert_eq!(window_title(true, "chars/a.psd", "/x/mascot.toml"), "Mascot Render Server: favorite ensemble (mascot.toml)");
    assert_eq!(window_title(true, "a", "/"), "Mascot Render Server: favorite ensemble (/)");
}

#[test]
fn scale_changes_are_saved_after_the_debounce() {
    let d = SCALE_PERSIST_DEBOUNCE_NS;
    assert_eq!(pending_scale_persist_remaining_at(true, Some(1000), 1000), Some(d));
    assert_eq!(pending_scale_persist_remaining_at(true, Some(1000), 1000 + 100), Some(d - 100));
    assert_eq!(pending_scale_persist_remaining_at(true, Some(1000), 1000 + d + 5), Some(0));
    assert_eq!(pending_scale_persist_remaining_at(false, Some(1000), 2000), None);
    assert_eq!(pending_scale_persist_remaining_at(true, None, 2000), None);
    assert!(!should_persist_pending_scale(true, Some(1000), 1000 + d - 1));
    assert!(should_persist_pending_scale(true, Some(1000), 1000 + d));
    assert!(should_persist_pending_scale(true, None, 0));
    assert!(!should_persist_pending_scale(false, None, 0));
}
