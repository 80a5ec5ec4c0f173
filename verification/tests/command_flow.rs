use mascot_render::command::{
    motion_trigger_for_request, CommandError, MotionTimelineKind, MotionTimelineRequest,
    MotionTimelineStep, MotionTrigger,
};
use mascot_render::control::canonical_path;
use mascot_render::reload::{
    mouth_flap_skins_needed, route_timeline, targeted_mouth_flap_message, EnsembleMode,
    TimelineRoute,
};
use mascot_render::server_log::{
    favorite_ensemble_refusal_error, favorite_ensemble_refusal_message, preview_refusal_error,
    preview_refusal_message,
};
use mascot_render::shortcuts::{placement_menu_effect, MenuEffect, PlacementContextMenuAction};
use mascot_render::skin_state::{
    blink_repaint_after, blink_step, frame_repaint_after, BlinkPhase, BlinkStep, BLINK_CLOSED_NS,
};
use mascot_render::status::{
    CommandBoard, PlacementMode, ServerCommandKind, ServerCommandStage, ServerCommandStatus,
};
use mascot_render::target::preview_target;
use mascot_render::workspace::{no_python_message, python_candidates, python_launch_error_message};

fn request(kinds: &[MotionTimelineKind]) -> MotionTimelineRequest {
    MotionTimelineRequest {
        steps: kinds.iter().map(|&kind| MotionTimelineStep { kind, duration_ms: 500, fps: 8 }).collect(),
    }
}

#[test]
fn command_board_follows_each_command() {
    let queued = ServerCommandStatus::queued_at(ServerCommandKind::Timeline, "shake".to_string(), 10);
    let mut board = CommandBoard::new();
    board.last_error = Some("old".to_string());
    board.record_applying(&queued, 11);
    let current = board.current_command.clone().unwrap();
    assert_eq!(current.stage, ServerCommandStage::Applying);
    assert_eq!(current.requested_at_unix_ms, 10);
    assert_eq!(current.updated_at_unix_ms, 11);
    assert_eq!(board.last_error, None);
    board.record_applied(&queued, 12);
    assert!(board.current_command.is_none());
    let done = board.last_completed_command.clone().unwrap();
    assert_eq!((done.stage, done.requested_at_unix_ms, done.updated_at_unix_ms), (ServerCommandStage::Applied, 10, 12));
    board.record_failed(&queued, 13, "boom".to_string());
    let failed = board.last_failed_command.clone().unwrap();
    assert_eq!(failed.error, Some("boom".to_string()));
    assert_eq!(board.last_error, Some("boom".to_string()));
    assert_eq!(board.last_completed_command, Some(done));
}

#[test]
fn timelines_are_routed() {
    let mouth = request(&[MotionTimelineKind::MouthFlap]);
    let shake = request(&[MotionTimelineKind::Shake]);
    assert_eq!(route_timeline(&mouth, Some("a"), EnsembleMode::Vpt), TimelineRoute::TargetedMouthFlap);
    assert_eq!(
        route_timeline(&mouth, Some("a"), EnsembleMode::SingleCharacter),
        TimelineRoute::Motion { prepare_mouth_flap_skins: true }
    );
    assert_eq!(
        route_timeline(&shake, Some("a"), EnsembleMode::Vpt),
        TimelineRoute::Motion { prepare_mouth_flap_skins: false }
    );
    assert!(mouth_flap_skins_needed(EnsembleMode::SingleCharacter, true, false));
    assert!(!mouth_flap_skins_needed(EnsembleMode::SingleCharacter, true, true));
    assert!(!mouth_flap_skins_needed(EnsembleMode::Favorite, false, false));
}

#[test]
fn targeted_flap_log_lines() {
    assert_eq!(
        targeted_mouth_flap_message("めたん", EnsembleMode::Vpt, 2, true),
        "trigger=control_command action=timeline target_character_name=めたん result=targeted_mouth_flap member_count=2"
    );
    assert_eq!(
        targeted_mouth_flap_message("めたん", EnsembleMode::Vpt, 0, false),
        "trigger=control_command action=timeline target_character_name=めたん result=noop reason=vpt_member_not_found ensemble_mode=Vpt member_count=0"
    );
}

#[test]
fn refusals_while_an_ensemble_is_shown() {
    assert_eq!(
        favorite_ensemble_refusal_message("ずんだもん"),
        "trigger=control_command action=change_character favorite_ensemble_enabled=true requested_character=ずんだもん のため character変更できません"
    );
    assert_eq!(
        favorite_ensemble_refusal_error(),
        "favorite_ensemble_enabled=true; cannot change character while favorite ensemble is active"
    );
    assert_eq!(
        preview_refusal_error(EnsembleMode::Favorite),
        "ensemble_mode=Favorite; cannot apply preview target while ensemble mode is active"
    );
    assert_eq!(
        preview_refusal_message(EnsembleMode::Vpt, "a.png", "a.zip", "a.psd"),
        "trigger=control_command action=preview_target ensemble_mode=Vpt png_path=a.png zip_path=a.zip psd_path_in_zip=a.psd のため preview target を適用できません"
    );
}

#[test]
fn frame_delay_takes_the_shortest_request() {
    assert_eq!(frame_repaint_after(Some(100), 250, None, None, None), 100);
    assert_eq!(frame_repaint_after(None, 250, None, None, None), 250);
    assert_eq!(frame_repaint_after(None, 250, Some(40), Some(60), None), 40);
    assert_eq!(frame_repaint_after(Some(100), 250, Some(400), Some(60), Some(16)), 16);
}

#[test]
fn preview_targets_take_the_request() {
    let t = preview_target("p.png", "z.zip", "s.psd", Some("d.json"), Some(2.0f32.to_bits()));
    assert_eq!((t.png_path.as_str(), t.zip_path.as_str(), t.psd_path_in_zip.as_str()), ("p.png", "z.zip", "s.psd"));
    assert_eq!(t.display_diff_path, Some("d.json".to_string()));
    assert_eq!(t.scale_bits, Some(2.0f32.to_bits()));
    assert_eq!(t.favorite_ensemble_scale_bits, None);
}

#[test]
fn menu_entries_for_the_current_mode_do_nothing() {
    let set_vpt = PlacementContextMenuAction::SetEnsembleMode(EnsembleMode::Vpt);
    assert_eq!(placement_menu_effect(set_vpt, EnsembleMode::Vpt, PlacementMode::PerPsd), MenuEffect::Nothing);
    assert_eq!(
        placement_menu_effect(set_vpt, EnsembleMode::Favorite, PlacementMode::PerPsd),
        MenuEffect::ChangeEnsembleMode(EnsembleMode::Vpt)
    );
    let shared = PlacementContextMenuAction::SetPlacementMode(PlacementMode::SharedVisualSize);
    assert_eq!(
        placement_menu_effect(shared, EnsembleMode::Vpt, PlacementMode::PerPsd),
        MenuEffect::ChangePlacementMode(PlacementMode::SharedVisualSize)
    );
    assert_eq!(placement_menu_effect(shared, EnsembleMode::Vpt, PlacementMode::SharedVisualSize), MenuEffect::Nothing);
    assert_eq!(placement_menu_effect(PlacementContextMenuAction::Quit, EnsembleMode::Vpt, PlacementMode::PerPsd), MenuEffect::Quit);
}

#[test]
fn python_interpreters_tried() {
    assert_eq!(python_candidates(None, false), vec!["python3", "python"]);
    assert_eq!(python_candidates(Some("/opt/py".to_string()), true), vec!["python"]);
    assert_eq!(python_candidates(Some("/opt/py".to_string()), false), vec!["/opt/py", "python3", "python"]);
    assert_eq!(
        no_python_message(&python_candidates(None, false)),
        "no Python interpreter found; tried python3, python"
    );
    assert_eq!(
        python_launch_error_message("python3", "permission denied"),
        "failed to launch Python interpreter python3: permission denied"
    );
}

#[test]
fn canonical_paths_are_stable() {
    for path in ["/health//", "/", "", "/a/b/", "x"] {
        let once = canonical_path(path);
        assert_eq!(canonical_path(&once), once);
    }
}

#[test]
fn valid_timelines_set_off_their_single_step() {
    assert_eq!(
        motion_trigger_for_request(&request(&[MotionTimelineKind::Shake])),
        Ok(MotionTrigger::Shake { duration_ms: 500, fps: 8 })
    );
    assert_eq!(
        motion_trigger_for_request(&request(&[MotionTimelineKind::MouthFlap])),
        Ok(MotionTrigger::MouthFlap { duration_ms: 500, fps: 8 })
    );
    assert_eq!(
        motion_trigger_for_request(&request(&[])),
        Err(CommandError::TimelineStepCount { count: 0 })
    );
}

#[test]
fn blink_loop_steps() {
    let open = BlinkPhase::Open { until_ns: 1_000 };
    assert_eq!(blink_step(open, 999), BlinkStep::Unchanged);
    assert_eq!(blink_step(open, 1_000), BlinkStep::Close { until_ns: 1_000 + BLINK_CLOSED_NS });
    let closed = BlinkPhase::Closed { until_ns: 5_000 };
    assert_eq!(blink_step(closed, 6_000), BlinkStep::Open);
    assert_eq!(blink_repaint_after(closed, 4_000, 250), 250);
    assert_eq!(blink_repaint_after(closed, 4_900, 250), 100);
    assert_eq!(blink_repaint_after(closed, 6_000, 250), 0);
}
