use mascot_render::character::ResolvedCharacterSkin;
use mascot_render::command::{MotionTimelineKind, MotionTimelineStep};
use mascot_render::ensemble_entries::{
    psd_file_name, required_psd_file_name, sanitize_character_name, sanitize_ensemble_entries,
    sanitize_position_bits, sanitize_scale_bits, vpt_entry_from_resolved, EnsembleEntry,
    LayerOverride,
};
use mascot_render::favorite_shuffle::FavoriteEntry;
use mascot_render::gallery::{alpha_mask, blit_pixel_pairs, nearest_source_coord, BlitGeometry};
use mascot_render::perf_trace::{
    mark_trace_applied, performance_action, record_performance_stage, remove_active_trace,
    PendingPerformanceTrace, PerformanceAction,
};
use mascot_render::server_log::{
    change_character_failure_message, change_character_stage_message,
    change_character_success_message, clear_rendered_skin_path, optional_path_text,
    preview_target_failure_message, preview_target_stage_message, preview_target_success_message,
    record_rendered_skin_path, rendered_skin_message, should_log_rendered_skin, skin_work_summary,
};
use mascot_render::status::{ServerCommandKind, ServerCommandStatus};
use mascot_render::target::{
    apply_resolved_character, character_change_step, CharacterChangeStep, SavedTarget, config_matches_resolved_character, favorite_ensemble_scale_persist_target,
    favorite_target, scale_persist_target, verify_persisted_character_change, MascotTarget,
};

fn status(kind: ServerCommandKind, at: u64) -> ServerCommandStatus {
    ServerCommandStatus::queued_at(kind, "to=b.png".to_string(), at)
}

fn trace(at: u64) -> PendingPerformanceTrace {
    PendingPerformanceTrace::from_command(
        Some(PerformanceAction::ChangeCharacter),
        &status(ServerCommandKind::ChangeCharacter, at),
        "a.png".to_string(),
        at + 7,
    )
    .unwrap()
}

#[test]
fn traced_commands() {
    let mouth = vec![MotionTimelineStep { kind: MotionTimelineKind::MouthFlap, duration_ms: 1, fps: 1 }];
    let shake = vec![MotionTimelineStep { kind: MotionTimelineKind::Shake, duration_ms: 1, fps: 1 }];
    assert_eq!(performance_action(ServerCommandKind::ChangeCharacter, &vec![]), Some(PerformanceAction::ChangeCharacter));
    assert_eq!(performance_action(ServerCommandKind::Timeline, &mouth), Some(PerformanceAction::TimelineMouthFlap));
    assert_eq!(performance_action(ServerCommandKind::Timeline, &shake), None);
    assert_eq!(performance_action(ServerCommandKind::Show, &mouth), None);
    assert!(PendingPerformanceTrace::from_command(None, &status(ServerCommandKind::Show, 1), String::new(), 2).is_none());
}

#[test]
fn completed_message_reports_every_phase() {
    let mut t = trace(100);
    assert_eq!(t.stage_summary(), "none");
    t.applied_at_unix_ms = Some(120);
    let mut traces = vec![trace(1)];
    traces[0].applied_at_unix_ms = None;
    let mut one = vec![t];
    record_performance_stage(&mut one, "load_base_skin".to_string(), 12);
    // the only trace is already applied, so no stage was recorded
    assert_eq!(one[0].stage_summary(), "none");
    record_performance_stage(&mut traces, "load_base_skin".to_string(), 12);
    record_performance_stage(&mut traces, "persist".to_string(), 3);
    assert_eq!(traces[0].stage_summary(), "load_base_skin:12ms,persist:3ms");
    assert_eq!(
        one[0].completed_message(130, "b.png", "b.png", "a.png"),
        "event=post_to_status_settled action=change_character result=completed elapsed_ms=30 queue_ms=7 apply_ms=13 settle_ms=10 requested_at_unix_ms=100 applying_at_unix_ms=107 applied_at_unix_ms=120 completed_at_unix_ms=130 status_settled=true texture_changed=true stage_ms=none previous_displayed_png_path=a.png displayed_png_path=b.png configured_png_path=b.png command_summary=to=b.png"
    );
    let unapplied = trace(100);
    assert!(unapplied
        .completed_message(90, "a.png", "a.png", "a.png")
        .contains("elapsed_ms=0 queue_ms=7 apply_ms=0 settle_ms=0 requested_at_unix_ms=100 applying_at_unix_ms=107 applied_at_unix_ms=90 completed_at_unix_ms=90 status_settled=true texture_changed=false"));
}

#[test]
fn failed_messages() {
    let t = trace(100);
    assert_eq!(
        t.failed_message(150, "boom"),
        "event=post_to_status_settled action=change_character result=failed elapsed_ms=50 queue_ms=7 apply_ms=43 settle_ms=0 requested_at_unix_ms=100 applying_at_unix_ms=107 failed_at_unix_ms=150 status_settled=false stage_ms=none command_summary=to=b.png error=boom"
    );
    assert_eq!(
        PendingPerformanceTrace::failed_message_from_command(
            Some(PerformanceAction::TimelineMouthFlap),
            &status(ServerCommandKind::Timeline, 10),
            25,
            "bad",
        ),
        Some("event=post_to_status_settled action=timeline_mouth_flap result=failed elapsed_ms=15 queue_ms=0 apply_ms=15 settle_ms=0 requested_at_unix_ms=10 applying_at_unix_ms=10 failed_at_unix_ms=25 status_settled=false stage_ms=none command_summary=to=b.png error=bad".to_string())
    );
    assert_eq!(
        PendingPerformanceTrace::failed_message_from_command(None, &status(ServerCommandKind::Show, 10), 25, "bad"),
        None
    );
}

#[test]
fn traces_are_marked_and_removed_newest_first() {
    let action = Some(PerformanceAction::ChangeCharacter);
    let mut traces = vec![trace(5), trace(5), trace(9)];
    mark_trace_applied(&mut traces, action, 5, 77);
    assert_eq!(traces[1].applied_at_unix_ms, Some(77));
    assert_eq!(traces[0].applied_at_unix_ms, None);
    mark_trace_applied(&mut traces, action, 5, 78);
    assert_eq!(traces[0].applied_at_unix_ms, Some(78));
    mark_trace_applied(&mut traces, action, 5, 79);
    assert_eq!(traces[0].applied_at_unix_ms, Some(78));
    assert!(remove_active_trace(&mut traces, action, 5).is_none());
    assert!(remove_active_trace(&mut traces, Some(PerformanceAction::TimelineMouthFlap), 9).is_none());
    let removed = remove_active_trace(&mut traces, action, 9).unwrap();
    assert_eq!(removed.requested_at_unix_ms, 9);
    assert_eq!(traces.len(), 2);
}

#[test]
fn control_command_log_lines() {
    assert_eq!(
        change_character_stage_message("a.png", "b.png", "load_base_skin"),
        "trigger=control_command action=change_character character変更を処理中です: stage=load_base_skin from=a.png to=b.png"
    );
    assert_eq!(
        preview_target_stage_message("a.png", "b.png", "s"),
        "trigger=control_command action=preview_target character変更を処理中です: stage=s from=a.png to=b.png"
    );
    assert_eq!(
        change_character_success_message("a.png", "b.png", "rt.json", "b.png"),
        "trigger=control_command action=change_character character変更に成功しました: from=a.png to=b.png runtime_state_path=rt.json persisted_png_path=b.png"
    );
    assert!(preview_target_success_message("a", "b", "c", "d").starts_with("trigger=control_command action=preview_target "));
    assert_eq!(
        change_character_failure_message("a.png", "b.png", "persist", "disk full"),
        "trigger=control_command action=change_character character変更に失敗しました: stage=persist from=a.png to=b.png error=disk full"
    );
    assert!(preview_target_failure_message("a", "b", "s", "e").ends_with("stage=s from=a to=b error=e"));
    assert_eq!(optional_path_text(None), "-");
    assert_eq!(optional_path_text(Some("x")), "x");
    assert_eq!(skin_work_summary("a/b.png"), "png_path=a/b.png");
}

#[test]
fn rendered_skins_are_logged_once() {
    assert_eq!(
        rendered_skin_message("cache/demo/open.png"),
        "trigger=render action=display_skin displayed_png_path=cache/demo/open.png displayed_png_file_name=open.png"
    );
    assert_eq!(
        rendered_skin_message("cache/.."),
        "trigger=render action=display_skin displayed_png_path=cache/.. displayed_png_file_name=cache/.."
    );
    let mut last = None;
    assert!(should_log_rendered_skin(None, "a.png"));
    assert!(record_rendered_skin_path(&mut last, "a.png"));
    assert_eq!(last.as_deref(), Some("a.png"));
    assert!(!record_rendered_skin_path(&mut last, "a.png"));
    assert!(!should_log_rendered_skin(last.as_deref(), "a.png"));
    assert!(should_log_rendered_skin(last.as_deref(), "b.png"));
    clear_rendered_skin_path(&mut last);
    assert!(last.is_none());
    assert!(record_rendered_skin_path(&mut last, "a.png"));
}

fn target() -> MascotTarget {
    MascotTarget {
        png_path: "a.png".to_string(),
        scale_bits: Some(1.0f32.to_bits()),
        favorite_ensemble_scale_bits: None,
        zip_path: "a.zip".to_string(),
        psd_path_in_zip: "a.psd".to_string(),
        display_diff_path: Some("d.json".to_string()),
    }
}

fn resolved() -> ResolvedCharacterSkin {
    ResolvedCharacterSkin {
        character_name: "ずんだもん".to_string(),
        zip_path: "z.zip".to_string(),
        psd_path_in_zip: "dir/z.psd".to_string(),
        png_path: "z.png".to_string(),
        display_diff_path: None,
        candidate_count: 2,
    }
}

#[test]
fn resolved_characters_are_applied_and_verified() {
    let mut t = target();
    assert!(!config_matches_resolved_character(&t, &resolved()));
    apply_resolved_character(&mut t, &resolved());
    assert!(config_matches_resolved_character(&t, &resolved()));
    assert_eq!(t.scale_bits, Some(1.0f32.to_bits()));
    assert_eq!(t.display_diff_path, None);

    let same = verify_persisted_character_change(&t, t.duplicate());
    assert_eq!(same.ok().map(|p| p.png_path), Some("z.png".to_string()));
    let error = verify_persisted_character_change(&t, target()).err().unwrap();
    assert_eq!(
        error,
        "persisted mascot runtime state did not match the requested character source: requested_png=z.png persisted_png=a.png requested_zip=z.zip persisted_zip=a.zip requested_psd=dir/z.psd persisted_psd=a.psd requested_display_diff=- persisted_display_diff=d.json"
    );
}

#[test]
fn scale_targets_change_one_scale() {
    let t = target();
    let s = scale_persist_target(&t, 2.0f32.to_bits());
    assert_eq!(s.scale_bits, Some(2.0f32.to_bits()));
    assert_eq!(s.favorite_ensemble_scale_bits, None);
    let f = favorite_ensemble_scale_persist_target(&t, 3.0f32.to_bits());
    assert_eq!(f.scale_bits, Some(1.0f32.to_bits()));
    assert_eq!(f.favorite_ensemble_scale_bits, Some(3.0f32.to_bits()));
    let favorite = FavoriteEntry {
        zip_path: "f.zip".to_string(),
        psd_path_in_zip: "f.psd".to_string(),
        psd_file_name: "f.psd".to_string(),
        mascot_scale_bits: Some(0.5f32.to_bits()),
    };
    let ft = favorite_target(&favorite, "cache/f.png".to_string());
    assert_eq!((ft.png_path.as_str(), ft.zip_path.as_str(), ft.psd_path_in_zip.as_str()), ("cache/f.png", "f.zip", "f.psd"));
    assert_eq!(ft.scale_bits, Some(0.5f32.to_bits()));
    assert_eq!(ft.display_diff_path, None);
}

fn entry(name: Option<&str>, zip: &str, psd: &str, overrides: Vec<LayerOverride>) -> EnsembleEntry {
    EnsembleEntry {
        character_name: name.map(|n| n.to_string()),
        zip_path: zip.to_string(),
        psd_path_in_zip: psd.to_string(),
        psd_file_name: String::new(),
        visibility_overrides: overrides,
        mascot_scale_bits: None,
        position_bits: None,
    }
}

#[test]
fn ensemble_entries_are_cleaned_and_deduplicated() {
    let hide = LayerOverride { layer_index: 3, visible: false };
    let mut later = entry(Some("  "), "a.zip", "dir/a.psd", vec![]);
    later.mascot_scale_bits = Some(2.0f32.to_bits());
    later.position_bits = Some((f32::INFINITY.to_bits(), 1.0f32.to_bits()));
    let kept = sanitize_ensemble_entries(&vec![
        entry(Some(" ずんだもん "), "a.zip", "dir/a.psd", vec![]),
        entry(None, "", "x.psd", vec![]),
        entry(None, "a.zip", "dir/a.psd", vec![hide]),
        later,
    ]);
    assert_eq!(kept.len(), 2);
    assert_eq!(kept[0].character_name, None);
    assert_eq!(kept[0].psd_file_name, "a.psd");
    assert_eq!(kept[0].mascot_scale_bits, Some(2.0f32.to_bits()));
    assert_eq!(kept[0].position_bits, None);
    assert_eq!(kept[1].visibility_overrides, vec![hide]);
    assert_eq!(sanitize_character_name(&Some(" a ".to_string())), Some("a".to_string()));
    assert_eq!(sanitize_scale_bits(Some(0.0f32.to_bits())), None);
    assert_eq!(sanitize_scale_bits(Some((-0.0f32).to_bits())), None);
    assert_eq!(sanitize_scale_bits(Some(f32::MIN_POSITIVE.to_bits())), Some(f32::MIN_POSITIVE.to_bits()));
    assert_eq!(sanitize_position_bits(Some(((-3.5f32).to_bits(), 0.0f32.to_bits()))), Some(((-3.5f32).to_bits(), 0.0f32.to_bits())));
    assert_eq!(sanitize_position_bits(Some((f32::NAN.to_bits(), 0))), None);
    assert_eq!(psd_file_name("", "d/e.psd"), "e.psd");
    assert_eq!(psd_file_name("given", "d/e.psd"), "given");
    assert_eq!(required_psd_file_name("d/e.psd"), Ok("e.psd".to_string()));
    assert_eq!(required_psd_file_name("d/.."), Err("invalid PSD file name in 'd/..'".to_string()));
}

#[test]
fn vpt_entries_keep_saved_layout() {
    let mut saved = entry(None, "z.zip", "dir/z.psd", vec![LayerOverride { layer_index: 1, visible: true }]);
    saved.mascot_scale_bits = Some(1.5f32.to_bits());
    saved.position_bits = Some((10, 20));
    let e = vpt_entry_from_resolved(&resolved(), &vec![entry(None, "q.zip", "dir/z.psd", vec![]), saved]);
    assert_eq!(e.character_name, Some("ずんだもん".to_string()));
    assert_eq!(e.psd_file_name, "z.psd");
    assert_eq!(e.mascot_scale_bits, Some(1.5f32.to_bits()));
    assert_eq!(e.position_bits, Some((10, 20)));
    assert_eq!(e.visibility_overrides.len(), 1);
    let fresh = vpt_entry_from_resolved(&resolved(), &vec![]);
    assert!(fresh.visibility_overrides.is_empty() && fresh.mascot_scale_bits.is_none());
}

#[test]
fn gallery_pixels() {
    assert_eq!(alpha_mask(&vec![1, 2, 3, 4, 5, 6, 7, 8, 9]), vec![4, 8]);
    assert_eq!(nearest_source_coord(0, 4, 2), 0);
    assert_eq!(nearest_source_coord(3, 4, 2), 1);
    assert_eq!(nearest_source_coord(1, 2, 4), 2);
    let g = BlitGeometry {
        source_width: 1,
        source_height: 1,
        dest_width: 2,
        dest_height: 2,
        dest_x: 1,
        dest_y: -1,
        draw_width: 2,
        draw_height: 2,
    };
    assert_eq!(blit_pixel_pairs(g), vec![(0, 4)]);
    let scaled = BlitGeometry {
        source_width: 2,
        source_height: 1,
        dest_width: 4,
        dest_height: 1,
        dest_x: 0,
        dest_y: 0,
        draw_width: 4,
        draw_height: 1,
    };
    assert_eq!(blit_pixel_pairs(scaled), vec![(0, 0), (0, 4), (4, 8), (4, 12)]);
    let empty = BlitGeometry { draw_width: 0, ..scaled };
    assert!(blit_pixel_pairs(empty).is_empty());
}

#[test]
fn character_change_steps() {
    let current = target();
    let other = resolved();
    assert_eq!(
        character_change_step(true, &current, Some(&other), &SavedTarget::NotRead),
        CharacterChangeStep::RefuseWhileFavoriteEnsemble
    );
    assert_eq!(
        character_change_step(false, &current, None, &SavedTarget::NotRead),
        CharacterChangeStep::ResolveCharacter
    );
    assert_eq!(
        character_change_step(false, &current, Some(&other), &SavedTarget::NotRead),
        CharacterChangeStep::ApplyChange
    );
    let mut shown = target();
    apply_resolved_character(&mut shown, &other);
    assert_eq!(
        character_change_step(false, &shown, Some(&other), &SavedTarget::NotRead),
        CharacterChangeStep::ReadSavedTarget
    );
    assert_eq!(
        character_change_step(false, &shown, Some(&other), &SavedTarget::Read(shown.duplicate())),
        CharacterChangeStep::SkipUnchanged
    );
    assert_eq!(
        character_change_step(false, &shown, Some(&other), &SavedTarget::Read(target())),
        CharacterChangeStep::ApplyChange
    );
    assert_eq!(
        character_change_step(false, &shown, Some(&other), &SavedTarget::Unreadable),
        CharacterChangeStep::ApplyChange
    );
}

#[test]
fn paths_compare_by_components() {
    let mut shown = target();
    apply_resolved_character(&mut shown, &resolved());
    let mut spelled = resolved();
    spelled.psd_path_in_zip = "dir//z.psd/".to_string();
    assert!(config_matches_resolved_character(&shown, &spelled));
    let mut saved = shown.duplicate();
    saved.png_path = "z.png/".to_string();
    assert!(verify_persisted_character_change(&shown, saved).is_ok());
    assert!(!should_log_rendered_skin(Some("/skins//a.png"), "/skins/a.png"));
    assert!(should_log_rendered_skin(Some("/skins/a.png"), "/skins/b.png"));
}
