use mascot_render::command::{
    validate_motion_timeline_request, MotionTimelineKind, MotionTimelineRequest,
    MotionTimelineStep,
};
use mascot_render::status::{ServerCommandKind, ServerCommandStage, ServerCommandStatus};

#[test]
fn validate_motion_timeline_request_rejects_empty_timeline() {
    let request = MotionTimelineRequest { steps: vec![] };

    let error = validate_motion_timeline_request(&request)
        .expect_err("empty motion timeline should be rejected");

    assert!(
        error.message().contains("exactly one step"),
        "unexpected error: {}",
        error.message()
    );
}

#[test]
fn validate_motion_timeline_request_rejects_zero_duration() {
    let request = MotionTimelineRequest {
        steps: vec![MotionTimelineStep {
            kind: MotionTimelineKind::Shake,
            duration_ms: 0,
            fps: 20,
        }],
    };

    let error = validate_motion_timeline_request(&request)
        .expect_err("zero-duration motion timeline should be rejected");

    assert!(
        error
            .message()
            .contains("duration must be greater than zero"),
        "unexpected error: {}",
        error.message()
    );
}

#[test]
fn validate_motion_timeline_request_accepts_single_step() {
    let request = MotionTimelineRequest {
        steps: vec![MotionTimelineStep {
            kind: MotionTimelineKind::MouthFlap,
            duration_ms: 5_000,
            fps: 20,
        }],
    };

    validate_motion_timeline_request(&request)
        .expect("single-step motion timeline should be accepted");
}

#[test]
fn server_command_status_updates_stage_without_losing_request_time() {
    let queued = ServerCommandStatus::queued(ServerCommandKind::Timeline, "shake".to_string());
    let applied = queued.with_stage(
        ServerCommandStage::Applied,
        queued.updated_at_unix_ms + 1,
        None,
    );

    assert_eq!(applied.kind, queued.kind);
    assert_eq!(applied.summary, queued.summary);
    assert_eq!(applied.requested_at_unix_ms, queued.requested_at_unix_ms);
    assert_eq!(applied.stage, ServerCommandStage::Applied);
}

use mascot_render::command::{
    request_contains_mouth_flap, validate_non_empty_path, validate_preview_target_paths,
    validate_vpt_ensemble_request, CommandError, PreviewPathField, VptEnsembleRequest,
};
use mascot_render::status::{
    current_work_matches, now_unix_ms, saturating_u64, unix_ms_from_elapsed, ServerWorkGuard, ServerWorkStatus,
};

fn step(kind: MotionTimelineKind, duration_ms: u64, fps: u16) -> MotionTimelineStep {
    MotionTimelineStep { kind, duration_ms, fps }
}

#[test]
fn timeline_with_two_steps_reports_the_count() {
    let request = MotionTimelineRequest {
        steps: vec![
            step(MotionTimelineKind::Shake, 10, 20),
            step(MotionTimelineKind::MouthFlap, 10, 20),
        ],
    };
    let error = validate_motion_timeline_request(&request).unwrap_err();
    assert_eq!(error, CommandError::TimelineStepCount { count: 2 });
    assert_eq!(
        error.message(),
        "motion timeline must contain exactly one step, got 2"
    );
}

#[test]
fn timeline_with_zero_fps_is_rejected() {
    let request = MotionTimelineRequest { steps: vec![step(MotionTimelineKind::Shake, 10, 0)] };
    let error = validate_motion_timeline_request(&request).unwrap_err();
    assert_eq!(error, CommandError::TimelineZeroFps);
    assert_eq!(error.message(), "motion timeline fps must be greater than zero");
}

#[test]
fn zero_duration_is_reported_before_zero_fps() {
    let request = MotionTimelineRequest { steps: vec![step(MotionTimelineKind::Shake, 0, 0)] };
    assert_eq!(
        validate_motion_timeline_request(&request),
        Err(CommandError::TimelineZeroDuration)
    );
}

#[test]
fn vpt_ensemble_request_rules() {
    let empty = VptEnsembleRequest { character_names: vec![] };
    let error = validate_vpt_ensemble_request(&empty).unwrap_err();
    assert_eq!(error, CommandError::EmptyEnsemble);
    assert_eq!(
        error.message(),
        "vpt ensemble character_names must contain at least one character"
    );

    let blank = VptEnsembleRequest {
        character_names: vec!["ずんだもん".to_string(), "  \t".to_string(), "".to_string()],
    };
    let error = validate_vpt_ensemble_request(&blank).unwrap_err();
    assert_eq!(error, CommandError::BlankEnsembleName { index: 1 });
    assert_eq!(error.message(), "vpt ensemble character_names[1] must not be empty");

    let good = VptEnsembleRequest {
        character_names: vec!["ずんだもん".to_string(), " 四国めたん ".to_string()],
    };
    assert_eq!(validate_vpt_ensemble_request(&good), Ok(()));
}

#[test]
fn preview_target_paths_must_not_be_empty() {
    assert_eq!(validate_non_empty_path("a.png", PreviewPathField::PngPath), Ok(()));
    let error = validate_non_empty_path("", PreviewPathField::ZipPath).unwrap_err();
    assert_eq!(error, CommandError::EmptyPreviewPath { field: PreviewPathField::ZipPath });
    assert_eq!(error.message(), "preview target zip_path must not be empty");

    assert_eq!(
        validate_preview_target_paths("a.png", "a.zip", "", None),
        Err(CommandError::EmptyPreviewPath { field: PreviewPathField::PsdPathInZip })
    );
    assert_eq!(
        validate_preview_target_paths("a.png", "a.zip", "a.psd", Some("")),
        Err(CommandError::EmptyPreviewPath { field: PreviewPathField::DisplayDiffPath })
    );
    assert_eq!(
        validate_preview_target_paths("", "", "", Some("")),
        Err(CommandError::EmptyPreviewPath { field: PreviewPathField::PngPath })
    );
    assert_eq!(validate_preview_target_paths("a.png", "a.zip", "a.psd", Some("d.json")), Ok(()));
}

#[test]
fn mouth_flap_steps_are_found() {
    let shake = MotionTimelineRequest { steps: vec![step(MotionTimelineKind::Shake, 1, 1)] };
    let mixed = MotionTimelineRequest {
        steps: vec![step(MotionTimelineKind::Shake, 1, 1), step(MotionTimelineKind::MouthFlap, 1, 1)],
    };
    assert!(!request_contains_mouth_flap(&shake));
    assert!(request_contains_mouth_flap(&mixed));
    assert!(!request_contains_mouth_flap(&MotionTimelineRequest { steps: vec![] }));
}

#[test]
fn clock_time_is_after_2020() {
    assert!(now_unix_ms() > 1_577_836_800_000);
    assert_eq!(saturating_u64(5), 5);
    assert_eq!(saturating_u64(u128::MAX), u64::MAX);
}

#[test]
fn queued_command_keeps_its_identity_through_stages() {
    let queued = ServerCommandStatus::queued_at(ServerCommandKind::Show, "show".to_string(), 100);
    assert_eq!(queued.stage, ServerCommandStage::Queued);
    assert_eq!(queued.requested_at_unix_ms, 100);
    assert_eq!(queued.updated_at_unix_ms, 100);
    let applying = queued.with_stage(ServerCommandStage::Applying, 150, None);
    let failed = applying.with_stage(ServerCommandStage::Failed, 200, Some("boom".to_string()));
    let direct = queued.with_stage(ServerCommandStage::Failed, 200, Some("boom".to_string()));
    assert_eq!(failed, direct);
    assert_eq!(failed.requested_at_unix_ms, 100);
    assert_eq!(failed.updated_at_unix_ms, 200);
    assert_eq!(failed.error, Some("boom".to_string()));
}

#[test]
fn work_status_stage_keeps_kind_and_start() {
    let w = ServerWorkStatus::started_at(
        "reload".to_string(),
        "load".to_string(),
        "config".to_string(),
        7,
    );
    let next = w.with_stage_at("layout".to_string(), "done".to_string(), 9);
    assert_eq!(next.kind, "reload");
    assert_eq!(next.started_at_unix_ms, 7);
    assert_eq!(next.updated_at_unix_ms, 9);
    assert_eq!(next.stage, "layout");
    assert!(current_work_matches(Some(&w), &w));
    assert!(!current_work_matches(Some(&next), &w));
    assert!(!current_work_matches(None, &w));
    let started = ServerWorkStatus::started("a".to_string(), "b".to_string(), "c".to_string());
    assert_eq!(started.started_at_unix_ms, started.updated_at_unix_ms);
}

#[test]
fn work_guard_restores_the_previous_work() {
    let outer = ServerWorkStatus::started_at("outer".to_string(), "s".to_string(), "".to_string(), 1);
    let mut published = Some(outer.clone());
    let inner = ServerWorkStatus::started_at("inner".to_string(), "s".to_string(), "".to_string(), 2);
    let mut guard = ServerWorkGuard::start(&mut published, inner.clone());
    assert_eq!(published, Some(inner.clone()));
    guard.update_stage_at(&mut published, "t".to_string(), "more".to_string(), 3);
    assert_eq!(published.as_ref().map(|w| w.stage.clone()), Some("t".to_string()));
    guard.finish(&mut published);
    assert_eq!(published, Some(outer));
}

#[test]
fn stale_work_guard_leaves_newer_work_alone() {
    let mut published = None;
    let first = ServerWorkStatus::started_at("a".to_string(), "s".to_string(), "".to_string(), 1);
    let guard = ServerWorkGuard::start(&mut published, first);
    let other = ServerWorkStatus::started_at("b".to_string(), "s".to_string(), "".to_string(), 5);
    published = Some(other.clone());
    guard.finish(&mut published);
    assert_eq!(published, Some(other));
}

#[test]
fn clock_reading_becomes_timestamp() {
    assert_eq!(unix_ms_from_elapsed(Some(1_700_000_000_123)), 1_700_000_000_123);
    assert_eq!(unix_ms_from_elapsed(Some(u128::MAX)), u64::MAX);
    assert_eq!(unix_ms_from_elapsed(None), 0);
}
