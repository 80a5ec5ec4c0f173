//! Hot reload of the server's configuration: when to reload, and what a
//! reload has to redo; and how timeline commands are summarized and routed.
use vstd::prelude::*;

use crate::command::{has_mouth_flap, MotionTimelineKind, MotionTimelineRequest, MotionTimelineStep};
use crate::path_text::{join, join_path, path_key, same_path};
use crate::status::PlacementMode;
use crate::text::{decimal_text, push_decimal};

verus! {

/// Which mascots the server shows.
#[derive(Debug, Clone, Copy, PartialEq, Eq, Structural)]
pub enum EnsembleMode {
    /// One character.
    SingleCharacter,
    /// The favorite ensemble.
    Favorite,
    /// The ensemble of named characters.
    Vpt,
}

impl EnsembleMode {
    /// Whether several mascots are shown.
    pub open spec fn spec_is_ensemble(self) -> bool {
        self != EnsembleMode::SingleCharacter
    }

    /// Whether several mascots are shown.
    #[verifier::when_used_as_spec(spec_is_ensemble)]
    pub fn is_ensemble(self) -> (b: bool)
        ensures
            b == self.spec_is_ensemble(),
    {
        match self {
            EnsembleMode::SingleCharacter => false,
            _ => true,
        }
    }
}

/// The favorites file under the local data root.
pub open spec fn favorites_path_text(local_data_root: Seq<char>) -> Seq<char> {
    join_path(join_path(local_data_root, "favorites"@), "favorites.toml"@)
}

/// The file of the named-character ensemble under the local data root.
pub open spec fn vpt_ensemble_path_text(local_data_root: Seq<char>) -> Seq<char> {
    join_path(join_path(local_data_root, "vpt-ensemble"@), "ensemble.toml"@)
}

/// The ensemble file a mode reads, if any.
pub open spec fn active_ensemble_path_text(mode: EnsembleMode, local_data_root: Seq<char>) -> Option<
    Seq<char>,
> {
    match mode {
        EnsembleMode::SingleCharacter => None,
        EnsembleMode::Favorite => Some(favorites_path_text(local_data_root)),
        EnsembleMode::Vpt => Some(vpt_ensemble_path_text(local_data_root)),
    }
}

/// The favorites file, as `favorites_path_text` says.
pub fn favorites_path(local_data_root: &str) -> (p: String)
    ensures
        p@ == favorites_path_text(local_data_root@),
{
    let dir = join(local_data_root, "favorites");
    join(dir.as_str(), "favorites.toml")
}

/// The named-character ensemble file, as `vpt_ensemble_path_text` says.
pub fn vpt_ensemble_path(local_data_root: &str) -> (p: String)
    ensures
        p@ == vpt_ensemble_path_text(local_data_root@),
{
    let dir = join(local_data_root, "vpt-ensemble");
    join(dir.as_str(), "ensemble.toml")
}

/// The ensemble file of a mode, as `active_ensemble_path_text` says.
pub fn active_ensemble_path(mode: EnsembleMode, local_data_root: &str) -> (p: Option<String>)
    ensures
        match active_ensemble_path_text(mode, local_data_root@) {
            Some(t) => p matches Some(s) && s@ == t,
            None => p is None,
        },
{
    match mode {
        EnsembleMode::SingleCharacter => None,
        EnsembleMode::Favorite => Some(favorites_path(local_data_root)),
        EnsembleMode::Vpt => Some(vpt_ensemble_path(local_data_root)),
    }
}

/// The modification times (nanoseconds since the Unix epoch) of the files
/// the server watches; `None` for a file that is missing.
#[derive(Debug, Clone, Copy, PartialEq, Eq, Structural)]
pub struct ReloadInputs {
    pub config_modified_at: Option<u128>,
    pub runtime_state_modified_at: Option<u128>,
    pub favorite_ensemble_modified_at: Option<u128>,
    pub psd_viewer_tui_activity_modified_at: Option<u128>,
    pub window_history_modified_at: Option<u128>,
}

/// The configuration is reloaded when any watched file changed.
pub open spec fn reload_needed(current: ReloadInputs, next: ReloadInputs) -> bool {
    current != next
}

/// Whether a watched file changed since the last reload.
pub fn should_reload_config(current: ReloadInputs, next: ReloadInputs) -> (b: bool)
    ensures
        b == reload_needed(current, next),
{
    current.config_modified_at != next.config_modified_at || current.runtime_state_modified_at
        != next.runtime_state_modified_at || current.favorite_ensemble_modified_at
        != next.favorite_ensemble_modified_at || current.psd_viewer_tui_activity_modified_at
        != next.psd_viewer_tui_activity_modified_at || current.window_history_modified_at
        != next.window_history_modified_at
}

/// Whether a reload restores the saved window position: only when each
/// skin keeps its own position, and the history file or its path changed.
pub fn should_restore_window_history_for_reload(
    placement_mode: PlacementMode,
    history_path_changed: bool,
    window_history_file_changed: bool,
) -> (b: bool)
    ensures
        b == (placement_mode == PlacementMode::PerPsd && (history_path_changed
            || window_history_file_changed)),
{
    placement_mode == PlacementMode::PerPsd && (history_path_changed || window_history_file_changed)
}

/// Whether the skins derived from the current one are rebuilt now: when a
/// rebuild is pending and the configuration was not reloaded this frame.
pub fn should_refresh_auxiliary_skins_now(
    config_reloaded_this_frame: bool,
    pending_auxiliary_skin_refresh: bool,
) -> (b: bool)
    ensures
        b == (pending_auxiliary_skin_refresh && !config_reloaded_this_frame),
{
    pending_auxiliary_skin_refresh && !config_reloaded_this_frame
}

/// The part of the configuration that says which skin is shown.
#[derive(Debug, Clone)]
pub struct SkinSource {
    pub png_path: String,
    pub zip_path: String,
    pub psd_path_in_zip: String,
    pub display_diff_path: Option<String>,
    pub ensemble_mode: EnsembleMode,
}

/// What a reload has to redo.
#[derive(Debug, Clone, Copy, PartialEq, Eq, Structural)]
pub struct ReloadPlan {
    pub png_changed: bool,
    pub ensemble_mode_changed: bool,
    pub blink_source_changed: bool,
    pub history_path_changed: bool,
    /// Load the skin of the new configuration.
    pub reload_active_skin: bool,
    /// Load the ensemble of the new configuration.
    pub reload_ensemble: bool,
    /// Drop the ensemble shown so far.
    pub drop_ensemble: bool,
    /// Compute the display scale again.
    pub recompute_scale: bool,
    /// Rebuild the skins derived from the shown one (closed eyes, mouth
    /// flap).
    pub refresh_auxiliary_skins: bool,
    /// Track the window history file again.
    pub reset_window_history: bool,
    /// Move the window to the position saved in the history.
    pub restore_window_position: bool,
}

/// The plan of a reload from `previous` to `next`; the caller tells whether
/// the configured scale, the ensemble file or the window history file
/// changed.
pub open spec fn reload_plan(
    previous: SkinSource,
    next: SkinSource,
    scale_changed: bool,
    ensemble_file_changed: bool,
    window_history_file_changed: bool,
    placement_mode: PlacementMode,
) -> ReloadPlan {
    let ensemble_mode_changed = previous.ensemble_mode != next.ensemble_mode;
    let png_changed = path_key(previous.png_path@) != path_key(next.png_path@);
    let zip_or_psd_changed = path_key(previous.zip_path@) != path_key(next.zip_path@) || path_key(
        previous.psd_path_in_zip@,
    ) != path_key(next.psd_path_in_zip@);
    let blink_source_changed = zip_or_psd_changed || opt_key(previous.display_diff_path)
        != opt_key(next.display_diff_path);
    let history_path_changed = ensemble_mode_changed || zip_or_psd_changed;
    let reset_history = history_path_changed || window_history_file_changed;
    ReloadPlan {
        png_changed,
        ensemble_mode_changed,
        blink_source_changed,
        history_path_changed,
        reload_active_skin: png_changed || ensemble_mode_changed,
        reload_ensemble: next.ensemble_mode.spec_is_ensemble() && (ensemble_mode_changed
            || ensemble_file_changed),
        drop_ensemble: !next.ensemble_mode.spec_is_ensemble() && (ensemble_mode_changed
            || png_changed),
        recompute_scale: ensemble_mode_changed || ensemble_file_changed || png_changed
            || scale_changed,
        refresh_auxiliary_skins: ensemble_mode_changed || ensemble_file_changed || png_changed
            || blink_source_changed,
        reset_window_history: reset_history,
        restore_window_position: reset_history && placement_mode == PlacementMode::PerPsd,
    }
}

/// The key of an optional path: paths are compared by their components.
pub open spec fn opt_key(o: Option<String>) -> Option<Seq<char>> {
    match o {
        Some(s) => Some(path_key(s@)),
        None => None,
    }
}

fn opt_same_path(a: &Option<String>, b: &Option<String>) -> (r: bool)
    ensures
        r == (opt_key(*a) == opt_key(*b)),
{
    match (a, b) {
        (Some(x), Some(y)) => same_path(x.as_str(), y.as_str()),
        (None, None) => true,
        _ => false,
    }
}

/// The plan of a reload, as `reload_plan` says.
pub fn plan_reload(
    previous: &SkinSource,
    next: &SkinSource,
    scale_changed: bool,
    ensemble_file_changed: bool,
    window_history_file_changed: bool,
    placement_mode: PlacementMode,
) -> (p: ReloadPlan)
    ensures
        p == reload_plan(
            *previous,
            *next,
            scale_changed,
            ensemble_file_changed,
            window_history_file_changed,
            placement_mode,
        ),
{
    let ensemble_mode_changed = previous.ensemble_mode != next.ensemble_mode;
    let png_changed = !same_path(previous.png_path.as_str(), next.png_path.as_str());
    let zip_or_psd_changed = !same_path(previous.zip_path.as_str(), next.zip_path.as_str())
        || !same_path(previous.psd_path_in_zip.as_str(), next.psd_path_in_zip.as_str());
    let blink_source_changed = zip_or_psd_changed || !opt_same_path(
        &previous.display_diff_path,
        &next.display_diff_path,
    );
    let history_path_changed = ensemble_mode_changed || zip_or_psd_changed;
    let reset_history = history_path_changed || window_history_file_changed;
    let restore = reset_history && should_restore_window_history_for_reload(
        placement_mode,
        history_path_changed,
        window_history_file_changed,
    );
    let ensemble = next.ensemble_mode.is_ensemble();
    ReloadPlan {
        png_changed,
        ensemble_mode_changed,
        blink_source_changed,
        history_path_changed,
        reload_active_skin: png_changed || ensemble_mode_changed,
        reload_ensemble: ensemble && (ensemble_mode_changed || ensemble_file_changed),
        drop_ensemble: !ensemble && (ensemble_mode_changed || png_changed),
        recompute_scale: ensemble_mode_changed || ensemble_file_changed || png_changed
            || scale_changed,
        refresh_auxiliary_skins: ensemble_mode_changed || ensemble_file_changed || png_changed
            || blink_source_changed,
        reset_window_history: reset_history,
        restore_window_position: restore,
    }
}

/// A reload in which nothing the server shows changed redoes nothing.
pub proof fn lemma_unchanged_reload_redoes_nothing(
    source: SkinSource,
    placement_mode: PlacementMode,
)
    ensures
        ({
            let p = reload_plan(source, source, false, false, false, placement_mode);
            !p.reload_active_skin && !p.reload_ensemble && !p.drop_ensemble && !p.recompute_scale
                && !p.refresh_auxiliary_skins && !p.reset_window_history
                && !p.restore_window_position
        }),
{
}

/// A reload never both loads and drops the ensemble, and it restores the
/// window position only when it tracks the history file again.
pub proof fn lemma_reload_plan_consistent(
    previous: SkinSource,
    next: SkinSource,
    scale_changed: bool,
    ensemble_file_changed: bool,
    window_history_file_changed: bool,
    placement_mode: PlacementMode,
)
    ensures
        ({
            let p = reload_plan(
                previous,
                next,
                scale_changed,
                ensemble_file_changed,
                window_history_file_changed,
                placement_mode,
            );
            &&& !(p.reload_ensemble && p.drop_ensemble)
            &&& p.restore_window_position ==> p.reset_window_history
            &&& p.reload_active_skin ==> p.recompute_scale
        }),
{
}

/// What each change makes a reload redo: an edited ensemble file or a
/// switch of ensemble mode reloads the ensemble whenever the next
/// configuration shows one, and never otherwise; leaving ensemble mode, or a
/// new PNG outside it, drops the ensemble; a new PNG or mode reloads the
/// skin; a new PNG, mode, ensemble file or scale recomputes the scale; a new
/// zip or PSD moves to another window history, and an edited history file
/// resets it too.
pub proof fn lemma_reload_plan_follows_changes(
    previous: SkinSource,
    next: SkinSource,
    scale_changed: bool,
    ensemble_file_changed: bool,
    window_history_file_changed: bool,
    placement_mode: PlacementMode,
)
    ensures
        ({
            let p = reload_plan(
                previous,
                next,
                scale_changed,
                ensemble_file_changed,
                window_history_file_changed,
                placement_mode,
            );
            let mode_changed = previous.ensemble_mode != next.ensemble_mode;
            let png_changed = path_key(previous.png_path@) != path_key(next.png_path@);
            let source_moved = path_key(previous.zip_path@) != path_key(next.zip_path@) || path_key(
                previous.psd_path_in_zip@,
            ) != path_key(next.psd_path_in_zip@);
            &&& next.ensemble_mode.spec_is_ensemble() && ensemble_file_changed ==> p.reload_ensemble
            &&& next.ensemble_mode.spec_is_ensemble() && mode_changed ==> p.reload_ensemble
            &&& p.reload_ensemble ==> next.ensemble_mode.spec_is_ensemble() && (mode_changed
                || ensemble_file_changed)
            &&& !next.ensemble_mode.spec_is_ensemble() && (mode_changed || png_changed)
                ==> p.drop_ensemble
            &&& p.drop_ensemble ==> !next.ensemble_mode.spec_is_ensemble()
            &&& p.reload_active_skin <==> (png_changed || mode_changed)
            &&& p.recompute_scale <==> (png_changed || mode_changed || ensemble_file_changed
                || scale_changed)
            &&& source_moved ==> p.reset_window_history && p.blink_source_changed
            &&& window_history_file_changed ==> p.reset_window_history
            &&& p.reset_window_history ==> (mode_changed || source_moved
                || window_history_file_changed)
            &&& p.blink_source_changed <==> (source_moved || opt_key(previous.display_diff_path)
                != opt_key(next.display_diff_path))
            &&& p.refresh_auxiliary_skins <==> (png_changed || mode_changed || ensemble_file_changed
                || p.blink_source_changed)
            &&& p.restore_window_position <==> (p.reset_window_history && placement_mode
                == PlacementMode::PerPsd)
        }),
{
}

/// The number of steps of each kind: (shake, mouth flap).
pub open spec fn kind_counts(steps: Seq<MotionTimelineStep>) -> (nat, nat)
    decreases steps.len(),
{
    if steps.len() == 0 {
        (0, 0)
    } else {
        let (s, m) = kind_counts(steps.drop_last());
        match steps.last().kind {
            MotionTimelineKind::Shake => (s + 1, m),
            MotionTimelineKind::MouthFlap => (s, m + 1),
        }
    }
}

/// The log line that summarizes a timeline command: its step counts and its
/// target character (`-` when none is named).
pub open spec fn timeline_summary_text(steps: Seq<MotionTimelineStep>, target: Option<Seq<char>>) -> Seq<
    char,
> {
    let (shake, mouth) = kind_counts(steps);
    let t = match target {
        Some(t) => t,
        None => "-"@,
    };
    if mouth > 0 && shake == 0 {
        "口パクしました: steps="@ + decimal_text(steps.len()) + " mouth_flap_steps="@ + decimal_text(
            mouth,
        ) + " target_character_name="@ + t
    } else if shake > 0 && mouth == 0 {
        "揺れモーションを開始しました: steps="@ + decimal_text(steps.len()) + " shake_steps="@
            + decimal_text(shake) + " target_character_name="@ + t
    } else {
        "モーションタイムラインを開始しました: steps="@ + decimal_text(steps.len())
            + " shake_steps="@ + decimal_text(shake) + " mouth_flap_steps="@ + decimal_text(mouth)
            + " target_character_name="@ + t
    }
}

proof fn lemma_kind_counts_bounded(steps: Seq<MotionTimelineStep>)
    ensures
        kind_counts(steps).0 + kind_counts(steps).1 == steps.len(),
    decreases steps.len(),
{
    if steps.len() > 0 {
        lemma_kind_counts_bounded(steps.drop_last());
    }
}

/// The summary of a timeline command, as `timeline_summary_text` says.
pub fn describe_motion_timeline_request(
    request: &MotionTimelineRequest,
    target_character_name: Option<&str>,
) -> (s: String)
    ensures
        s@ == timeline_summary_text(
            request.steps@,
            match target_character_name {
                Some(t) => Some(t@),
                None => None,
            },
        ),
{
    let steps = &request.steps;
    let mut shake: usize = 0;
    let mut mouth: usize = 0;
    let mut i: usize = 0;
    assert(steps@.take(0) =~= Seq::<MotionTimelineStep>::empty());
    while i < steps.len()
        invariant
            i <= steps.len(),
            (shake as nat, mouth as nat) == kind_counts(steps@.take(i as int)),
        decreases steps.len() - i,
    {
        proof {
            lemma_kind_counts_bounded(steps@.take(i as int));
        }
        assert(steps@.take(i + 1).drop_last() =~= steps@.take(i as int));
        match steps[i].kind {
            MotionTimelineKind::Shake => shake = shake + 1,
            MotionTimelineKind::MouthFlap => mouth = mouth + 1,
        }
        i = i + 1;
    }
    assert(steps@.take(steps.len() as int) =~= steps@);
    let target = match target_character_name {
        Some(t) => t,
        None => "-",
    };
    let mut s: String;
    if mouth > 0 && shake == 0 {
        s = String::from_str("口パクしました: steps=");
        push_decimal(&mut s, steps.len() as u128);
        s.append(" mouth_flap_steps=");
        push_decimal(&mut s, mouth as u128);
    } else if shake > 0 && mouth == 0 {
        s = String::from_str("揺れモーションを開始しました: steps=");
        push_decimal(&mut s, steps.len() as u128);
        s.append(" shake_steps=");
        push_decimal(&mut s, shake as u128);
    } else {
        s = String::from_str("モーションタイムラインを開始しました: steps=");
        push_decimal(&mut s, steps.len() as u128);
        s.append(" shake_steps=");
        push_decimal(&mut s, shake as u128);
        s.append(" mouth_flap_steps=");
        push_decimal(&mut s, mouth as u128);
    }
    s.append(" target_character_name=");
    s.append(target);
    s
}

/// A timeline aimed at one member of the named-character ensemble is played
/// by that member alone: it names a target, the ensemble of named
/// characters is shown, and its first step is a mouth flap.
pub open spec fn consumes_targeted_mouth_flap(
    steps: Seq<MotionTimelineStep>,
    has_target: bool,
    mode: EnsembleMode,
) -> bool {
    has_target && mode == EnsembleMode::Vpt && steps.len() > 0 && steps[0].kind
        == MotionTimelineKind::MouthFlap
}

/// Whether a timeline goes to one ensemble member, as
/// `consumes_targeted_mouth_flap` says.
pub fn should_consume_targeted_mouth_flap_timeline(
    request: &MotionTimelineRequest,
    target_character_name: Option<&str>,
    ensemble_mode: EnsembleMode,
) -> (b: bool)
    ensures
        b == consumes_targeted_mouth_flap(
            request.steps@,
            target_character_name is Some,
            ensemble_mode,
        ),
{
    target_character_name.is_some() && ensemble_mode == EnsembleMode::Vpt && request.steps.len() > 0
        && request.steps[0].kind == MotionTimelineKind::MouthFlap
}

/// A timeline that one ensemble member plays holds a mouth flap.
pub proof fn lemma_targeted_timeline_has_mouth_flap(
    steps: Seq<MotionTimelineStep>,
    has_target: bool,
    mode: EnsembleMode,
)
    requires
        consumes_targeted_mouth_flap(steps, has_target, mode),
    ensures
        has_mouth_flap(steps),
{
    assert(steps[0].kind == MotionTimelineKind::MouthFlap);
}

/// How a timeline command is carried out.
#[derive(Debug, Clone, Copy, PartialEq, Eq, Structural)]
pub enum TimelineRoute {
    /// One member of the named-character ensemble flaps its mouth.
    TargetedMouthFlap,
    /// The motion plays on the mascot; when the timeline holds a mouth flap
    /// the mouth-flap skins are made ready first.
    Motion { prepare_mouth_flap_skins: bool },
}

/// The route of a timeline: to one ensemble member when it is aimed at one,
/// else to the mascot's motion.
pub open spec fn timeline_route(
    steps: Seq<MotionTimelineStep>,
    has_target: bool,
    mode: EnsembleMode,
) -> TimelineRoute {
    if consumes_targeted_mouth_flap(steps, has_target, mode) {
        TimelineRoute::TargetedMouthFlap
    } else {
        TimelineRoute::Motion { prepare_mouth_flap_skins: has_mouth_flap(steps) }
    }
}

/// Routes a timeline command, as `timeline_route` says.
pub fn route_timeline(
    request: &MotionTimelineRequest,
    target_character_name: Option<&str>,
    ensemble_mode: EnsembleMode,
) -> (r: TimelineRoute)
    ensures
        r == timeline_route(request.steps@, target_character_name is Some, ensemble_mode),
{
    if should_consume_targeted_mouth_flap_timeline(request, target_character_name, ensemble_mode) {
        TimelineRoute::TargetedMouthFlap
    } else {
        TimelineRoute::Motion {
            prepare_mouth_flap_skins: crate::command::request_contains_mouth_flap(request),
        }
    }
}

/// Whether the mouth-flap skins have to be loaded before a mouth flap
/// plays: not for an ensemble, and not when both are loaded already.
pub fn mouth_flap_skins_needed(
    ensemble_mode: EnsembleMode,
    has_mouth_open_skin: bool,
    has_mouth_closed_skin: bool,
) -> (b: bool)
    ensures
        b == !(ensemble_mode.spec_is_ensemble() || (has_mouth_open_skin && has_mouth_closed_skin)),
{
    !(ensemble_mode.is_ensemble() || (has_mouth_open_skin && has_mouth_closed_skin))
}

/// The name a mode is logged under.
pub open spec fn mode_text(mode: EnsembleMode) -> Seq<char> {
    match mode {
        EnsembleMode::SingleCharacter => "SingleCharacter"@,
        EnsembleMode::Favorite => "Favorite"@,
        EnsembleMode::Vpt => "Vpt"@,
    }
}

/// The name a mode is logged under, as `mode_text` says.
pub fn mode_name(mode: EnsembleMode) -> (s: &'static str)
    ensures
        s@ == mode_text(mode),
{
    match mode {
        EnsembleMode::SingleCharacter => "SingleCharacter",
        EnsembleMode::Favorite => "Favorite",
        EnsembleMode::Vpt => "Vpt",
    }
}

/// The log line of a timeline aimed at one ensemble member: the member
/// flapped its mouth, or no member has that name (`member_count` is 0 when
/// no ensemble is shown).
pub open spec fn targeted_flap_text(
    target: Seq<char>,
    mode: EnsembleMode,
    member_count: nat,
    triggered: bool,
) -> Seq<char> {
    if triggered {
        "trigger=control_command action=timeline target_character_name="@ + target
            + " result=targeted_mouth_flap member_count="@ + decimal_text(member_count)
    } else {
        "trigger=control_command action=timeline target_character_name="@ + target
            + " result=noop reason=vpt_member_not_found ensemble_mode="@ + mode_text(mode)
            + " member_count="@ + decimal_text(member_count)
    }
}

/// The log line of a targeted timeline, as `targeted_flap_text` says.
pub fn targeted_mouth_flap_message(
    target_character_name: &str,
    ensemble_mode: EnsembleMode,
    member_count: usize,
    triggered: bool,
) -> (s: String)
    ensures
        s@ == targeted_flap_text(
            target_character_name@,
            ensemble_mode,
            member_count as nat,
            triggered,
        ),
{
    let mut s = String::from_str("trigger=control_command action=timeline target_character_name=");
    s.append(target_character_name);
    if triggered {
        s.append(" result=targeted_mouth_flap member_count=");
    } else {
        s.append(" result=noop reason=vpt_member_not_found ensemble_mode=");
        s.append(mode_name(ensemble_mode));
        s.append(" member_count=");
    }
    push_decimal(&mut s, member_count as u128);
    s
}

} // verus!
