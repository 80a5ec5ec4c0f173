//! Control requests sent to the mascot server, and their validation.
use vstd::prelude::*;

use crate::text::{chars_of, decimal_text, push_decimal, unicode_white_space};

verus! {

/// The kind of motion a timeline step plays.
#[derive(Debug, Clone, Copy, PartialEq, Eq, Structural)]
pub enum MotionTimelineKind {
    Shake,
    MouthFlap,
}

/// One step of a motion timeline.
#[derive(Debug, Clone, Copy, PartialEq, Eq, Structural)]
pub struct MotionTimelineStep {
    pub kind: MotionTimelineKind,
    pub duration_ms: u64,
    pub fps: u16,
}

/// A motion timeline: the server plays exactly one step.
#[derive(Debug, Clone, PartialEq, Eq)]
pub struct MotionTimelineRequest {
    pub steps: Vec<MotionTimelineStep>,
}

/// Asks the server to switch to a skin of the named character.
#[derive(Debug, Clone, PartialEq, Eq)]
pub struct ChangeCharacterRequest {
    pub character_name: String,
}

/// Asks the server to show the named characters side by side.
#[derive(Debug, Clone, PartialEq, Eq)]
pub struct VptEnsembleRequest {
    pub character_names: Vec<String>,
}

/// The path fields of a preview-target request.
#[derive(Debug, Clone, Copy, PartialEq, Eq, Structural)]
pub enum PreviewPathField {
    PngPath,
    ZipPath,
    PsdPathInZip,
    DisplayDiffPath,
}

/// Why a control request was refused.
#[derive(Debug, Clone, Copy, PartialEq, Eq, Structural)]
pub enum CommandError {
    /// The timeline did not hold exactly one step; `count` steps were given.
    TimelineStepCount { count: usize },
    /// The single step lasts zero milliseconds.
    TimelineZeroDuration,
    /// The single step plays at zero frames per second.
    TimelineZeroFps,
    /// No character was named for the ensemble.
    EmptyEnsemble,
    /// The ensemble name at `index` is empty or only whitespace.
    BlankEnsembleName { index: usize },
    /// A path of a preview-target request is empty.
    EmptyPreviewPath { field: PreviewPathField },
}

/// The error a timeline is refused with, or `None` when it is accepted.
pub open spec fn timeline_rejection(steps: Seq<MotionTimelineStep>) -> Option<CommandError> {
    if steps.len() != 1 {
        Some(CommandError::TimelineStepCount { count: steps.len() as usize })
    } else if steps[0].duration_ms == 0 {
        Some(CommandError::TimelineZeroDuration)
    } else if steps[0].fps == 0 {
        Some(CommandError::TimelineZeroFps)
    } else {
        None
    }
}

/// The `Result` a check returns for a rejection (or its absence).
pub open spec fn as_result(rejection: Option<CommandError>) -> Result<(), CommandError> {
    match rejection {
        None => Ok(()),
        Some(e) => Err(e),
    }
}

/// Checks that a motion timeline holds exactly one step with a positive
/// duration and frame rate.
pub fn validate_motion_timeline_request(request: &MotionTimelineRequest) -> (r: Result<(), CommandError>)
    ensures
        r == as_result(timeline_rejection(request.steps@)),
{
    if request.steps.len() != 1 {
        return Err(CommandError::TimelineStepCount { count: request.steps.len() });
    }
    let step = request.steps[0];
    if step.duration_ms == 0 {
        return Err(CommandError::TimelineZeroDuration);
    }
    if step.fps == 0 {
        return Err(CommandError::TimelineZeroFps);
    }
    match step.kind {
        MotionTimelineKind::Shake => Ok(()),
        MotionTimelineKind::MouthFlap => Ok(()),
    }
}

/// A name is blank when every character is whitespace (so trimming it leaves
/// nothing).
pub open spec fn is_blank(name: Seq<char>) -> bool {
    forall|i: int| 0 <= i < name.len() ==> #[trigger] unicode_white_space(name[i])
}

/// The names of a list, as character sequences.
pub open spec fn names_view(names: Seq<String>) -> Seq<Seq<char>> {
    names.map_values(|n: String| n@)
}

/// The error an ensemble request is refused with, or `None`: no names at
/// all, else the first blank name.
pub open spec fn ensemble_rejection(names: Seq<Seq<char>>) -> Option<CommandError> {
    if names.len() == 0 {
        Some(CommandError::EmptyEnsemble)
    } else if exists|i: int| 0 <= i < names.len() && is_blank(#[trigger] names[i]) {
        let i = choose|i: int|
            0 <= i < names.len() && is_blank(#[trigger] names[i]) && forall|j: int|
                0 <= j < i ==> !is_blank(#[trigger] names[j]);
        Some(CommandError::BlankEnsembleName { index: i as usize })
    } else {
        None
    }
}

/// Whether every character of `name` is whitespace.
pub fn name_is_blank(name: &String) -> (b: bool)
    ensures
        b == is_blank(name@),
{
    let chars = chars_of(name.as_str());
    let mut i: usize = 0;
    while i < chars.len()
        invariant
            chars@ == name@,
            i <= chars.len(),
            forall|j: int| 0 <= j < i ==> #[trigger] unicode_white_space(name@[j]),
        decreases chars.len() - i,
    {
        if !chars[i].is_whitespace() {
            return false;
        }
        i = i + 1;
    }
    true
}

/// Checks that an ensemble request names at least one character and that no
/// name is empty or only whitespace.
pub fn validate_vpt_ensemble_request(request: &VptEnsembleRequest) -> (r: Result<(), CommandError>)
    ensures
        r == as_result(ensemble_rejection(names_view(request.character_names@))),
{
    let ghost names = names_view(request.character_names@);
    if request.character_names.len() == 0 {
        return Err(CommandError::EmptyEnsemble);
    }
    let mut index: usize = 0;
    while index < request.character_names.len()
        invariant
            names == names_view(request.character_names@),
            names.len() == request.character_names.len(),
            index <= names.len(),
            forall|j: int| 0 <= j < index ==> !is_blank(#[trigger] names[j]),
        decreases request.character_names.len() - index,
    {
        if name_is_blank(&request.character_names[index]) {
            assert(is_blank(names[index as int]));
            let ghost k = choose|k: int|
                0 <= k < names.len() && is_blank(#[trigger] names[k]) && forall|j: int|
                    0 <= j < k ==> !is_blank(#[trigger] names[j]);
            assert(k == index as int) by {
                if k < index as int {
                    assert(!is_blank(names[k]));
                } else if k > index as int {
                    assert(!is_blank(names[index as int]));
                }
            }
            return Err(CommandError::BlankEnsembleName { index });
        }
        index = index + 1;
    }
    assert(!(exists|i: int| 0 <= i < names.len() && is_blank(#[trigger] names[i])));
    Ok(())
}

/// The label a preview path field is reported under.
pub open spec fn field_label(field: PreviewPathField) -> Seq<char> {
    match field {
        PreviewPathField::PngPath => "png_path"@,
        PreviewPathField::ZipPath => "zip_path"@,
        PreviewPathField::PsdPathInZip => "psd_path_in_zip"@,
        PreviewPathField::DisplayDiffPath => "display_diff_path"@,
    }
}

fn field_label_str(field: PreviewPathField) -> (s: &'static str)
    ensures
        s@ == field_label(field),
{
    match field {
        PreviewPathField::PngPath => "png_path",
        PreviewPathField::ZipPath => "zip_path",
        PreviewPathField::PsdPathInZip => "psd_path_in_zip",
        PreviewPathField::DisplayDiffPath => "display_diff_path",
    }
}

/// Refuses an empty path, reporting the field it came from.
pub fn validate_non_empty_path(path: &str, field: PreviewPathField) -> (r: Result<(), CommandError>)
    ensures
        r == (if path@.len() == 0 {
            Err(CommandError::EmptyPreviewPath { field })
        } else {
            Ok(())
        }),
{
    if path.unicode_len() == 0 {
        Err(CommandError::EmptyPreviewPath { field })
    } else {
        Ok(())
    }
}

/// The error the paths of a preview-target request are refused with: the
/// first empty one among png, zip, psd and (when given) display-diff path.
pub open spec fn preview_paths_rejection(
    png_path: Seq<char>,
    zip_path: Seq<char>,
    psd_path_in_zip: Seq<char>,
    display_diff_path: Option<Seq<char>>,
) -> Option<CommandError> {
    if png_path.len() == 0 {
        Some(CommandError::EmptyPreviewPath { field: PreviewPathField::PngPath })
    } else if zip_path.len() == 0 {
        Some(CommandError::EmptyPreviewPath { field: PreviewPathField::ZipPath })
    } else if psd_path_in_zip.len() == 0 {
        Some(CommandError::EmptyPreviewPath { field: PreviewPathField::PsdPathInZip })
    } else if display_diff_path is Some && display_diff_path->0.len() == 0 {
        Some(CommandError::EmptyPreviewPath { field: PreviewPathField::DisplayDiffPath })
    } else {
        None
    }
}

/// Checks the path fields of a preview-target request (the scale is a float
/// and is checked by the caller).
pub fn validate_preview_target_paths(
    png_path: &str,
    zip_path: &str,
    psd_path_in_zip: &str,
    display_diff_path: Option<&str>,
) -> (r: Result<(), CommandError>)
    ensures
        r == as_result(
            preview_paths_rejection(
                png_path@,
                zip_path@,
                psd_path_in_zip@,
                match display_diff_path {
                    Some(p) => Some(p@),
                    None => None,
                },
            ),
        ),
{
    validate_non_empty_path(png_path, PreviewPathField::PngPath)?;
    validate_non_empty_path(zip_path, PreviewPathField::ZipPath)?;
    validate_non_empty_path(psd_path_in_zip, PreviewPathField::PsdPathInZip)?;
    if let Some(display_diff_path) = display_diff_path {
        validate_non_empty_path(display_diff_path, PreviewPathField::DisplayDiffPath)?;
    }
    Ok(())
}

/// The text an error is reported with.
pub open spec fn error_message(e: CommandError) -> Seq<char> {
    match e {
        CommandError::TimelineStepCount { count } => "motion timeline must contain exactly one step, got "@
            + decimal_text(count as nat),
        CommandError::TimelineZeroDuration => "motion timeline duration must be greater than zero"@,
        CommandError::TimelineZeroFps => "motion timeline fps must be greater than zero"@,
        CommandError::EmptyEnsemble => "vpt ensemble character_names must contain at least one character"@,
        CommandError::BlankEnsembleName { index } => "vpt ensemble character_names["@ + decimal_text(
            index as nat,
        ) + "] must not be empty"@,
        CommandError::EmptyPreviewPath { field } => "preview target "@ + field_label(field)
            + " must not be empty"@,
    }
}

impl CommandError {
    /// The text this error is reported with.
    pub fn message(&self) -> (s: String)
        ensures
            s@ == error_message(*self),
    {
        match *self {
            CommandError::TimelineStepCount { count } => {
                let mut s = String::from_str("motion timeline must contain exactly one step, got ");
                push_decimal(&mut s, count as u128);
                s
            },
            CommandError::TimelineZeroDuration => String::from_str(
                "motion timeline duration must be greater than zero",
            ),
            CommandError::TimelineZeroFps => String::from_str(
                "motion timeline fps must be greater than zero",
            ),
            CommandError::EmptyEnsemble => String::from_str(
                "vpt ensemble character_names must contain at least one character",
            ),
            CommandError::BlankEnsembleName { index } => {
                let mut s = String::from_str("vpt ensemble character_names[");
                push_decimal(&mut s, index as u128);
                s.append("] must not be empty");
                s
            },
            CommandError::EmptyPreviewPath { field } => {
                let mut s = String::from_str("preview target ");
                s.append(field_label_str(field));
                s.append(" must not be empty");
                s
            },
        }
    }
}


/// Whether some step of a timeline is a mouth flap.
pub open spec fn has_mouth_flap(steps: Seq<MotionTimelineStep>) -> bool {
    exists|i: int| 0 <= i < steps.len() && #[trigger] steps[i].kind == MotionTimelineKind::MouthFlap
}

/// Whether the timeline holds a mouth-flap step.
pub fn request_contains_mouth_flap(request: &MotionTimelineRequest) -> (b: bool)
    ensures
        b == has_mouth_flap(request.steps@),
{
    let mut i: usize = 0;
    while i < request.steps.len()
        invariant
            i <= request.steps.len(),
            forall|j: int|
                0 <= j < i ==> #[trigger] request.steps@[j].kind != MotionTimelineKind::MouthFlap,
        decreases request.steps.len() - i,
    {
        if request.steps[i].kind == MotionTimelineKind::MouthFlap {
            return true;
        }
        i = i + 1;
    }
    false
}

/// The motion a timeline sets off: its single step, as a shake or a mouth
/// flap of that length and frame rate.
#[derive(Debug, Clone, Copy, PartialEq, Eq, Structural)]
pub enum MotionTrigger {
    Shake { duration_ms: u64, fps: u16 },
    MouthFlap { duration_ms: u64, fps: u16 },
}

/// The motion of a step.
pub open spec fn trigger_of(step: MotionTimelineStep) -> MotionTrigger {
    match step.kind {
        MotionTimelineKind::Shake => MotionTrigger::Shake {
            duration_ms: step.duration_ms,
            fps: step.fps,
        },
        MotionTimelineKind::MouthFlap => MotionTrigger::MouthFlap {
            duration_ms: step.duration_ms,
            fps: step.fps,
        },
    }
}

/// The motion a timeline request sets off, or why it is refused (as
/// `validate_motion_timeline_request` refuses it).
pub fn motion_trigger_for_request(request: &MotionTimelineRequest) -> (r: Result<
    MotionTrigger,
    CommandError,
>)
    ensures
        match timeline_rejection(request.steps@) {
            Some(e) => r == Err::<MotionTrigger, CommandError>(e),
            None => r == Ok::<MotionTrigger, CommandError>(trigger_of(request.steps@[0])),
        },
{
    validate_motion_timeline_request(request)?;
    let step = request.steps[0];
    match step.kind {
        MotionTimelineKind::Shake => Ok(
            MotionTrigger::Shake { duration_ms: step.duration_ms, fps: step.fps },
        ),
        MotionTimelineKind::MouthFlap => Ok(
            MotionTrigger::MouthFlap { duration_ms: step.duration_ms, fps: step.fps },
        ),
    }
}

} // verus!
