//! Status records the server publishes about its lifecycle, commands and work.
use vstd::prelude::*;

use std::time::{SystemTime, SystemTimeError};

verus! {

#[verifier::external_type_specification]
#[verifier::external_body]
pub struct ExSystemTime(SystemTime);

#[verifier::external_type_specification]
#[verifier::external_body]
pub struct ExSystemTimeError(SystemTimeError);

/// `SystemTime::now`: the current wall-clock time. Nothing is stated of it:
/// it depends on the clock.
#[verifier::external_body]
pub(crate) fn system_time_now() -> SystemTime {
    SystemTime::now()
}

/// `SystemTime::duration_since(UNIX_EPOCH)`: the time elapsed since the Unix
/// epoch, or an error when the clock is set before it. Nothing is stated of
/// the outcome: it depends on the clock.
#[verifier::external_body]
pub(crate) fn duration_since_unix_epoch(t: &SystemTime) -> Result<
    std::time::Duration,
    SystemTimeError,
> {
    t.duration_since(std::time::UNIX_EPOCH)
}

/// `Duration::as_millis`: the whole milliseconds of a duration. A `Duration`
/// is opaque here, so nothing is stated of the number.
#[verifier::external_body]
pub(crate) fn duration_as_millis(d: &std::time::Duration) -> u128 {
    d.as_millis()
}

/// `Duration::as_nanos`: the whole nanoseconds of a duration. A `Duration` is
/// opaque here, so nothing is stated of the number.
#[verifier::external_body]
pub(crate) fn duration_as_nanos(d: &std::time::Duration) -> u128 {
    d.as_nanos()
}

/// A count of milliseconds (or any `u128`) narrowed to `u64`, saturating at
/// `u64::MAX`.
pub open spec fn saturate_u64(n: u128) -> u64 {
    if n > u64::MAX as u128 {
        u64::MAX
    } else {
        n as u64
    }
}

/// Narrows a `u128` to `u64`, saturating at `u64::MAX`.
pub fn saturating_u64(n: u128) -> (r: u64)
    ensures
        r == saturate_u64(n),
{
    if n > u64::MAX as u128 {
        u64::MAX
    } else {
        n as u64
    }
}

/// The timestamp made of a reading of the clock: `elapsed_ms` is the whole
/// milliseconds since the Unix epoch, `None` when the clock is before it.
pub open spec fn unix_ms_of(elapsed_ms: Option<u128>) -> u64 {
    match elapsed_ms {
        Some(ms) => saturate_u64(ms),
        None => 0,
    }
}

/// Turns a reading of the clock into a timestamp: the milliseconds since the
/// epoch saturated to `u64`, or 0 when the clock is before the epoch.
pub fn unix_ms_from_elapsed(elapsed_ms: Option<u128>) -> (r: u64)
    ensures
        r == unix_ms_of(elapsed_ms),
{
    match elapsed_ms {
        Some(ms) => saturating_u64(ms),
        None => 0,
    }
}

/// Milliseconds since the Unix epoch, 0 when the clock is before the epoch,
/// saturating at `u64::MAX`: `unix_ms_from_elapsed` applied to the clock's
/// reading. The reading itself comes from the clock, so no clause fixes the
/// value.
pub fn now_unix_ms() -> u64 {
    let now = system_time_now();
    let elapsed_ms = match duration_since_unix_epoch(&now) {
        Ok(elapsed) => Some(duration_as_millis(&elapsed)),
        Err(_) => None,
    };
    unix_ms_from_elapsed(elapsed_ms)
}

/// Where the server is in its lifetime.
#[derive(Debug, Clone, Copy, PartialEq, Eq, Structural)]
pub enum ServerLifecyclePhase {
    Starting,
    Running,
    Stopping,
}

/// The kind of control command.
#[derive(Debug, Clone, Copy, PartialEq, Eq, Structural)]
pub enum ServerCommandKind {
    Show,
    Hide,
    ChangeCharacter,
    PreviewTarget,
    Timeline,
}

/// How far a control command has come.
#[derive(Debug, Clone, Copy, PartialEq, Eq, Structural)]
pub enum ServerCommandStage {
    Queued,
    Applying,
    Applied,
    Failed,
}

/// How the mascot window is placed.
#[derive(Debug, Clone, Copy, PartialEq, Eq, Structural)]
pub enum PlacementMode {
    PerPsd,
    SharedVisualSize,
}

/// The policy that picks the placement anchor.
#[derive(Debug, Clone, Copy, PartialEq, Eq, Structural)]
pub enum PlacementAnchorPolicy {
    AdaptiveRightOverflow,
}

/// The point of the mascot that stays put when its size changes.
#[derive(Debug, Clone, Copy, PartialEq, Eq, Structural)]
pub enum PlacementAnchorKind {
    BottomCenter,
    BottomRight,
}

/// Which skins a placement plan covers.
#[derive(Debug, Clone, Copy, PartialEq, Eq, Structural)]
pub enum PlacementTargetScope {
    CurrentPsd,
    CandidatePsdSet,
    FavoriteEnsemble,
    Unknown,
}

/// The measure shared visual sizes are matched on.
#[derive(Debug, Clone, Copy, PartialEq, Eq, Structural)]
pub enum SharedVisualSizePolicy {
    Height,
}

/// Motion flags of the mascot.
#[derive(Debug, Clone, Copy, PartialEq, Eq, Structural)]
pub struct ServerMotionStatus {
    pub active: bool,
    pub blink_closed: bool,
    pub mouth_flap_open: Option<bool>,
}

impl Default for ServerMotionStatus {
    fn default() -> (s: Self)
        ensures
            s == (ServerMotionStatus { active: false, blink_closed: false, mouth_flap_open: None }),
    {
        ServerMotionStatus { active: false, blink_closed: false, mouth_flap_open: None }
    }
}

/// The status of a control command.
#[derive(Debug, Clone, PartialEq, Eq)]
pub struct ServerCommandStatus {
    pub kind: ServerCommandKind,
    pub stage: ServerCommandStage,
    pub summary: String,
    pub requested_at_unix_ms: u64,
    pub updated_at_unix_ms: u64,
    pub error: Option<String>,
}

/// The status of a piece of background work.
#[derive(Debug, Clone, PartialEq, Eq)]
pub struct ServerWorkStatus {
    pub kind: String,
    pub stage: String,
    pub summary: String,
    pub started_at_unix_ms: u64,
    pub updated_at_unix_ms: u64,
}

/// The status `with_stage` derives: the new stage, time and error; kind,
/// summary and request time are kept.
pub open spec fn command_with_stage(
    s: ServerCommandStatus,
    stage: ServerCommandStage,
    updated_at_unix_ms: u64,
    error: Option<String>,
) -> ServerCommandStatus {
    ServerCommandStatus {
        kind: s.kind,
        stage,
        summary: s.summary,
        requested_at_unix_ms: s.requested_at_unix_ms,
        updated_at_unix_ms,
        error,
    }
}

/// The status of a command queued at `now`.
pub open spec fn command_queued_at(
    kind: ServerCommandKind,
    summary: String,
    now: u64,
) -> ServerCommandStatus {
    ServerCommandStatus {
        kind,
        stage: ServerCommandStage::Queued,
        summary,
        requested_at_unix_ms: now,
        updated_at_unix_ms: now,
        error: None,
    }
}

impl ServerCommandStatus {
    /// The status of a command queued at the given time.
    pub fn queued_at(kind: ServerCommandKind, summary: String, now: u64) -> (s: Self)
        ensures
            s == command_queued_at(kind, summary, now),
    {
        ServerCommandStatus {
            kind,
            stage: ServerCommandStage::Queued,
            summary,
            requested_at_unix_ms: now,
            updated_at_unix_ms: now,
            error: None,
        }
    }

    /// The status of a command queued now: queued, no error, and requested
    /// and updated at the same (clock-given) time.
    pub fn queued(kind: ServerCommandKind, summary: String) -> (s: Self)
        ensures
            s == command_queued_at(kind, summary, s.requested_at_unix_ms),
    {
        let now = now_unix_ms();
        Self::queued_at(kind, summary, now)
    }

    /// This command at a new stage, updated at the given time with the given
    /// error; its kind, summary and request time are kept.
    pub fn with_stage(
        &self,
        stage: ServerCommandStage,
        updated_at_unix_ms: u64,
        error: Option<String>,
    ) -> (s: Self)
        ensures
            s == command_with_stage(*self, stage, updated_at_unix_ms, error),
            s.kind == self.kind,
            s.summary == self.summary,
            s.requested_at_unix_ms == self.requested_at_unix_ms,
    {
        ServerCommandStatus {
            kind: self.kind,
            stage,
            summary: self.summary.clone(),
            requested_at_unix_ms: self.requested_at_unix_ms,
            updated_at_unix_ms,
            error,
        }
    }
}

/// Work started at `now`.
pub open spec fn work_started_at(
    kind: String,
    stage: String,
    summary: String,
    now: u64,
) -> ServerWorkStatus {
    ServerWorkStatus { kind, stage, summary, started_at_unix_ms: now, updated_at_unix_ms: now }
}

/// The work moved to a new stage and summary at `now`; kind and start time
/// are kept.
pub open spec fn work_with_stage(
    w: ServerWorkStatus,
    stage: String,
    summary: String,
    now: u64,
) -> ServerWorkStatus {
    ServerWorkStatus {
        kind: w.kind,
        stage,
        summary,
        started_at_unix_ms: w.started_at_unix_ms,
        updated_at_unix_ms: now,
    }
}

impl ServerWorkStatus {
    /// Work started at the given time.
    pub fn started_at(kind: String, stage: String, summary: String, now: u64) -> (w: Self)
        ensures
            w == work_started_at(kind, stage, summary, now),
    {
        ServerWorkStatus { kind, stage, summary, started_at_unix_ms: now, updated_at_unix_ms: now }
    }

    /// Work started now (by the clock): started and updated at the same time.
    pub fn started(kind: String, stage: String, summary: String) -> (w: Self)
        ensures
            w == work_started_at(kind, stage, summary, w.started_at_unix_ms),
    {
        let now = now_unix_ms();
        Self::started_at(kind, stage, summary, now)
    }

    /// This work at a new stage and summary, updated at the given time.
    pub fn with_stage_at(&self, stage: String, summary: String, now: u64) -> (w: Self)
        ensures
            w == work_with_stage(*self, stage, summary, now),
    {
        ServerWorkStatus {
            kind: self.kind.clone(),
            stage,
            summary,
            started_at_unix_ms: self.started_at_unix_ms,
            updated_at_unix_ms: now,
        }
    }

    /// This work at a new stage and summary, updated now (by the clock); kind
    /// and start time are kept.
    pub fn with_stage(&self, stage: String, summary: String) -> (w: Self)
        ensures
            w == work_with_stage(*self, stage, summary, w.updated_at_unix_ms),
    {
        let now = now_unix_ms();
        self.with_stage_at(stage, summary, now)
    }
}

/// Whether `current` is the same piece of work as `expected`: same kind,
/// start time and stage.
pub open spec fn work_matches(current: Option<ServerWorkStatus>, expected: ServerWorkStatus) -> bool {
    match current {
        Some(c) => c.kind@ == expected.kind@ && c.started_at_unix_ms == expected.started_at_unix_ms
            && c.stage@ == expected.stage@,
        None => false,
    }
}

/// Whether the published current work is still the expected one, so that a
/// stage update or the end of the work may replace it.
pub fn current_work_matches(current: Option<&ServerWorkStatus>, expected: &ServerWorkStatus) -> (b:
    bool)
    ensures
        b == work_matches(
            match current {
                Some(c) => Some(*c),
                None => None,
            },
            *expected,
        ),
{
    match current {
        Some(c) => c.kind == expected.kind && c.started_at_unix_ms == expected.started_at_unix_ms
            && c.stage == expected.stage,
        None => false,
    }
}

impl ServerWorkStatus {
    /// A copy of this work status.
    pub fn duplicate(&self) -> (w: Self)
        ensures
            w == *self,
    {
        ServerWorkStatus {
            kind: self.kind.clone(),
            stage: self.stage.clone(),
            summary: self.summary.clone(),
            started_at_unix_ms: self.started_at_unix_ms,
            updated_at_unix_ms: self.updated_at_unix_ms,
        }
    }
}

fn duplicate_work(w: &Option<ServerWorkStatus>) -> (r: Option<ServerWorkStatus>)
    ensures
        r == *w,
{
    match w {
        Some(w) => Some(w.duplicate()),
        None => None,
    }
}

/// What the published current work becomes when a guard moves its work from
/// `current` to `next`: `next` if the published work is still `current`,
/// else it is left alone.
pub open spec fn work_after_stage(
    published: Option<ServerWorkStatus>,
    current: ServerWorkStatus,
    next: ServerWorkStatus,
) -> Option<ServerWorkStatus> {
    if work_matches(published, current) {
        Some(next)
    } else {
        published
    }
}

/// What the published current work becomes when a guard of `current` ends:
/// the work it replaced if the published work is still `current`, else it
/// is left alone.
pub open spec fn work_after_finish(
    published: Option<ServerWorkStatus>,
    current: ServerWorkStatus,
    previous: Option<ServerWorkStatus>,
) -> Option<ServerWorkStatus> {
    if work_matches(published, current) {
        previous
    } else {
        published
    }
}

/// A piece of work published as the server's current work for as long as
/// it runs: the work, and the current work it replaced.
pub struct ServerWorkGuard {
    pub current: ServerWorkStatus,
    pub previous: Option<ServerWorkStatus>,
}

impl ServerWorkGuard {
    /// Publishes `current` as the current work and remembers what it
    /// replaced.
    pub fn start(published: &mut Option<ServerWorkStatus>, current: ServerWorkStatus) -> (g: Self)
        ensures
            g.current == current,
            g.previous == *old(published),
            *final(published) == Some(current),
    {
        let previous = duplicate_work(published);
        *published = Some(current.duplicate());
        ServerWorkGuard { current, previous }
    }

    /// Moves the work to a new stage and summary at `now`; the published
    /// work follows only if it is still this guard's work.
    pub fn update_stage_at(
        &mut self,
        published: &mut Option<ServerWorkStatus>,
        stage: String,
        summary: String,
        now: u64,
    )
        ensures
            final(self).current == work_with_stage(old(self).current, stage, summary, now),
            final(self).previous == old(self).previous,
            *final(published) == work_after_stage(
                *old(published),
                old(self).current,
                final(self).current,
            ),
    {
        let next = self.current.with_stage_at(stage, summary, now);
        let matches = match published {
            Some(p) => current_work_matches(Some(&*p), &self.current),
            None => false,
        };
        if matches {
            *published = Some(next.duplicate());
        }
        self.current = next;
    }

    /// Moves the work to a new stage and summary now (by the clock), as
    /// `update_stage_at` does.
    pub fn update_stage(
        &mut self,
        published: &mut Option<ServerWorkStatus>,
        stage: String,
        summary: String,
    )
        ensures
            final(self).current == work_with_stage(
                old(self).current,
                stage,
                summary,
                final(self).current.updated_at_unix_ms,
            ),
            final(self).previous == old(self).previous,
            *final(published) == work_after_stage(
                *old(published),
                old(self).current,
                final(self).current,
            ),
    {
        let now = now_unix_ms();
        self.update_stage_at(published, stage, summary, now);
    }

    /// Ends the work: the work it replaced is published again if the
    /// published work is still this guard's.
    pub fn finish(&self, published: &mut Option<ServerWorkStatus>)
        ensures
            *final(published) == work_after_finish(*old(published), self.current, self.previous),
    {
        let matches = match published {
            Some(p) => current_work_matches(Some(&*p), &self.current),
            None => false,
        };
        if matches {
            *published = duplicate_work(&self.previous);
        }
    }
}

/// Starting a piece of work and ending it, with any stage updates between,
/// leaves the published current work as it was before the start.
pub proof fn lemma_work_guard_restores_previous(
    previous: Option<ServerWorkStatus>,
    w: ServerWorkStatus,
    stage: String,
    summary: String,
    now: u64,
)
    ensures
        work_after_finish(Some(w), w, previous) == previous,
        work_after_finish(
            work_after_stage(Some(w), w, work_with_stage(w, stage, summary, now)),
            work_with_stage(w, stage, summary, now),
            previous,
        ) == previous,
{
}

/// The work after the stage updates `stages` (stage, summary, time), in
/// order.
pub open spec fn work_after_stages(
    w: ServerWorkStatus,
    stages: Seq<(String, String, u64)>,
) -> ServerWorkStatus
    decreases stages.len(),
{
    if stages.len() == 0 {
        w
    } else {
        let s = stages.last();
        work_with_stage(work_after_stages(w, stages.drop_last()), s.0, s.1, s.2)
    }
}

/// The published current work after a guard of `w` makes the stage updates
/// `stages`, in order, starting from `published`.
pub open spec fn published_after_stages(
    published: Option<ServerWorkStatus>,
    w: ServerWorkStatus,
    stages: Seq<(String, String, u64)>,
) -> Option<ServerWorkStatus>
    decreases stages.len(),
{
    if stages.len() == 0 {
        published
    } else {
        let s = stages.last();
        let before = work_after_stages(w, stages.drop_last());
        work_after_stage(
            published_after_stages(published, w, stages.drop_last()),
            before,
            work_with_stage(before, s.0, s.1, s.2),
        )
    }
}

/// A guard started on a store whose current work was `previous`, moved
/// through any run of stage updates while nothing else published work, and
/// then ended, leaves `previous` published again; all along, the published
/// work is the guard's latest.
pub proof fn lemma_work_guard_run_restores_previous(
    previous: Option<ServerWorkStatus>,
    w: ServerWorkStatus,
    stages: Seq<(String, String, u64)>,
)
    ensures
        published_after_stages(Some(w), w, stages) == Some(work_after_stages(w, stages)),
        work_after_finish(
            published_after_stages(Some(w), w, stages),
            work_after_stages(w, stages),
            previous,
        ) == previous,
    decreases stages.len(),
{
    if stages.len() > 0 {
        lemma_work_guard_run_restores_previous(previous, w, stages.drop_last());
    }
}

/// Guards ended in the reverse order of their start restore the work that
/// was published before the first of them.
pub proof fn lemma_nested_work_guards_restore_outer(
    previous: Option<ServerWorkStatus>,
    outer: ServerWorkStatus,
    inner: ServerWorkStatus,
)
    ensures
        work_after_finish(work_after_finish(Some(inner), inner, Some(outer)), outer, previous)
            == previous,
{
}

/// A guard whose work is no longer the published one changes nothing when
/// it moves to a new stage or ends.
pub proof fn lemma_stale_work_guard_changes_nothing(
    published: Option<ServerWorkStatus>,
    current: ServerWorkStatus,
    next: ServerWorkStatus,
    previous: Option<ServerWorkStatus>,
)
    requires
        !work_matches(published, current),
    ensures
        work_after_stage(published, current, next) == published,
        work_after_finish(published, current, previous) == published,
{
}

/// The part of the published status that follows control commands: the
/// command being applied, the last one applied, the last one that failed,
/// and the last error.
#[derive(Debug, Clone)]
pub struct CommandBoard {
    pub current_command: Option<ServerCommandStatus>,
    pub last_completed_command: Option<ServerCommandStatus>,
    pub last_failed_command: Option<ServerCommandStatus>,
    pub last_error: Option<String>,
}

impl CommandBoard {
    /// The board of a server that has applied no command yet.
    pub fn new() -> (b: Self)
        ensures
            b.current_command is None,
            b.last_completed_command is None,
            b.last_failed_command is None,
            b.last_error is None,
    {
        CommandBoard {
            current_command: None,
            last_completed_command: None,
            last_failed_command: None,
            last_error: None,
        }
    }

    /// A command starts being applied at `at`: it becomes the current
    /// command and the last error is cleared.
    pub fn record_applying(&mut self, command: &ServerCommandStatus, at: u64)
        ensures
            final(self).current_command == Some(
                command_with_stage(*command, ServerCommandStage::Applying, at, None),
            ),
            final(self).last_completed_command == old(self).last_completed_command,
            final(self).last_failed_command == old(self).last_failed_command,
            final(self).last_error is None,
    {
        self.current_command = Some(command.with_stage(ServerCommandStage::Applying, at, None));
        self.last_error = None;
    }

    /// A command was applied at `at`: no command is current any more, it is
    /// the last completed one, and the last error is cleared.
    pub fn record_applied(&mut self, command: &ServerCommandStatus, at: u64)
        ensures
            final(self).current_command is None,
            final(self).last_completed_command == Some(
                command_with_stage(*command, ServerCommandStage::Applied, at, None),
            ),
            final(self).last_failed_command == old(self).last_failed_command,
            final(self).last_error is None,
    {
        self.current_command = None;
        self.last_completed_command = Some(command.with_stage(ServerCommandStage::Applied, at, None));
        self.last_error = None;
    }

    /// A command failed at `at` with `message`: no command is current any
    /// more, it is the last failed one, and the message is the last error.
    pub fn record_failed(&mut self, command: &ServerCommandStatus, at: u64, message: String)
        ensures
            final(self).current_command is None,
            final(self).last_failed_command == Some(
                command_with_stage(*command, ServerCommandStage::Failed, at, Some(message)),
            ),
            final(self).last_completed_command == old(self).last_completed_command,
            final(self).last_error == Some(message),
    {
        let error = message.clone();
        self.current_command = None;
        self.last_failed_command = Some(
            command.with_stage(ServerCommandStage::Failed, at, Some(message)),
        );
        self.last_error = Some(error);
    }
}

/// A command applied after it started keeps the time it was requested at,
/// its kind and its summary; a failed one carries its error in both places
/// it is reported.
pub proof fn lemma_board_records_keep_the_request(
    command: ServerCommandStatus,
    t1: u64,
    t2: u64,
    message: String,
)
    ensures
        command_with_stage(command, ServerCommandStage::Applied, t2, None).requested_at_unix_ms
            == command.requested_at_unix_ms,
        command_with_stage(command, ServerCommandStage::Applied, t2, None).kind == command.kind,
        command_with_stage(command, ServerCommandStage::Failed, t2, Some(message)).error == Some(
            message,
        ),
        command_with_stage(
            command_with_stage(command, ServerCommandStage::Applying, t1, None),
            ServerCommandStage::Applied,
            t2,
            None,
        ) == command_with_stage(command, ServerCommandStage::Applied, t2, None),
{
}

/// Moving a command to a stage and then to another is the same as moving it
/// straight to the second: only the last stage, time and error remain, and
/// kind, summary and request time never change.
pub proof fn lemma_command_with_stage_last_wins(
    s: ServerCommandStatus,
    stage1: ServerCommandStage,
    t1: u64,
    e1: Option<String>,
    stage2: ServerCommandStage,
    t2: u64,
    e2: Option<String>,
)
    ensures
        command_with_stage(command_with_stage(s, stage1, t1, e1), stage2, t2, e2)
            == command_with_stage(s, stage2, t2, e2),
{
}

/// A queued command moved to any stage keeps the time it was requested at.
pub proof fn lemma_queued_then_staged_keeps_request_time(
    kind: ServerCommandKind,
    summary: String,
    now: u64,
    stage: ServerCommandStage,
    t: u64,
    e: Option<String>,
)
    ensures
        command_with_stage(command_queued_at(kind, summary, now), stage, t, e).requested_at_unix_ms
            == now,
        command_with_stage(command_queued_at(kind, summary, now), stage, t, e).kind == kind,
        command_with_stage(command_queued_at(kind, summary, now), stage, t, e).summary == summary,
{
}

/// Work moved through stages keeps its kind and start time, and a work
/// status always matches itself.
pub proof fn lemma_work_stage_keeps_identity(
    w: ServerWorkStatus,
    stage: String,
    summary: String,
    now: u64,
)
    ensures
        work_with_stage(w, stage, summary, now).kind == w.kind,
        work_with_stage(w, stage, summary, now).started_at_unix_ms == w.started_at_unix_ms,
        work_matches(Some(w), w),
{
}

} // verus!
