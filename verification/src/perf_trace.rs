//! Timing traces of control commands, from the moment a command is applied
//! until the status that shows its effect is published.
use vstd::prelude::*;

use crate::command::has_mouth_flap;
use crate::command::MotionTimelineStep;
use crate::status::{ServerCommandKind, ServerCommandStatus};
use crate::path_text::{path_key, same_path};
use crate::text::{decimal_text, push_decimal};

verus! {

/// The commands whose timing is traced.
#[derive(Debug, Clone, Copy, PartialEq, Eq, Structural)]
pub enum PerformanceAction {
    ChangeCharacter,
    TimelineMouthFlap,
}

/// The name a traced action is logged under.
pub open spec fn action_text(a: PerformanceAction) -> Seq<char> {
    match a {
        PerformanceAction::ChangeCharacter => "change_character"@,
        PerformanceAction::TimelineMouthFlap => "timeline_mouth_flap"@,
    }
}

fn action_name(a: PerformanceAction) -> (s: &'static str)
    ensures
        s@ == action_text(a),
{
    match a {
        PerformanceAction::ChangeCharacter => "change_character",
        PerformanceAction::TimelineMouthFlap => "timeline_mouth_flap",
    }
}

/// Which commands are traced: character changes, and timelines that hold a
/// mouth flap.
pub open spec fn performance_action_of(kind: ServerCommandKind, steps: Seq<MotionTimelineStep>) -> Option<
    PerformanceAction,
> {
    match kind {
        ServerCommandKind::ChangeCharacter => Some(PerformanceAction::ChangeCharacter),
        ServerCommandKind::Timeline => if has_mouth_flap(steps) {
            Some(PerformanceAction::TimelineMouthFlap)
        } else {
            None
        },
        _ => None,
    }
}

/// The traced action of a command of the given kind; `timeline_steps` are
/// the steps of a timeline command (ignored for the other kinds).
pub fn performance_action(kind: ServerCommandKind, timeline_steps: &Vec<MotionTimelineStep>) -> (r:
    Option<PerformanceAction>)
    ensures
        r == performance_action_of(kind, timeline_steps@),
{
    match kind {
        ServerCommandKind::ChangeCharacter => Some(PerformanceAction::ChangeCharacter),
        ServerCommandKind::Timeline => {
            let request = crate::command::MotionTimelineRequest { steps: copy_steps(timeline_steps) };
            if crate::command::request_contains_mouth_flap(&request) {
                Some(PerformanceAction::TimelineMouthFlap)
            } else {
                None
            }
        },
        _ => None,
    }
}

fn copy_steps(steps: &Vec<MotionTimelineStep>) -> (r: Vec<MotionTimelineStep>)
    ensures
        r@ == steps@,
{
    let mut r: Vec<MotionTimelineStep> = Vec::new();
    let mut i: usize = 0;
    while i < steps.len()
        invariant
            i <= steps.len(),
            r@ == steps@.take(i as int),
        decreases steps.len() - i,
    {
        r.push(steps[i]);
        assert(steps@.take(i + 1) =~= steps@.take(i as int).push(steps@[i as int]));
        i = i + 1;
    }
    assert(steps@.take(steps.len() as int) =~= steps@);
    r
}

/// The time one stage of applying a command took.
#[derive(Debug, Clone)]
pub struct PerformanceStageDuration {
    pub name: String,
    pub elapsed_ms: u64,
}

/// A traced command that has been applied (or is being applied) and whose
/// effect has not been published yet.
#[derive(Debug, Clone)]
pub struct PendingPerformanceTrace {
    pub action: PerformanceAction,
    pub requested_at_unix_ms: u64,
    pub applying_at_unix_ms: u64,
    pub applied_at_unix_ms: Option<u64>,
    pub command_summary: String,
    pub previous_displayed_png_path: String,
    pub stage_durations: Vec<PerformanceStageDuration>,
}

/// `a - b`, or 0 when `b` is larger.
pub open spec fn sat_sub(a: u64, b: u64) -> nat {
    if a >= b {
        (a - b) as nat
    } else {
        0
    }
}

fn saturating_sub(a: u64, b: u64) -> (r: u64)
    ensures
        r == sat_sub(a, b),
{
    if a >= b {
        a - b
    } else {
        0
    }
}

/// One stage as it is logged: `name:<ms>ms`.
pub open spec fn stage_text(d: PerformanceStageDuration) -> Seq<char> {
    d.name@ + ":"@ + decimal_text(d.elapsed_ms as nat) + "ms"@
}

/// The stages joined by `,`.
pub open spec fn stage_list_text(ds: Seq<PerformanceStageDuration>) -> Seq<char>
    decreases ds.len(),
{
    if ds.len() == 0 {
        Seq::empty()
    } else if ds.len() == 1 {
        stage_text(ds[0])
    } else {
        stage_list_text(ds.drop_last()) + ","@ + stage_text(ds.last())
    }
}

/// The logged stage list: `none` when no stage was recorded.
pub open spec fn stage_summary_text(ds: Seq<PerformanceStageDuration>) -> Seq<char> {
    if ds.len() == 0 {
        "none"@
    } else {
        stage_list_text(ds)
    }
}

/// The text of a boolean.
pub open spec fn bool_text(b: bool) -> Seq<char> {
    if b {
        "true"@
    } else {
        "false"@
    }
}

fn push_bool(s: &mut String, b: bool)
    ensures
        final(s)@ == old(s)@ + bool_text(b),
{
    if b {
        s.append("true");
    } else {
        s.append("false");
    }
}

fn push_u64(s: &mut String, n: u64)
    ensures
        final(s)@ == old(s)@ + decimal_text(n as nat),
{
    push_decimal(s, n as u128);
}

/// The log line of a traced command whose effect was published at
/// `completed_at`.
pub open spec fn completed_text(
    t: PendingPerformanceTrace,
    completed_at: u64,
    displayed: Seq<char>,
    configured: Seq<char>,
    previous_displayed: Seq<char>,
) -> Seq<char> {
    let applied_at: u64 = match t.applied_at_unix_ms {
        Some(a) => a,
        None => completed_at,
    };
    "event=post_to_status_settled action="@ + action_text(t.action) + " result=completed elapsed_ms="@
        + decimal_text(sat_sub(completed_at, t.requested_at_unix_ms)) + " queue_ms="@ + decimal_text(
        sat_sub(t.applying_at_unix_ms, t.requested_at_unix_ms),
    ) + " apply_ms="@ + decimal_text(sat_sub(applied_at, t.applying_at_unix_ms)) + " settle_ms="@
        + decimal_text(sat_sub(completed_at, applied_at)) + " requested_at_unix_ms="@ + decimal_text(
        t.requested_at_unix_ms as nat,
    ) + " applying_at_unix_ms="@ + decimal_text(t.applying_at_unix_ms as nat)
        + " applied_at_unix_ms="@ + decimal_text(applied_at as nat) + " completed_at_unix_ms="@
        + decimal_text(completed_at as nat) + " status_settled=true texture_changed="@ + bool_text(
        path_key(t.previous_displayed_png_path@) != path_key(displayed),
    ) + " stage_ms="@ + stage_summary_text(t.stage_durations@) + " previous_displayed_png_path="@
        + previous_displayed + " displayed_png_path="@ + displayed + " configured_png_path="@
        + configured + " command_summary="@ + t.command_summary@
}

/// The log line of a traced command that failed at `failed_at`.
pub open spec fn failed_text(t: PendingPerformanceTrace, failed_at: u64, error: Seq<char>) -> Seq<
    char,
> {
    "event=post_to_status_settled action="@ + action_text(t.action) + " result=failed elapsed_ms="@
        + decimal_text(sat_sub(failed_at, t.requested_at_unix_ms)) + " queue_ms="@ + decimal_text(
        sat_sub(t.applying_at_unix_ms, t.requested_at_unix_ms),
    ) + " apply_ms="@ + decimal_text(sat_sub(failed_at, t.applying_at_unix_ms))
        + " settle_ms=0 requested_at_unix_ms="@ + decimal_text(t.requested_at_unix_ms as nat)
        + " applying_at_unix_ms="@ + decimal_text(t.applying_at_unix_ms as nat)
        + " failed_at_unix_ms="@ + decimal_text(failed_at as nat)
        + " status_settled=false stage_ms="@ + stage_summary_text(t.stage_durations@)
        + " command_summary="@ + t.command_summary@ + " error="@ + error
}

/// The log line of a traced command that failed before it was traced: it
/// counts as applied from the moment it was requested.
pub open spec fn failed_untraced_text(
    action: PerformanceAction,
    requested_at: u64,
    summary: Seq<char>,
    failed_at: u64,
    error: Seq<char>,
) -> Seq<char> {
    let elapsed = decimal_text(sat_sub(failed_at, requested_at));
    "event=post_to_status_settled action="@ + action_text(action) + " result=failed elapsed_ms="@
        + elapsed + " queue_ms=0 apply_ms="@ + elapsed + " settle_ms=0 requested_at_unix_ms="@
        + decimal_text(requested_at as nat) + " applying_at_unix_ms="@ + decimal_text(
        requested_at as nat,
    ) + " failed_at_unix_ms="@ + decimal_text(failed_at as nat)
        + " status_settled=false stage_ms=none command_summary="@ + summary + " error="@ + error
}

/// Whether a trace belongs to the command with this action and request
/// time.
pub open spec fn trace_matches(
    t: PendingPerformanceTrace,
    action: Option<PerformanceAction>,
    requested_at: u64,
) -> bool {
    t.requested_at_unix_ms == requested_at && action == Some(t.action)
}

impl PendingPerformanceTrace {
    /// The trace of a command that starts being applied at
    /// `applying_at_unix_ms`, or `None` for a command that is not traced.
    pub fn from_command(
        action: Option<PerformanceAction>,
        status: &ServerCommandStatus,
        previous_displayed_png_path: String,
        applying_at_unix_ms: u64,
    ) -> (r: Option<Self>)
        ensures
            match action {
                None => r is None,
                Some(a) => r matches Some(t) && t.action == a && t.requested_at_unix_ms
                    == status.requested_at_unix_ms && t.applying_at_unix_ms == applying_at_unix_ms
                    && t.applied_at_unix_ms is None && t.command_summary@ == status.summary@
                    && t.previous_displayed_png_path == previous_displayed_png_path
                    && t.stage_durations@.len() == 0,
            },
    {
        match action {
            None => None,
            Some(a) => Some(
                PendingPerformanceTrace {
                    action: a,
                    requested_at_unix_ms: status.requested_at_unix_ms,
                    applying_at_unix_ms,
                    applied_at_unix_ms: None,
                    command_summary: status.summary.clone(),
                    previous_displayed_png_path,
                    stage_durations: Vec::new(),
                },
            ),
        }
    }

    /// Whether this trace belongs to the command with this action and
    /// request time.
    pub fn matches_command(&self, action: Option<PerformanceAction>, requested_at_unix_ms: u64) -> (b:
        bool)
        ensures
            b == trace_matches(*self, action, requested_at_unix_ms),
    {
        self.requested_at_unix_ms == requested_at_unix_ms && match action {
            Some(a) => a == self.action,
            None => false,
        }
    }

    /// The recorded stages, as `stage_summary_text` says.
    pub fn stage_summary(&self) -> (s: String)
        ensures
            s@ == stage_summary_text(self.stage_durations@),
    {
        if self.stage_durations.len() == 0 {
            return String::from_str("none");
        }
        let ds = &self.stage_durations;
        let mut s = String::new();
        let mut i: usize = 0;
        while i < ds.len()
            invariant
                i <= ds.len(),
                ds@ == self.stage_durations@,
                s@ == stage_list_text(ds@.take(i as int)),
            decreases ds.len() - i,
        {
            assert(ds@.take(i + 1).drop_last() =~= ds@.take(i as int));
            if i > 0 {
                s.append(",");
            } else {
                assert(s@ =~= Seq::<char>::empty());
            }
            s.append(ds[i].name.as_str());
            s.append(":");
            push_u64(&mut s, ds[i].elapsed_ms);
            s.append("ms");
            i = i + 1;
            proof {
                let t = ds@.take(i as int);
                assert(t.last() == ds@[i - 1]);
                if i == 1 {
                    assert(t.len() == 1 && t[0] == ds@[0]);
                }
            }
            assert(s@ =~= stage_list_text(ds@.take(i as int)));
        }
        assert(ds@.take(ds.len() as int) =~= ds@);
        s
    }

    /// The log line of this trace when its effect was published at
    /// `completed_at_unix_ms`, as `completed_text` says.
    pub fn completed_message(
        &self,
        completed_at_unix_ms: u64,
        displayed_png_path: &str,
        configured_png_path: &str,
        previous_displayed_png_path: &str,
    ) -> (s: String)
        ensures
            s@ == completed_text(
                *self,
                completed_at_unix_ms,
                displayed_png_path@,
                configured_png_path@,
                previous_displayed_png_path@,
            ),
    {
        let applied_at = match self.applied_at_unix_ms {
            Some(a) => a,
            None => completed_at_unix_ms,
        };
        let texture_changed = !same_path(
            self.previous_displayed_png_path.as_str(),
            displayed_png_path,
        );
        let mut s = String::from_str("event=post_to_status_settled action=");
        s.append(action_name(self.action));
        s.append(" result=completed elapsed_ms=");
        push_u64(&mut s, saturating_sub(completed_at_unix_ms, self.requested_at_unix_ms));
        s.append(" queue_ms=");
        push_u64(&mut s, saturating_sub(self.applying_at_unix_ms, self.requested_at_unix_ms));
        s.append(" apply_ms=");
        push_u64(&mut s, saturating_sub(applied_at, self.applying_at_unix_ms));
        s.append(" settle_ms=");
        push_u64(&mut s, saturating_sub(completed_at_unix_ms, applied_at));
        s.append(" requested_at_unix_ms=");
        push_u64(&mut s, self.requested_at_unix_ms);
        s.append(" applying_at_unix_ms=");
        push_u64(&mut s, self.applying_at_unix_ms);
        s.append(" applied_at_unix_ms=");
        push_u64(&mut s, applied_at);
        s.append(" completed_at_unix_ms=");
        push_u64(&mut s, completed_at_unix_ms);
        s.append(" status_settled=true texture_changed=");
        push_bool(&mut s, texture_changed);
        s.append(" stage_ms=");
        let stages = self.stage_summary();
        s.append(stages.as_str());
        s.append(" previous_displayed_png_path=");
        s.append(previous_displayed_png_path);
        s.append(" displayed_png_path=");
        s.append(displayed_png_path);
        s.append(" configured_png_path=");
        s.append(configured_png_path);
        s.append(" command_summary=");
        s.append(self.command_summary.as_str());
        s
    }

    /// The log line of this trace when its command failed at
    /// `failed_at_unix_ms`, as `failed_text` says.
    pub fn failed_message(&self, failed_at_unix_ms: u64, error: &str) -> (s: String)
        ensures
            s@ == failed_text(*self, failed_at_unix_ms, error@),
    {
        let mut s = String::from_str("event=post_to_status_settled action=");
        s.append(action_name(self.action));
        s.append(" result=failed elapsed_ms=");
        push_u64(&mut s, saturating_sub(failed_at_unix_ms, self.requested_at_unix_ms));
        s.append(" queue_ms=");
        push_u64(&mut s, saturating_sub(self.applying_at_unix_ms, self.requested_at_unix_ms));
        s.append(" apply_ms=");
        push_u64(&mut s, saturating_sub(failed_at_unix_ms, self.applying_at_unix_ms));
        s.append(" settle_ms=0 requested_at_unix_ms=");
        push_u64(&mut s, self.requested_at_unix_ms);
        s.append(" applying_at_unix_ms=");
        push_u64(&mut s, self.applying_at_unix_ms);
        s.append(" failed_at_unix_ms=");
        push_u64(&mut s, failed_at_unix_ms);
        s.append(" status_settled=false stage_ms=");
        let stages = self.stage_summary();
        s.append(stages.as_str());
        s.append(" command_summary=");
        s.append(self.command_summary.as_str());
        s.append(" error=");
        s.append(error);
        s
    }

    /// The log line of a traced command that failed without a pending
    /// trace, or `None` for a command that is not traced.
    pub fn failed_message_from_command(
        action: Option<PerformanceAction>,
        status: &ServerCommandStatus,
        failed_at_unix_ms: u64,
        error: &str,
    ) -> (r: Option<String>)
        ensures
            match action {
                None => r is None,
                Some(a) => r matches Some(s) && s@ == failed_untraced_text(
                    a,
                    status.requested_at_unix_ms,
                    status.summary@,
                    failed_at_unix_ms,
                    error@,
                ),
            },
    {
        let a = match action {
            None => return None,
            Some(a) => a,
        };
        let requested_at = status.requested_at_unix_ms;
        let elapsed = saturating_sub(failed_at_unix_ms, requested_at);
        let mut s = String::from_str("event=post_to_status_settled action=");
        s.append(action_name(a));
        s.append(" result=failed elapsed_ms=");
        push_u64(&mut s, elapsed);
        s.append(" queue_ms=0 apply_ms=");
        push_u64(&mut s, elapsed);
        s.append(" settle_ms=0 requested_at_unix_ms=");
        push_u64(&mut s, requested_at);
        s.append(" applying_at_unix_ms=");
        push_u64(&mut s, requested_at);
        s.append(" failed_at_unix_ms=");
        push_u64(&mut s, failed_at_unix_ms);
        s.append(" status_settled=false stage_ms=none command_summary=");
        s.append(status.summary.as_str());
        s.append(" error=");
        s.append(error);
        Some(s)
    }
}

/// The index of the newest trace whose command is still being applied.
pub open spec fn last_unapplied(ts: Seq<PendingPerformanceTrace>) -> Option<int>
    decreases ts.len(),
{
    if ts.len() == 0 {
        None
    } else if ts.last().applied_at_unix_ms is None {
        Some(ts.len() - 1)
    } else {
        last_unapplied(ts.drop_last())
    }
}

/// The index of the newest trace of the given command that is still being
/// applied.
pub open spec fn last_active(
    ts: Seq<PendingPerformanceTrace>,
    action: Option<PerformanceAction>,
    requested_at: u64,
) -> Option<int>
    decreases ts.len(),
{
    if ts.len() == 0 {
        None
    } else if trace_matches(ts.last(), action, requested_at) && ts.last().applied_at_unix_ms is None {
        Some(ts.len() - 1)
    } else {
        last_active(ts.drop_last(), action, requested_at)
    }
}

/// `b` is the trace `a` with one more stage, `d`.
pub open spec fn with_stage_added(
    a: PendingPerformanceTrace,
    b: PendingPerformanceTrace,
    d: PerformanceStageDuration,
) -> bool {
    &&& b.action == a.action
    &&& b.requested_at_unix_ms == a.requested_at_unix_ms
    &&& b.applying_at_unix_ms == a.applying_at_unix_ms
    &&& b.applied_at_unix_ms == a.applied_at_unix_ms
    &&& b.command_summary == a.command_summary
    &&& b.previous_displayed_png_path == a.previous_displayed_png_path
    &&& b.stage_durations@ == a.stage_durations@.push(d)
}

/// `b` is the trace `a` marked as applied at `at`.
pub open spec fn with_applied_at(a: PendingPerformanceTrace, b: PendingPerformanceTrace, at: u64) -> bool {
    &&& b.action == a.action
    &&& b.requested_at_unix_ms == a.requested_at_unix_ms
    &&& b.applying_at_unix_ms == a.applying_at_unix_ms
    &&& b.applied_at_unix_ms == Some(at)
    &&& b.command_summary == a.command_summary
    &&& b.previous_displayed_png_path == a.previous_displayed_png_path
    &&& b.stage_durations@ == a.stage_durations@
}

/// `b` is `a` with the element at `i` changed as `changed` says and every
/// other element kept.
pub open spec fn same_except(
    a: Seq<PendingPerformanceTrace>,
    b: Seq<PendingPerformanceTrace>,
    i: int,
) -> bool {
    &&& b.len() == a.len()
    &&& 0 <= i < a.len()
    &&& forall|j: int| 0 <= j < a.len() && j != i ==> #[trigger] b[j] == a[j]
}

fn find_last_unapplied(traces: &Vec<PendingPerformanceTrace>) -> (r: Option<usize>)
    ensures
        match r {
            Some(k) => last_unapplied(traces@) == Some(k as int),
            None => last_unapplied(traces@) is None,
        },
{
    let mut k: usize = traces.len();
    assert(traces@.take(k as int) =~= traces@);
    while k > 0
        invariant
            k <= traces.len(),
            last_unapplied(traces@) == last_unapplied(traces@.take(k as int)),
        decreases k,
    {
        let ghost pre = traces@.take(k as int);
        assert(pre.drop_last() =~= traces@.take(k - 1));
        assert(pre.last() == traces@[k - 1]);
        if traces[k - 1].applied_at_unix_ms.is_none() {
            return Some(k - 1);
        }
        k = k - 1;
    }
    assert(traces@.take(0) =~= Seq::<PendingPerformanceTrace>::empty());
    None
}

fn find_last_active(
    traces: &Vec<PendingPerformanceTrace>,
    action: Option<PerformanceAction>,
    requested_at_unix_ms: u64,
) -> (r: Option<usize>)
    ensures
        match r {
            Some(k) => last_active(traces@, action, requested_at_unix_ms) == Some(k as int),
            None => last_active(traces@, action, requested_at_unix_ms) is None,
        },
{
    let mut k: usize = traces.len();
    assert(traces@.take(k as int) =~= traces@);
    while k > 0
        invariant
            k <= traces.len(),
            last_active(traces@, action, requested_at_unix_ms) == last_active(
                traces@.take(k as int),
                action,
                requested_at_unix_ms,
            ),
        decreases k,
    {
        let ghost pre = traces@.take(k as int);
        assert(pre.drop_last() =~= traces@.take(k - 1));
        assert(pre.last() == traces@[k - 1]);
        if traces[k - 1].matches_command(action, requested_at_unix_ms)
            && traces[k - 1].applied_at_unix_ms.is_none() {
            return Some(k - 1);
        }
        k = k - 1;
    }
    assert(traces@.take(0) =~= Seq::<PendingPerformanceTrace>::empty());
    None
}

/// Records a stage on the newest trace still being applied; with no such
/// trace nothing changes.
pub fn record_performance_stage(
    traces: &mut Vec<PendingPerformanceTrace>,
    name: String,
    elapsed_ms: u64,
)
    ensures
        match last_unapplied(old(traces)@) {
            None => final(traces)@ == old(traces)@,
            Some(i) => same_except(old(traces)@, final(traces)@, i) && with_stage_added(
                old(traces)@[i],
                final(traces)@[i],
                PerformanceStageDuration { name, elapsed_ms },
            ),
        },
{
    match find_last_unapplied(traces) {
        None => {},
        Some(i) => {
            proof {
                lemma_last_unapplied_in_range(traces@);
            }
            let ghost old_ts = traces@;
            let mut t = traces.remove(i);
            t.stage_durations.push(PerformanceStageDuration { name, elapsed_ms });
            traces.insert(i, t);
            assert(traces@ =~= old_ts.update(i as int, traces@[i as int]));
        },
    }
}

/// Marks the newest trace of the given command that is still being applied
/// as applied at `applied_at_unix_ms`; with no such trace nothing changes.
pub fn mark_trace_applied(
    traces: &mut Vec<PendingPerformanceTrace>,
    action: Option<PerformanceAction>,
    requested_at_unix_ms: u64,
    applied_at_unix_ms: u64,
)
    ensures
        match last_active(old(traces)@, action, requested_at_unix_ms) {
            None => final(traces)@ == old(traces)@,
            Some(i) => same_except(old(traces)@, final(traces)@, i) && with_applied_at(
                old(traces)@[i],
                final(traces)@[i],
                applied_at_unix_ms,
            ),
        },
{
    match find_last_active(traces, action, requested_at_unix_ms) {
        None => {},
        Some(i) => {
            proof {
                lemma_last_active_in_range(traces@, action, requested_at_unix_ms);
            }
            let ghost old_ts = traces@;
            let mut t = traces.remove(i);
            t.applied_at_unix_ms = Some(applied_at_unix_ms);
            traces.insert(i, t);
            assert(traces@ =~= old_ts.update(i as int, traces@[i as int]));
        },
    }
}

/// Takes out the newest trace of the given command that is still being
/// applied, if there is one.
pub fn remove_active_trace(
    traces: &mut Vec<PendingPerformanceTrace>,
    action: Option<PerformanceAction>,
    requested_at_unix_ms: u64,
) -> (r: Option<PendingPerformanceTrace>)
    ensures
        match last_active(old(traces)@, action, requested_at_unix_ms) {
            None => r is None && final(traces)@ == old(traces)@,
            Some(i) => r == Some(old(traces)@[i]) && final(traces)@ == old(traces)@.remove(i),
        },
{
    match find_last_active(traces, action, requested_at_unix_ms) {
        None => None,
        Some(i) => {
            proof {
                lemma_last_active_in_range(traces@, action, requested_at_unix_ms);
            }
            Some(traces.remove(i))
        },
    }
}

proof fn lemma_last_unapplied_in_range(ts: Seq<PendingPerformanceTrace>)
    ensures
        match last_unapplied(ts) {
            Some(i) => 0 <= i < ts.len() && ts[i].applied_at_unix_ms is None,
            None => true,
        },
    decreases ts.len(),
{
    if ts.len() > 0 && !(ts.last().applied_at_unix_ms is None) {
        lemma_last_unapplied_in_range(ts.drop_last());
    }
}

/// The trace `last_active` picks lies in the list, belongs to the command
/// and is still being applied, and no later trace does both.
pub proof fn lemma_last_active_in_range(
    ts: Seq<PendingPerformanceTrace>,
    action: Option<PerformanceAction>,
    requested_at: u64,
)
    ensures
        match last_active(ts, action, requested_at) {
            Some(i) => 0 <= i < ts.len() && trace_matches(ts[i], action, requested_at)
                && ts[i].applied_at_unix_ms is None && forall|j: int|
                i < j < ts.len() ==> !(trace_matches(#[trigger] ts[j], action, requested_at)
                    && ts[j].applied_at_unix_ms is None),
            None => forall|j: int|
                0 <= j < ts.len() ==> !(trace_matches(#[trigger] ts[j], action, requested_at)
                    && ts[j].applied_at_unix_ms is None),
        },
    decreases ts.len(),
{
    if ts.len() > 0 {
        lemma_last_active_in_range(ts.drop_last(), action, requested_at);
        if !(trace_matches(ts.last(), action, requested_at) && ts.last().applied_at_unix_ms is None) {
            assert forall|j: int| 0 <= j < ts.len() - 1 implies #[trigger] ts[j] == ts.drop_last()[j] by {}
        }
    }
}

/// Once the trace of a command is marked applied, no trace of that command
/// is left being applied unless an older one was: marking never picks the
/// same trace twice.
pub proof fn lemma_applied_trace_is_not_active_again(
    ts: Seq<PendingPerformanceTrace>,
    ts2: Seq<PendingPerformanceTrace>,
    action: Option<PerformanceAction>,
    requested_at: u64,
    at: u64,
)
    requires
        last_active(ts, action, requested_at) is Some,
        same_except(ts, ts2, last_active(ts, action, requested_at)->0),
        with_applied_at(
            ts[last_active(ts, action, requested_at)->0],
            ts2[last_active(ts, action, requested_at)->0],
            at,
        ),
    ensures
        match last_active(ts2, action, requested_at) {
            Some(k) => k < last_active(ts, action, requested_at)->0,
            None => true,
        },
{
    let i = last_active(ts, action, requested_at)->0;
    lemma_last_active_in_range(ts, action, requested_at);
    lemma_last_active_in_range(ts2, action, requested_at);
    match last_active(ts2, action, requested_at) {
        Some(k) => {
            if k >= i {
                if k == i {
                } else {
                    assert(ts2[k] == ts[k]);
                }
            }
        },
        None => {},
    }
}

} // verus!
