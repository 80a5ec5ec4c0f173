//! Which skin a mascot shows from moment to moment (mouth flap, blink or
//! open), and how an ensemble of mascots combines its members' states.
use vstd::prelude::*;

use crate::text::str_equal;

verus! {

/// The state a mascot's skin is in.
#[derive(Debug, Clone, Copy, PartialEq, Eq, Structural)]
pub enum ActiveSkinState {
    MouthOpen,
    MouthClosed,
    BlinkClosed,
    Open,
}

/// The mouth-flap state that counts: the motion's answer when the mascot
/// has mouth-flap skins, else none.
pub open spec fn flap_state(has_mouth_flap_skin: bool, mouth_flap_open: Option<bool>) -> Option<bool> {
    if has_mouth_flap_skin {
        mouth_flap_open
    } else {
        None
    }
}

/// The mouth-flap state that counts, as `flap_state` says. `mouth_flap_open`
/// is what the motion reports (whether a mouth flap plays, and whether the
/// mouth is open in it).
pub fn mouth_flap_skin_state(has_mouth_flap_skin: bool, mouth_flap_open: Option<bool>) -> (r:
    Option<bool>)
    ensures
        r == flap_state(has_mouth_flap_skin, mouth_flap_open),
{
    if has_mouth_flap_skin {
        mouth_flap_open
    } else {
        None
    }
}

/// The skin state: a playing mouth flap wins over a blink, which wins over
/// the open skin.
pub open spec fn skin_state(
    has_mouth_flap_skin: bool,
    mouth_flap_open: Option<bool>,
    blink_closed: bool,
) -> ActiveSkinState {
    match flap_state(has_mouth_flap_skin, mouth_flap_open) {
        Some(true) => ActiveSkinState::MouthOpen,
        Some(false) => ActiveSkinState::MouthClosed,
        None => if blink_closed {
            ActiveSkinState::BlinkClosed
        } else {
            ActiveSkinState::Open
        },
    }
}

/// The skin state, as `skin_state` says.
pub fn active_skin_state(
    has_mouth_flap_skin: bool,
    mouth_flap_open: Option<bool>,
    blink_closed: bool,
) -> (r: ActiveSkinState)
    ensures
        r == skin_state(has_mouth_flap_skin, mouth_flap_open, blink_closed),
{
    match mouth_flap_skin_state(has_mouth_flap_skin, mouth_flap_open) {
        Some(true) => ActiveSkinState::MouthOpen,
        Some(false) => ActiveSkinState::MouthClosed,
        None => if blink_closed {
            ActiveSkinState::BlinkClosed
        } else {
            ActiveSkinState::Open
        },
    }
}

/// The skins a mascot has besides its open one.
#[derive(Debug, Clone, Copy, PartialEq, Eq, Structural)]
pub struct SkinSet {
    pub has_closed: bool,
    pub has_mouth_open: bool,
    pub has_mouth_closed: bool,
}

/// The skin a mascot draws for a state: the skin of that state when it has
/// one, else its open skin.
pub open spec fn drawn_skin_of(state: ActiveSkinState, skins: SkinSet) -> ActiveSkinState {
    match state {
        ActiveSkinState::MouthOpen => if skins.has_mouth_open {
            ActiveSkinState::MouthOpen
        } else {
            ActiveSkinState::Open
        },
        ActiveSkinState::MouthClosed => if skins.has_mouth_closed {
            ActiveSkinState::MouthClosed
        } else {
            ActiveSkinState::Open
        },
        ActiveSkinState::BlinkClosed => if skins.has_closed {
            ActiveSkinState::BlinkClosed
        } else {
            ActiveSkinState::Open
        },
        ActiveSkinState::Open => ActiveSkinState::Open,
    }
}

/// The skin an ensemble member draws: its state (it has mouth-flap skins
/// when it has either of them), then the skin of that state, as
/// `drawn_skin_of` says.
pub fn member_drawn_skin(skins: SkinSet, mouth_flap_open: Option<bool>, blink_closed: bool) -> (r:
    ActiveSkinState)
    ensures
        r == drawn_skin_of(
            skin_state(skins.has_mouth_open || skins.has_mouth_closed, mouth_flap_open, blink_closed),
            skins,
        ),
{
    let state = active_skin_state(
        skins.has_mouth_open || skins.has_mouth_closed,
        mouth_flap_open,
        blink_closed,
    );
    match state {
        ActiveSkinState::MouthOpen => if skins.has_mouth_open {
            ActiveSkinState::MouthOpen
        } else {
            ActiveSkinState::Open
        },
        ActiveSkinState::MouthClosed => if skins.has_mouth_closed {
            ActiveSkinState::MouthClosed
        } else {
            ActiveSkinState::Open
        },
        ActiveSkinState::BlinkClosed => if skins.has_closed {
            ActiveSkinState::BlinkClosed
        } else {
            ActiveSkinState::Open
        },
        ActiveSkinState::Open => ActiveSkinState::Open,
    }
}

/// A member with all its skins shows the open mouth while a mouth flap
/// holds it open, even during a blink; once the flap is over the blink
/// shows.
pub proof fn lemma_mouth_flap_wins_over_blink(skins: SkinSet, open: bool)
    requires
        skins.has_closed && skins.has_mouth_open && skins.has_mouth_closed,
    ensures
        drawn_skin_of(skin_state(true, Some(open), true), skins) == (if open {
            ActiveSkinState::MouthOpen
        } else {
            ActiveSkinState::MouthClosed
        }),
        drawn_skin_of(skin_state(true, None, true), skins) == ActiveSkinState::BlinkClosed,
{
}

/// The mouth-flap state of an ensemble: open when some member's mouth is
/// open, closed when some member flaps with a closed mouth and none is
/// open, none when no member flaps.
pub open spec fn ensemble_flap(states: Seq<Option<bool>>) -> Option<bool> {
    if exists|i: int| 0 <= i < states.len() && states[i] == Some(true) {
        Some(true)
    } else if exists|i: int| 0 <= i < states.len() && states[i] == Some(false) {
        Some(false)
    } else {
        None
    }
}

/// The mouth-flap state of an ensemble from its members' states, as
/// `ensemble_flap` says.
pub fn ensemble_mouth_flap_is_open(member_states: &Vec<Option<bool>>) -> (r: Option<bool>)
    ensures
        r == ensemble_flap(member_states@),
{
    let mut any_closed = false;
    let mut i: usize = 0;
    while i < member_states.len()
        invariant
            i <= member_states.len(),
            forall|j: int| 0 <= j < i ==> member_states@[j] != Some(true),
            any_closed == exists|j: int| 0 <= j < i && member_states@[j] == Some(false),
        decreases member_states.len() - i,
    {
        match member_states[i] {
            Some(true) => {
                return Some(true);
            },
            Some(false) => {
                any_closed = true;
            },
            None => {},
        }
        i = i + 1;
    }
    if any_closed {
        Some(false)
    } else {
        None
    }
}

/// Whether the member at `i` is named `name`.
pub open spec fn named(names: Seq<Option<String>>, i: int, name: Seq<char>) -> bool {
    names[i] matches Some(n) && n@ == name
}

/// The index of the first member named `name` (the one a targeted motion
/// goes to), if any.
pub fn find_member_by_name(names: &Vec<Option<String>>, name: &str) -> (r: Option<usize>)
    ensures
        match r {
            Some(i) => i < names.len() && named(names@, i as int, name@) && forall|j: int|
                0 <= j < i ==> !named(names@, j, name@),
            None => forall|j: int| 0 <= j < names.len() ==> !named(names@, j, name@),
        },
{
    let mut i: usize = 0;
    while i < names.len()
        invariant
            i <= names.len(),
            forall|j: int| 0 <= j < i ==> !named(names@, j, name@),
        decreases names.len() - i,
    {
        let hit = match &names[i] {
            Some(n) => str_equal(n.as_str(), name),
            None => false,
        };
        if hit {
            return Some(i);
        }
        i = i + 1;
    }
    None
}

/// The smaller of two optional delays; a missing one does not count.
pub open spec fn min_delay(a: Option<u128>, b: Option<u128>) -> Option<u128> {
    match (a, b) {
        (Some(x), Some(y)) => Some(if x <= y { x } else { y }),
        (Some(x), None) => Some(x),
        (None, Some(y)) => Some(y),
        (None, None) => None,
    }
}

/// The earliest repaint any member asks for: each member asks for its
/// motion's delay and, when it can blink, its blink's.
pub open spec fn earliest_repaint(members: Seq<(Option<u128>, Option<u128>)>) -> Option<u128>
    decreases members.len(),
{
    if members.len() == 0 {
        None
    } else {
        min_delay(
            earliest_repaint(members.drop_last()),
            min_delay(members.last().0, members.last().1),
        )
    }
}

/// Whether `d` is one of the delays the members ask for.
pub open spec fn asked_delay(members: Seq<(Option<u128>, Option<u128>)>, d: u128) -> bool {
    exists|i: int|
        0 <= i < members.len() && (members[i].0 == Some(d) || members[i].1 == Some(d))
}

/// The earliest repaint is one of the delays asked for and no later than
/// any of them; there is none exactly when no member asks.
pub proof fn lemma_earliest_repaint_is_minimum(members: Seq<(Option<u128>, Option<u128>)>)
    ensures
        match earliest_repaint(members) {
            Some(d) => asked_delay(members, d) && forall|i: int|
                0 <= i < members.len() ==> (#[trigger] members[i].0 matches Some(x) ==> d <= x)
                    && (members[i].1 matches Some(y) ==> d <= y),
            None => forall|i: int|
                0 <= i < members.len() ==> #[trigger] members[i].0 is None && members[i].1 is None,
        },
    decreases members.len(),
{
    if members.len() > 0 {
        let init = members.drop_last();
        lemma_earliest_repaint_is_minimum(init);
        let last = members.len() - 1;
        let m = members[last];
        assert(forall|i: int| 0 <= i < init.len() ==> #[trigger] init[i] == members[i]);
        let e = earliest_repaint(init);
        let md = min_delay(m.0, m.1);
        assert(earliest_repaint(members) == min_delay(e, md));
        match earliest_repaint(members) {
            Some(d) => {
                assert(m.0 matches Some(x) ==> d <= x);
                assert(m.1 matches Some(y) ==> d <= y);
                match e {
                    Some(ev) => {
                        assert(d <= ev);
                        if d == ev {
                            let w = choose|i: int|
                                0 <= i < init.len() && (init[i].0 == Some(ev) || init[i].1 == Some(
                                    ev,
                                ));
                            assert(members[w] == init[w]);
                            assert(asked_delay(members, d));
                        } else {
                            assert(m.0 == Some(d) || m.1 == Some(d));
                            assert(asked_delay(members, d));
                        }
                        assert forall|i: int| 0 <= i < members.len() implies (
                        #[trigger] members[i].0 matches Some(x) ==> d <= x) && (members[i].1 matches Some(
                            y,
                        ) ==> d <= y) by {
                            if i < last {
                                assert(members[i] == init[i]);
                            }
                        }
                    },
                    None => {
                        assert(m.0 == Some(d) || m.1 == Some(d));
                        assert(asked_delay(members, d));
                        assert forall|i: int| 0 <= i < members.len() implies (
                        #[trigger] members[i].0 matches Some(x) ==> d <= x) && (members[i].1 matches Some(
                            y,
                        ) ==> d <= y) by {
                            if i < last {
                                assert(members[i] == init[i]);
                            }
                        }
                    },
                }
            },
            None => {
                assert forall|i: int| 0 <= i < members.len() implies #[trigger] members[i].0 is None
                    && members[i].1 is None by {
                    if i < last {
                        assert(members[i] == init[i]);
                    }
                }
            },
        }
    }
}

/// The earliest repaint the members ask for, as `earliest_repaint` says.
pub fn ensemble_repaint_after(members: &Vec<(Option<u128>, Option<u128>)>) -> (r: Option<u128>)
    ensures
        r == earliest_repaint(members@),
{
    let mut acc: Option<u128> = None;
    let mut i: usize = 0;
    assert(members@.take(0) =~= Seq::<(Option<u128>, Option<u128>)>::empty());
    while i < members.len()
        invariant
            i <= members.len(),
            acc == earliest_repaint(members@.take(i as int)),
        decreases members.len() - i,
    {
        assert(members@.take(i + 1).drop_last() =~= members@.take(i as int));
        let (motion, blink) = members[i];
        let member = match (motion, blink) {
            (Some(x), Some(y)) => Some(if x <= y { x } else { y }),
            (Some(x), None) => Some(x),
            (None, Some(y)) => Some(y),
            (None, None) => None,
        };
        acc = match (acc, member) {
            (Some(x), Some(y)) => Some(if x <= y { x } else { y }),
            (Some(x), None) => Some(x),
            (None, Some(y)) => Some(y),
            (None, None) => None,
        };
        i = i + 1;
    }
    assert(members@.take(members.len() as int) =~= members@);
    acc
}

/// The delay before the next frame: the motion's delay, or the blink's when
/// no motion asks, shortened by the transparent-input flash, the pending
/// scale save and the bend animation when they ask for less.
pub open spec fn frame_delay(
    motion: Option<u64>,
    blink: u64,
    transparent_flash: Option<u64>,
    pending_scale: Option<u64>,
    bend: Option<u64>,
) -> u64 {
    let base = match motion {
        Some(m) => m,
        None => blink,
    };
    let a = match transparent_flash {
        Some(t) => if t < base {
            t
        } else {
            base
        },
        None => base,
    };
    let b = match pending_scale {
        Some(p) => if p < a {
            p
        } else {
            a
        },
        None => a,
    };
    match bend {
        Some(x) => if x < b {
            x
        } else {
            b
        },
        None => b,
    }
}

fn shorter(current: u64, other: Option<u64>) -> (r: u64)
    ensures
        r == match other {
            Some(o) => if o < current {
                o
            } else {
                current
            },
            None => current,
        },
{
    match other {
        Some(o) => if o < current {
            o
        } else {
            current
        },
        None => current,
    }
}

/// The delay (nanoseconds) before the next frame, as `frame_delay` says.
pub fn frame_repaint_after(
    motion: Option<u64>,
    blink: u64,
    transparent_flash: Option<u64>,
    pending_scale: Option<u64>,
    bend: Option<u64>,
) -> (r: u64)
    ensures
        r == frame_delay(motion, blink, transparent_flash, pending_scale, bend),
        r <= (match motion {
            Some(m) => m,
            None => blink,
        }),
{
    let base = match motion {
        Some(m) => m,
        None => blink,
    };
    let a = shorter(base, transparent_flash);
    let b = shorter(a, pending_scale);
    shorter(b, bend)
}

/// How long (nanoseconds) the eyes stay closed in a blink.
pub const BLINK_CLOSED_NS: u64 = 200_000_000;

/// Where a blink loop is: eyes open or closed until a deadline
/// (nanoseconds on a monotonic clock).
#[derive(Debug, Clone, Copy, PartialEq, Eq, Structural)]
pub enum BlinkPhase {
    Open { until_ns: u64 },
    Closed { until_ns: u64 },
}

/// The deadline of a phase.
pub open spec fn phase_deadline(p: BlinkPhase) -> u64 {
    match p {
        BlinkPhase::Open { until_ns } => until_ns,
        BlinkPhase::Closed { until_ns } => until_ns,
    }
}

/// What a blink loop does at `now`.
#[derive(Debug, Clone, Copy, PartialEq, Eq, Structural)]
pub enum BlinkStep {
    /// The phase goes on.
    Unchanged,
    /// The eyes close until the given time.
    Close { until_ns: u64 },
    /// The eyes open; the caller draws the next open interval.
    Open,
}

/// The step of a blink loop at `now`: nothing before the deadline, else
/// open eyes close for the closed time and closed eyes open.
pub open spec fn blink_step_at(p: BlinkPhase, now: u64) -> BlinkStep {
    if now < phase_deadline(p) {
        BlinkStep::Unchanged
    } else {
        match p {
            BlinkPhase::Open { .. } => BlinkStep::Close { until_ns: (now + BLINK_CLOSED_NS) as u64 },
            BlinkPhase::Closed { .. } => BlinkStep::Open,
        }
    }
}

/// The step of a blink loop at `now`, as `blink_step_at` says.
pub fn blink_step(phase: BlinkPhase, now_ns: u64) -> (s: BlinkStep)
    requires
        now_ns + BLINK_CLOSED_NS <= u64::MAX,
    ensures
        s == blink_step_at(phase, now_ns),
{
    let deadline = match phase {
        BlinkPhase::Open { until_ns } => until_ns,
        BlinkPhase::Closed { until_ns } => until_ns,
    };
    if now_ns < deadline {
        return BlinkStep::Unchanged;
    }
    match phase {
        BlinkPhase::Open { .. } => BlinkStep::Close { until_ns: now_ns + BLINK_CLOSED_NS },
        BlinkPhase::Closed { .. } => BlinkStep::Open,
    }
}

/// The time left (nanoseconds) until the phase ends, capped at `fallback`.
pub fn blink_repaint_after(phase: BlinkPhase, now_ns: u64, fallback_ns: u64) -> (r: u64)
    ensures
        r == (if phase_deadline(phase) > now_ns {
            let left = (phase_deadline(phase) - now_ns) as u64;
            if left < fallback_ns {
                left
            } else {
                fallback_ns
            }
        } else {
            0
        }),
{
    let deadline = match phase {
        BlinkPhase::Open { until_ns } => until_ns,
        BlinkPhase::Closed { until_ns } => until_ns,
    };
    let left = if deadline > now_ns {
        deadline - now_ns
    } else {
        0
    };
    if left < fallback_ns {
        left
    } else {
        fallback_ns
    }
}

/// A blink that closes the eyes ends in the future, so one step brings the
/// loop past `now`; a loop that has not reached its deadline stays as it is.
pub proof fn lemma_blink_step_moves_past_now(p: BlinkPhase, now: u64)
    requires
        now + BLINK_CLOSED_NS <= u64::MAX,
    ensures
        blink_step_at(p, now) matches BlinkStep::Close { until_ns } ==> until_ns > now,
        now < phase_deadline(p) ==> blink_step_at(p, now) == BlinkStep::Unchanged,
{
}

} // verus!
