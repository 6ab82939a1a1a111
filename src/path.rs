//! The control of a traced light path. A path starts with a depth budget;
//! each scene query spends one unit. A ray that misses every surface takes
//! the sky's light, a ray absorbed by a material ends black, and a
//! scattered ray is traced again with one unit less. A path whose budget
//! runs out ends black. The light that reaches the eye is the end's
//! radiance times the attenuations met on the way.

use vstd::prelude::*;

verus! {

/// What the scene and the hit material did with one ray.
#[derive(Clone, Copy, Debug, PartialEq, Eq, Structural)]
pub enum Interaction {
    /// The ray hit nothing.
    Miss,
    /// The ray hit a surface whose material absorbed it.
    Absorbed,
    /// The ray hit a surface and the material sent out a new ray.
    Scattered,
}

/// The light at the end of a path.
#[derive(Clone, Copy, Debug, PartialEq, Eq, Structural)]
pub enum Radiance {
    /// The sky gradient seen along the last ray.
    Sky,
    /// No light.
    Black,
}

/// What to do next with a path.
#[derive(Clone, Copy, Debug, PartialEq, Eq, Structural)]
pub enum Step {
    /// Query the scene with the current ray; the budget left is given.
    Trace(u32),
    /// The path is over and ends in the given light.
    Done(Radiance),
}

/// The end of a path with budget `depth` whose rays met `events` in turn,
/// or `None` while the events seen so far leave it open.
pub open spec fn path_end(depth: nat, events: Seq<Interaction>) -> Option<Radiance>
    decreases events.len(),
{
    if depth == 0 {
        Some(Radiance::Black)
    } else if events.len() == 0 {
        None
    } else {
        match events[0] {
            Interaction::Miss => Some(Radiance::Sky),
            Interaction::Absorbed => Some(Radiance::Black),
            Interaction::Scattered => path_end((depth - 1) as nat, events.drop_first()),
        }
    }
}

/// The first step of a path with budget `max_depth`: a zero budget ends it
/// black before any query.
pub fn begin(max_depth: u32) -> (r: Step)
    ensures
        max_depth == 0 ==> r == Step::Done(Radiance::Black),
        max_depth > 0 ==> r == Step::Trace(max_depth),
        forall|events: Seq<Interaction>|
            #![trigger path_end(max_depth as nat, events)]
            match r {
                Step::Done(e) => path_end(max_depth as nat, events) == Some(e),
                Step::Trace(d) => path_end(max_depth as nat, events) == path_end(d as nat, events),
            },
{
    if max_depth == 0 {
        Step::Done(Radiance::Black)
    } else {
        Step::Trace(max_depth)
    }
}

/// The step after a query made with budget `remaining` gave `event`.
pub fn advance(remaining: u32, event: Interaction) -> (r: Step)
    requires
        remaining > 0,
    ensures
        event == Interaction::Miss ==> r == Step::Done(Radiance::Sky),
        event == Interaction::Absorbed ==> r == Step::Done(Radiance::Black),
        event == Interaction::Scattered && remaining == 1 ==> r == Step::Done(Radiance::Black),
        event == Interaction::Scattered && remaining > 1 ==> r == Step::Trace(
            (remaining - 1) as u32,
        ),
        forall|rest: Seq<Interaction>|
            #![trigger path_end(remaining as nat, seq![event] + rest)]
            match r {
                Step::Done(e) => path_end(remaining as nat, seq![event] + rest) == Some(e),
                Step::Trace(d) => path_end(remaining as nat, seq![event] + rest) == path_end(
                    d as nat,
                    rest,
                ),
            },
{
    let r = match event {
        Interaction::Miss => Step::Done(Radiance::Sky),
        Interaction::Absorbed => Step::Done(Radiance::Black),
        Interaction::Scattered => {
            if remaining == 1 {
                Step::Done(Radiance::Black)
            } else {
                Step::Trace(remaining - 1)
            }
        },
    };
    assert forall|rest: Seq<Interaction>|
        #![trigger path_end(remaining as nat, seq![event] + rest)]
        match r {
            Step::Done(e) => path_end(remaining as nat, seq![event] + rest) == Some(e),
            Step::Trace(d) => path_end(remaining as nat, seq![event] + rest) == path_end(
                d as nat,
                rest,
            ),
        } by {
        let s = seq![event] + rest;
        assert(s.len() > 0);
        assert(s[0] == event);
        assert(s.drop_first() =~= rest);
        assert(path_end(remaining as nat, s) == match event {
            Interaction::Miss => Some(Radiance::Sky),
            Interaction::Absorbed => Some(Radiance::Black),
            Interaction::Scattered => path_end((remaining - 1) as nat, rest),
        });
    }
    r
}

/// A path queries the scene at most as many times as its budget: once
/// `depth` events are known, its end is decided.
pub proof fn lemma_path_ends_within_budget(depth: nat, events: Seq<Interaction>)
    requires
        events.len() >= depth,
    ensures
        path_end(depth, events).is_some(),
    decreases events.len(),
{
    if depth > 0 && events[0] == Interaction::Scattered {
        lemma_path_ends_within_budget((depth - 1) as nat, events.drop_first());
    }
}

/// The ray at place `k` misses and every ray before it was scattered.
pub open spec fn misses_after_scatters(events: Seq<Interaction>, k: int) -> bool {
    &&& 0 <= k < events.len()
    &&& events[k] == Interaction::Miss
    &&& forall|m: int| 0 <= m < k ==> events[m] == Interaction::Scattered
}

proof fn lemma_misses_after_scatters_shift(events: Seq<Interaction>, k: int)
    requires
        k > 0,
        events.len() > 0,
    ensures
        misses_after_scatters(events, k) <==> (events[0] == Interaction::Scattered
            && misses_after_scatters(events.drop_first(), k - 1)),
{
    let rest = events.drop_first();
    if misses_after_scatters(events, k) {
        assert forall|m: int| 0 <= m < k - 1 implies rest[m] == Interaction::Scattered by {
            assert(rest[m] == events[m + 1]);
        }
    }
    if events[0] == Interaction::Scattered && misses_after_scatters(rest, k - 1) {
        assert forall|m: int| 0 <= m < k implies events[m] == Interaction::Scattered by {
            if m > 0 {
                assert(events[m] == rest[m - 1]);
            }
        }
    }
}

/// A path takes the sky's light exactly when, within its budget, some ray
/// misses and every ray before it was scattered.
pub proof fn lemma_sky_iff_miss_after_scatters(depth: nat, events: Seq<Interaction>)
    ensures
        path_end(depth, events) == Some(Radiance::Sky) <==> exists|k: int|
            k < depth && #[trigger] misses_after_scatters(events, k),
    decreases events.len(),
{
    if depth > 0 && events.len() > 0 {
        let rest = events.drop_first();
        lemma_sky_iff_miss_after_scatters((depth - 1) as nat, rest);
        if events[0] == Interaction::Miss {
            assert(misses_after_scatters(events, 0));
        }
        if path_end(depth, events) == Some(Radiance::Sky) && events[0] == Interaction::Scattered {
            let k = choose|k: int| k < depth - 1 && #[trigger] misses_after_scatters(rest, k);
            lemma_misses_after_scatters_shift(events, k + 1);
        }
        if exists|k: int| k < depth && #[trigger] misses_after_scatters(events, k) {
            let k = choose|k: int| k < depth && #[trigger] misses_after_scatters(events, k);
            if k > 0 {
                lemma_misses_after_scatters_shift(events, k);
            }
        }
    }
}

} // verus!
