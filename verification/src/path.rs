//! The life of one light path.
//!
//! An integrator follows a ray through the scene. It intersects the ray with
//! the scene; on a hit it asks the surface's material to scatter the ray; on
//! a successful scatter it goes on with the new ray. The path ends when the
//! ray escapes, when a material absorbs it, or when a surface is hit after
//! the last permitted bounce. A [`Path`] keeps count and says what to do
//! next; the integrator does the geometry and reports what happened.

use crate::key::is_number;
use crate::key::key_of;
use vstd::prelude::*;

verus! {

/// The most scatterings one path may undergo.
pub const MAX_BOUNCES: u32 = 50;

/// The nearest position at which a surface counts as hit, as a binary32 bit
/// pattern: one thousandth, a small bias that keeps a scattered ray from
/// hitting the surface it has just left.
pub const T_MIN: u32 = 0x3a83_126f;

/// The position that ends the search, as a binary32 bit pattern: the
/// greatest finite number. A surface counts as hit only before it.
pub const T_MAX: u32 = 0x7f7f_ffff;

/// The search interval of a path is an interval of numbers, starts above
/// zero and is not empty.
pub proof fn lemma_search_interval()
    ensures
        is_number(T_MIN),
        is_number(T_MAX),
        key_of(0) < key_of(T_MIN) < key_of(T_MAX),
{
}

/// How a finished path ended.
#[derive(Clone, Copy, PartialEq, Eq, Debug, Structural)]
pub enum Outcome {
    /// The ray left the scene: the path carries the light of the sky.
    Escaped,
    /// A material returned no outgoing ray: the path carries no light.
    Absorbed,
    /// A surface was hit with the bounce budget spent: the path carries no
    /// light.
    Exhausted,
}

/// What the integrator has to do next.
#[derive(Clone, Copy, PartialEq, Eq, Debug, Structural)]
pub enum Action {
    /// Intersect the current ray with the scene.
    Intersect,
    /// Ask the material of the surface just hit to scatter the ray.
    Scatter,
    /// Stop: the path has ended.
    Finish(Outcome),
}

/// What the integrator reports back.
#[derive(Clone, Copy, PartialEq, Eq, Debug, Structural)]
pub enum Event {
    /// The intersection test found no surface.
    Miss,
    /// The intersection test found a surface.
    Hit,
    /// The material produced an outgoing ray.
    Scattered,
    /// The material produced no outgoing ray.
    Absorbed,
}

/// The mathematical state of a path: the scatterings so far and the action
/// that is pending.
pub struct State {
    pub bounces: nat,
    pub pending: Action,
}

impl Outcome {
    /// Only a path that escaped carries light.
    pub open spec fn black(self) -> bool {
        self != Outcome::Escaped
    }

    /// Whether the path contributes nothing to its pixel.
    pub fn is_black(self) -> (b: bool)
        ensures
            b == self.black(),
    {
        match self {
            Outcome::Escaped => false,
            Outcome::Absorbed => true,
            Outcome::Exhausted => true,
        }
    }
}

impl State {
    /// A fresh path: no bounce yet, the first intersection test pending.
    pub open spec fn start() -> State {
        State { bounces: 0, pending: Action::Intersect }
    }

    /// Whether `event` answers the pending action.
    pub open spec fn accepts(self, event: Event) -> bool {
        match self.pending {
            Action::Intersect => event == Event::Miss || event == Event::Hit,
            Action::Scatter => event == Event::Scattered || event == Event::Absorbed,
            Action::Finish(_) => false,
        }
    }

    /// The state after `event`. An event that does not answer the pending
    /// action changes nothing.
    pub open spec fn step(self, event: Event) -> State {
        match (self.pending, event) {
            (Action::Intersect, Event::Miss) => State {
                bounces: self.bounces,
                pending: Action::Finish(Outcome::Escaped),
            },
            (Action::Intersect, Event::Hit) => if self.bounces < MAX_BOUNCES {
                State { bounces: self.bounces, pending: Action::Scatter }
            } else {
                State { bounces: self.bounces, pending: Action::Finish(Outcome::Exhausted) }
            },
            (Action::Scatter, Event::Scattered) => State {
                bounces: self.bounces + 1,
                pending: Action::Intersect,
            },
            (Action::Scatter, Event::Absorbed) => State {
                bounces: self.bounces,
                pending: Action::Finish(Outcome::Absorbed),
            },
            _ => self,
        }
    }

    /// The state a fresh path reaches through `events`, taken in order.
    pub open spec fn run(events: Seq<Event>) -> State
        decreases events.len(),
    {
        if events.len() == 0 {
            State::start()
        } else {
            State::run(events.drop_last()).step(events.last())
        }
    }

    /// Every event of `events` answers the action that was pending when it
    /// came.
    pub open spec fn in_turn(events: Seq<Event>) -> bool {
        forall|i: int|
            0 <= i < events.len() ==> (#[trigger] State::run(events.take(i))).accepts(events[i])
    }

    /// The budget is respected, and a scattering is only ever asked for
    /// while a bounce is left.
    pub open spec fn within_budget(self) -> bool {
        &&& self.bounces <= MAX_BOUNCES
        &&& self.pending == Action::Scatter ==> self.bounces < MAX_BOUNCES
    }

    /// An upper bound on the number of events this state can still accept.
    pub open spec fn remaining(self) -> nat {
        match self.pending {
            Action::Intersect => (2 * (MAX_BOUNCES - self.bounces) + 1) as nat,
            Action::Scatter => (2 * (MAX_BOUNCES - self.bounces)) as nat,
            Action::Finish(_) => 0,
        }
    }
}

/// Dropping the last event of a run that was in turn leaves a run that was
/// in turn, and the last event answered the action that it found pending.
proof fn lemma_in_turn_prefix(events: Seq<Event>)
    requires
        State::in_turn(events),
        events.len() > 0,
    ensures
        State::in_turn(events.drop_last()),
        State::run(events.drop_last()).accepts(events.last()),
{
    let front = events.drop_last();
    assert forall|i: int| 0 <= i < front.len() implies (#[trigger] State::run(
        front.take(i),
    )).accepts(front[i]) by {
        assert(front.take(i) =~= events.take(i));
    }
}

/// No sequence of events takes a path over its budget: the bounce count
/// stays at or under [`MAX_BOUNCES`], and a scattering is pending only while
/// a bounce is left.
pub proof fn lemma_run_within_budget(events: Seq<Event>)
    ensures
        State::run(events).within_budget(),
    decreases events.len(),
{
    if events.len() > 0 {
        lemma_run_within_budget(events.drop_last());
    }
}

/// Every path ends: a run in which each event answers the pending action
/// has at most `2 * MAX_BOUNCES + 1` events, and what it has used and what
/// it can still accept never add up to more.
pub proof fn lemma_run_is_bounded(events: Seq<Event>)
    requires
        State::in_turn(events),
    ensures
        events.len() + State::run(events).remaining() <= 2 * MAX_BOUNCES + 1,
    decreases events.len(),
{
    if events.len() > 0 {
        lemma_in_turn_prefix(events);
        lemma_run_is_bounded(events.drop_last());
        lemma_run_within_budget(events.drop_last());
    }
}

/// The last event decides how a finished path ended: a miss means escape,
/// an absorption means absorption, and a hit means that the budget was
/// spent, with exactly [`MAX_BOUNCES`] scatterings behind it.
pub proof fn lemma_outcome_follows_last_event(events: Seq<Event>, outcome: Outcome)
    requires
        State::in_turn(events),
        State::run(events).pending == Action::Finish(outcome),
    ensures
        events.len() > 0,
        events.last() != Event::Scattered,
        events.last() == Event::Miss <==> outcome == Outcome::Escaped,
        events.last() == Event::Absorbed <==> outcome == Outcome::Absorbed,
        events.last() == Event::Hit <==> outcome == Outcome::Exhausted,
        outcome == Outcome::Exhausted ==> State::run(events).bounces == MAX_BOUNCES,
{
    if events.len() > 0 {
        lemma_in_turn_prefix(events);
        lemma_run_within_budget(events.drop_last());
    }
}

/// A ray that meets no surface escapes at once, without a bounce, and is
/// the only kind of path that carries light.
pub proof fn lemma_missing_ray_escapes()
    ensures
        State::in_turn(seq![Event::Miss]),
        State::run(seq![Event::Miss]) == (State {
            bounces: 0,
            pending: Action::Finish(Outcome::Escaped),
        }),
        !Outcome::Escaped.black(),
        forall|outcome: Outcome| !outcome.black() ==> outcome == Outcome::Escaped,
{
    let events = seq![Event::Miss];
    // The empty prefix leaves the path fresh, and a fresh path accepts a miss.
    assert(State::run(events.drop_last()) == State::start());
    assert(State::in_turn(events));
}

/// Where no material ever scatters, a ray that hits a surface ends black:
/// a finished run that starts with a hit and holds no successful scattering
/// is the hit followed by the absorption.
pub proof fn lemma_absorbing_scene_is_black(events: Seq<Event>, outcome: Outcome)
    requires
        State::in_turn(events),
        events.len() > 0,
        events[0] == Event::Hit,
        forall|i: int| 0 <= i < events.len() ==> events[i] != Event::Scattered,
        State::run(events).pending == Action::Finish(outcome),
    ensures
        events =~= seq![Event::Hit, Event::Absorbed],
        outcome == Outcome::Absorbed,
        outcome.black(),
{
    // After the hit a scattering is pending.
    let one = events.take(1);
    assert(State::run(one.drop_last()) == State::start());
    if events.len() == 1 {
        // The run would end there unfinished.
        assert(one =~= events);
    } else {
        // The answer is no scattering, so it is the absorption.
        let two = events.take(2);
        assert(two.drop_last() =~= one);
        assert(State::run(one).accepts(events[1]));
        assert(State::run(two).pending == Action::Finish(Outcome::Absorbed));
        // A finished path accepts nothing, so the run ends there.
        if events.len() > 2 {
            assert(State::run(two).accepts(events[2]));
        }
        assert(two =~= events);
    }
}

/// One light path as the integrator holds it.
#[derive(Clone, Copy, Debug)]
pub struct Path {
    bounces: u32,
    pending: Action,
}

impl View for Path {
    type V = State;

    closed spec fn view(&self) -> State {
        State { bounces: self.bounces as nat, pending: self.pending }
    }
}

impl Path {
    #[verifier::type_invariant]
    spec fn budget_kept(self) -> bool {
        self@.within_budget()
    }

    /// A fresh path for a ray that has just left the camera.
    pub fn start() -> (path: Path)
        ensures
            path@ == State::start(),
    {
        Path { bounces: 0, pending: Action::Intersect }
    }

    /// The number of scatterings so far. It never exceeds [`MAX_BOUNCES`].
    pub fn bounces(&self) -> (n: u32)
        ensures
            n == self@.bounces,
            n <= MAX_BOUNCES,
    {
        proof {
            use_type_invariant(self);
        }
        self.bounces
    }

    /// What the integrator has to do next.
    pub fn pending(&self) -> (action: Action)
        ensures
            action == self@.pending,
            action == Action::Scatter ==> self@.bounces < MAX_BOUNCES,
    {
        proof {
            use_type_invariant(self);
        }
        self.pending
    }

    /// The path after the integrator has reported `event`.
    ///
    /// A miss ends the path as escaped. A hit asks for a scattering while a
    /// bounce is left and ends the path as exhausted otherwise. A successful
    /// scattering counts one bounce and asks for the next intersection test;
    /// an absorption ends the path. An event that does not answer the
    /// pending action leaves the path as it was.
    pub fn advance(self, event: Event) -> (next: Path)
        ensures
            next@ == self@.step(event),
    {
        proof {
            use_type_invariant(&self);
        }
        match (self.pending, event) {
            (Action::Intersect, Event::Miss) => Path {
                bounces: self.bounces,
                pending: Action::Finish(Outcome::Escaped),
            },
            (Action::Intersect, Event::Hit) => {
                if self.bounces < MAX_BOUNCES {
                    Path { bounces: self.bounces, pending: Action::Scatter }
                } else {
                    Path { bounces: self.bounces, pending: Action::Finish(Outcome::Exhausted) }
                }
            },
            (Action::Scatter, Event::Scattered) => Path {
                bounces: self.bounces + 1,
                pending: Action::Intersect,
            },
            (Action::Scatter, Event::Absorbed) => Path {
                bounces: self.bounces,
                pending: Action::Finish(Outcome::Absorbed),
            },
            _ => self,
        }
    }
}

} // verus!
