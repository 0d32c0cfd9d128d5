//! Graph nodes: a wheel-speed pattern with a unique identity.
//!
//! A [`MovingState`] couples a [`SpeedPattern`] with an identifier drawn
//! from an [`IdAllocator`] and two ordered lists of hook handles: actions to
//! run before entering and after exiting the state.  A handle is a number
//! the caller chooses; the runner that executes the graph resolves handles
//! to actions outside this library.  Equality goes by the identifier alone:
//! two states built from identical patterns are distinct entities.

use vstd::prelude::*;

use crate::ids::IdAllocator;
use crate::pattern::DEFAULT_DIAGONAL_DEN;
use crate::pattern::DEFAULT_DIAGONAL_NUM;
use crate::pattern::DEFAULT_TRACK_WIDTH;
use crate::pattern::FixedAxis;
use crate::pattern::MovementConfig;
use crate::pattern::PatternType;
use crate::pattern::Scale;
use crate::pattern::SpeedPattern;
use crate::pattern::TurnDirection;
use crate::pattern::differential_inner;
use crate::pattern::scale_i32;
use crate::pattern::scale_value;
use crate::pattern::spec_differential_inner;

verus! {

/// The pattern of a turn in place: sides spin opposite ways at `speed`.
pub open spec fn spec_turn_pattern(direction: TurnDirection, speed: i32) -> SpeedPattern
    recommends
        speed > i32::MIN,
{
    match direction {
        TurnDirection::Left => SpeedPattern::LeftRight {
            left: (-(speed as int)) as i32,
            right: speed,
        },
        TurnDirection::Right => SpeedPattern::LeftRight {
            left: speed,
            right: (-(speed as int)) as i32,
        },
    }
}

/// The pattern of a differential turn with the default track width: the
/// turning side runs at the inner speed, the other at `outer_speed`.
pub open spec fn spec_differential_pattern(
    direction: TurnDirection,
    radius: int,
    outer_speed: i32,
) -> SpeedPattern {
    let inner = spec_differential_inner(
        outer_speed as int,
        radius,
        DEFAULT_TRACK_WIDTH as int,
    ) as i32;
    match direction {
        TurnDirection::Left => SpeedPattern::LeftRight { left: inner, right: outer_speed },
        TurnDirection::Right => SpeedPattern::LeftRight { left: outer_speed, right: inner },
    }
}

/// The pattern of a drift with the default diagonal multiplier: the fixed
/// wheel at zero, one wheel at `speed` scaled by the multiplier, the rest at
/// `speed`.
pub open spec fn spec_drift_pattern(fixed_axis: FixedAxis, speed: i32) -> SpeedPattern {
    let diagonal = scale_value(
        speed as int,
        DEFAULT_DIAGONAL_NUM as int,
        DEFAULT_DIAGONAL_DEN as int,
    ) as i32;
    match fixed_axis {
        FixedAxis::FrontLeft => SpeedPattern::PerWheel {
            front_left: 0,
            rear_left: speed,
            front_right: diagonal,
            rear_right: speed,
        },
        FixedAxis::RearLeft => SpeedPattern::PerWheel {
            front_left: speed,
            rear_left: 0,
            front_right: speed,
            rear_right: diagonal,
        },
        FixedAxis::RearRight => SpeedPattern::PerWheel {
            front_left: diagonal,
            rear_left: speed,
            front_right: 0,
            rear_right: speed,
        },
        FixedAxis::FrontRight => SpeedPattern::PerWheel {
            front_left: speed,
            rear_left: diagonal,
            front_right: speed,
            rear_right: 0,
        },
    }
}

/// A movement state: a speed pattern under a unique identity, with ordered
/// entry and exit hook handles.
#[derive(Debug, Hash)]
pub struct MovingState {
    id: usize,
    speed_pattern: SpeedPattern,
    before_entering: Vec<u64>,
    after_exiting: Vec<u64>,
}

impl MovingState {
    /// The state's identity.
    pub closed spec fn spec_id(self) -> usize {
        self.id
    }

    /// The state's speed pattern.
    pub closed spec fn spec_pattern(self) -> SpeedPattern {
        self.speed_pattern
    }

    /// Handles of the hooks to run before entering, in order.
    pub closed spec fn spec_before(self) -> Seq<u64> {
        self.before_entering@
    }

    /// Handles of the hooks to run after exiting, in order.
    pub closed spec fn spec_after(self) -> Seq<u64> {
        self.after_exiting@
    }

    /// A state with the given pattern, no hooks, and a fresh identity.
    pub fn new(speed_pattern: SpeedPattern, ids: &mut IdAllocator) -> (r: Self)
        requires
            old(ids).spec_next() < usize::MAX,
        ensures
            r.spec_id() == old(ids).spec_next(),
            final(ids).spec_next() == old(ids).spec_next() + 1,
            r.spec_pattern() == speed_pattern,
            r.spec_before() == Seq::<u64>::empty(),
            r.spec_after() == Seq::<u64>::empty(),
    {
        MovingState {
            id: ids.fresh(),
            speed_pattern,
            before_entering: Vec::new(),
            after_exiting: Vec::new(),
        }
    }

    /// A halted state: every wheel at zero.
    pub fn halt(ids: &mut IdAllocator) -> (r: Self)
        requires
            old(ids).spec_next() < usize::MAX,
        ensures
            r.spec_id() == old(ids).spec_next(),
            final(ids).spec_next() == old(ids).spec_next() + 1,
            r.spec_pattern() == SpeedPattern::Uniform(0i32),
            r.spec_before() == Seq::<u64>::empty(),
            r.spec_after() == Seq::<u64>::empty(),
    {
        Self::new(SpeedPattern::Uniform(0), ids)
    }

    /// A straight movement: every wheel at `speed`.
    pub fn straight(speed: i32, ids: &mut IdAllocator) -> (r: Self)
        requires
            old(ids).spec_next() < usize::MAX,
        ensures
            r.spec_id() == old(ids).spec_next(),
            final(ids).spec_next() == old(ids).spec_next() + 1,
            r.spec_pattern() == SpeedPattern::Uniform(speed),
            r.spec_before() == Seq::<u64>::empty(),
            r.spec_after() == Seq::<u64>::empty(),
    {
        Self::new(SpeedPattern::Uniform(speed), ids)
    }

    /// A turn in place: the turning side runs backward at `speed`, the other
    /// forward.
    pub fn turn(direction: TurnDirection, speed: i32, ids: &mut IdAllocator) -> (r: Self)
        requires
            old(ids).spec_next() < usize::MAX,
            speed > i32::MIN,
        ensures
            r.spec_id() == old(ids).spec_next(),
            final(ids).spec_next() == old(ids).spec_next() + 1,
            r.spec_pattern() == spec_turn_pattern(direction, speed),
            r.spec_before() == Seq::<u64>::empty(),
            r.spec_after() == Seq::<u64>::empty(),
    {
        match direction {
            TurnDirection::Left => Self::new(
                SpeedPattern::LeftRight { left: -speed, right: speed },
                ids,
            ),
            TurnDirection::Right => Self::new(
                SpeedPattern::LeftRight { left: speed, right: -speed },
                ids,
            ),
        }
    }

    /// A differential turn with the default track width: the inner side runs
    /// at `outer_speed * radius / (radius + track_width)`, truncated toward
    /// zero.
    pub fn differential(
        direction: TurnDirection,
        radius: u32,
        outer_speed: i32,
        ids: &mut IdAllocator,
    ) -> (r: Self)
        requires
            old(ids).spec_next() < usize::MAX,
        ensures
            r.spec_id() == old(ids).spec_next(),
            final(ids).spec_next() == old(ids).spec_next() + 1,
            r.spec_pattern() == spec_differential_pattern(direction, radius as int, outer_speed),
            r.spec_before() == Seq::<u64>::empty(),
            r.spec_after() == Seq::<u64>::empty(),
    {
        let config = MovementConfig::default();
        let inner = differential_inner(outer_speed, radius, config.track_width);
        match direction {
            TurnDirection::Left => Self::new(
                SpeedPattern::LeftRight { left: inner, right: outer_speed },
                ids,
            ),
            TurnDirection::Right => Self::new(
                SpeedPattern::LeftRight { left: outer_speed, right: inner },
                ids,
            ),
        }
    }

    /// A drift with the default diagonal multiplier: the fixed wheel stops,
    /// one wheel runs at `speed` scaled by the multiplier, the rest at
    /// `speed`.
    pub fn drift(fixed_axis: FixedAxis, speed: i32, ids: &mut IdAllocator) -> (r: Self)
        requires
            old(ids).spec_next() < usize::MAX,
        ensures
            r.spec_id() == old(ids).spec_next(),
            final(ids).spec_next() == old(ids).spec_next() + 1,
            r.spec_pattern() == spec_drift_pattern(fixed_axis, speed),
            r.spec_before() == Seq::<u64>::empty(),
            r.spec_after() == Seq::<u64>::empty(),
    {
        let config = MovementConfig::default();
        let diagonal = scale_i32(
            speed,
            config.diagonal_multiplier.num,
            config.diagonal_multiplier.den,
        );
        let pattern = match fixed_axis {
            FixedAxis::FrontLeft => SpeedPattern::PerWheel {
                front_left: 0,
                rear_left: speed,
                front_right: diagonal,
                rear_right: speed,
            },
            FixedAxis::RearLeft => SpeedPattern::PerWheel {
                front_left: speed,
                rear_left: 0,
                front_right: speed,
                rear_right: diagonal,
            },
            FixedAxis::RearRight => SpeedPattern::PerWheel {
                front_left: diagonal,
                rear_left: speed,
                front_right: 0,
                rear_right: speed,
            },
            FixedAxis::FrontRight => SpeedPattern::PerWheel {
                front_left: speed,
                rear_left: diagonal,
                front_right: speed,
                rear_right: 0,
            },
        };
        Self::new(pattern, ids)
    }

    /// The state's identity.
    pub fn id(&self) -> (r: usize)
        ensures
            r == self.spec_id(),
    {
        self.id
    }

    /// The state's speed pattern.
    pub fn speed_pattern(&self) -> (r: SpeedPattern)
        ensures
            r == self.spec_pattern(),
    {
        self.speed_pattern
    }

    /// The shape of the state's pattern.
    pub fn pattern_type(&self) -> (r: PatternType)
        ensures
            r == self.spec_pattern().spec_pattern_type(),
    {
        self.speed_pattern.pattern_type()
    }

    /// The state's speeds in wheel order: front left, rear left, front
    /// right, rear right.
    pub fn speeds(&self) -> (r: [i32; 4])
        ensures
            r@ == self.spec_pattern().spec_speeds(),
    {
        self.speed_pattern.to_array()
    }

    /// This state with every speed scaled by `factor`, truncating toward
    /// zero.  The identity and the hooks stay as they were.
    pub fn with_multiplier(self, factor: Scale) -> (r: Self)
        requires
            factor.wf(),
        ensures
            r.spec_id() == self.spec_id(),
            r.spec_pattern() == self.spec_pattern().spec_scaled(factor),
            r.spec_before() == self.spec_before(),
            r.spec_after() == self.spec_after(),
    {
        let scaled = self.speed_pattern.scaled(factor);
        MovingState {
            id: self.id,
            speed_pattern: scaled,
            before_entering: self.before_entering,
            after_exiting: self.after_exiting,
        }
    }

    /// Appends a hook handle to run before entering this state.
    pub fn add_before_hook(&mut self, hook: u64)
        ensures
            final(self).spec_id() == old(self).spec_id(),
            final(self).spec_pattern() == old(self).spec_pattern(),
            final(self).spec_before() == old(self).spec_before().push(hook),
            final(self).spec_after() == old(self).spec_after(),
    {
        self.before_entering.push(hook);
    }

    /// Appends a hook handle to run after exiting this state.
    pub fn add_after_hook(&mut self, hook: u64)
        ensures
            final(self).spec_id() == old(self).spec_id(),
            final(self).spec_pattern() == old(self).spec_pattern(),
            final(self).spec_before() == old(self).spec_before(),
            final(self).spec_after() == old(self).spec_after().push(hook),
    {
        self.after_exiting.push(hook);
    }

    /// Handles of the hooks to run before entering, in order.
    pub fn before_hooks(&self) -> (r: &Vec<u64>)
        ensures
            r@ == self.spec_before(),
    {
        &self.before_entering
    }

    /// Handles of the hooks to run after exiting, in order.
    pub fn after_hooks(&self) -> (r: &Vec<u64>)
        ensures
            r@ == self.spec_after(),
    {
        &self.after_exiting
    }
}

impl Clone for MovingState {
    /// A clone is the same state: it keeps the identity, the pattern, and
    /// the hooks.  Cloning is how one state stands in several transitions.
    fn clone(&self) -> (r: Self)
        ensures
            r.spec_id() == self.spec_id(),
            r.spec_pattern() == self.spec_pattern(),
            r.spec_before() == self.spec_before(),
            r.spec_after() == self.spec_after(),
    {
        MovingState {
            id: self.id,
            speed_pattern: self.speed_pattern,
            before_entering: copy_hooks(&self.before_entering),
            after_exiting: copy_hooks(&self.after_exiting),
        }
    }
}

/// A copy of a hook handle list.
fn copy_hooks(v: &Vec<u64>) -> (r: Vec<u64>)
    ensures
        r@ == v@,
{
    let n = v.len();
    let mut out: Vec<u64> = Vec::new();
    let mut i: usize = 0;
    while i < n
        invariant
            i <= n,
            n == v@.len(),
            out@ == v@.take(i as int),
        decreases n - i,
    {
        out.push(v[i]);
        proof {
            assert(out@ =~= v@.take(i + 1));
        }
        i = i + 1;
    }
    proof {
        assert(v@.take(n as int) =~= v@);
    }
    out
}

impl PartialEq for MovingState {
    /// Identity equality: two states are equal exactly when their
    /// identifiers are, whatever their patterns hold.
    fn eq(&self, other: &Self) -> (r: bool) {
        self.id == other.id
    }
}

impl vstd::std_specs::cmp::PartialEqSpecImpl for MovingState {
    open spec fn obeys_eq_spec() -> bool {
        true
    }

    open spec fn eq_spec(&self, other: &Self) -> bool {
        self.spec_id() == other.spec_id()
    }
}

} // verus!
