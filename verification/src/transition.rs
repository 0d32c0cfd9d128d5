//! Graph edges: timed, interruptible moves between states.
//!
//! A [`MovingTransition`] joins one or more source states to a labelled set
//! of destination states.  It carries a duration in milliseconds, an
//! optional breaker handle (a caller-chosen number naming the predicate that
//! may end the wait early), and the polling cadence for that predicate.
//! Construction rejects a negative duration; the labelled destinations form
//! a mapping, so re-using a label overwrites the earlier destination.

use vstd::prelude::*;
use vstd::pervasive::VecAdditionalExecFns;

use crate::ids::IdAllocator;
use crate::state::MovingState;

verus! {

/// Default polling cadence of a transition's breaker, in milliseconds.
pub const DEFAULT_CHECK_INTERVAL_MS: u64 = 10;

/// Why a transition could not be built.
#[derive(Clone, Copy, Debug, PartialEq, Eq, Structural)]
pub enum TransitionError {
    /// The requested duration was negative.
    InvalidDuration,
}

/// Index of the first destination entry carrying `label`, or -1 when no
/// entry does.
pub open spec fn label_index(tos: Seq<(String, MovingState)>, label: Seq<char>) -> int
    decreases tos.len(),
{
    if tos.len() == 0 {
        -1
    } else if tos[0].0@ == label {
        0
    } else {
        let rest = label_index(tos.drop_first(), label);
        if rest == -1 {
            -1
        } else {
            rest + 1
        }
    }
}

/// No two destination entries carry the same label.
pub open spec fn distinct_labels(tos: Seq<(String, MovingState)>) -> bool {
    forall|i: int, j: int| 0 <= i < j < tos.len() ==> tos[i].0@ != tos[j].0@
}

/// The destination list after binding `label` to `state`: the entry already
/// carrying `label` is replaced, or a new entry is appended.
pub open spec fn spec_tos_insert(
    tos: Seq<(String, MovingState)>,
    label: String,
    state: MovingState,
) -> Seq<(String, MovingState)> {
    let i = label_index(tos, label@);
    if i == -1 {
        tos.push((label, state))
    } else {
        tos.update(i, (label, state))
    }
}

/// A timed, possibly branching edge of the movement graph.
#[derive(Debug, Hash)]
pub struct MovingTransition {
    id: usize,
    duration_ms: u64,
    breaker: Option<u64>,
    check_interval_ms: u64,
    from_states: Vec<MovingState>,
    to_states: Vec<(String, MovingState)>,
}

impl MovingTransition {
    /// The transition's identity.
    pub closed spec fn spec_id(self) -> usize {
        self.id
    }

    /// The transition's duration in milliseconds.
    pub closed spec fn spec_duration_ms(self) -> u64 {
        self.duration_ms
    }

    /// The handle of the attached breaker, if one is attached.
    pub closed spec fn spec_breaker(self) -> Option<u64> {
        self.breaker
    }

    /// The polling cadence in milliseconds.
    pub closed spec fn spec_check_interval_ms(self) -> u64 {
        self.check_interval_ms
    }

    /// The source states, in insertion order.
    pub closed spec fn spec_froms(self) -> Seq<MovingState> {
        self.from_states@
    }

    /// The labelled destination states, in insertion order.
    pub closed spec fn spec_tos(self) -> Seq<(String, MovingState)> {
        self.to_states@
    }

    /// Identifiers of the source states, in order.
    pub open spec fn spec_from_ids(self) -> Seq<usize> {
        self.spec_froms().map_values(|s: MovingState| s.spec_id())
    }

    /// Identifiers of the destination states, in label order.
    pub open spec fn spec_to_ids(self) -> Seq<usize> {
        self.spec_tos().map_values(|p: (String, MovingState)| p.1.spec_id())
    }

    /// A transition is well formed when no two destinations share a label.
    pub open spec fn wf(self) -> bool {
        distinct_labels(self.spec_tos())
    }

    /// A transition of the given duration, with the default polling cadence,
    /// no breaker, and no states yet.  Fails exactly when the duration is
    /// negative; an identity is drawn only on success.
    pub fn new(duration_ms: i64, ids: &mut IdAllocator) -> (r: Result<Self, TransitionError>)
        requires
            old(ids).spec_next() < usize::MAX,
        ensures
            r is Err <==> duration_ms < 0,
            r matches Err(e) ==> e == TransitionError::InvalidDuration && final(ids).spec_next()
                == old(ids).spec_next(),
            r matches Ok(t) ==> {
                &&& t.spec_id() == old(ids).spec_next()
                &&& final(ids).spec_next() == old(ids).spec_next() + 1
                &&& t.spec_duration_ms() == duration_ms
                &&& t.spec_breaker() is None
                &&& t.spec_check_interval_ms() == DEFAULT_CHECK_INTERVAL_MS
                &&& t.spec_froms() == Seq::<MovingState>::empty()
                &&& t.spec_tos() == Seq::<(String, MovingState)>::empty()
                &&& t.wf()
            },
    {
        if duration_ms < 0 {
            return Err(TransitionError::InvalidDuration);
        }
        Ok(
            MovingTransition {
                id: ids.fresh(),
                duration_ms: duration_ms as u64,
                breaker: None,
                check_interval_ms: DEFAULT_CHECK_INTERVAL_MS,
                from_states: Vec::new(),
                to_states: Vec::new(),
            },
        )
    }

    /// This transition with the breaker handle `breaker` attached.
    pub fn with_breaker(self, breaker: u64) -> (r: Self)
        ensures
            r.spec_id() == self.spec_id(),
            r.spec_duration_ms() == self.spec_duration_ms(),
            r.spec_breaker() == Some(breaker),
            r.spec_check_interval_ms() == self.spec_check_interval_ms(),
            r.spec_froms() == self.spec_froms(),
            r.spec_tos() == self.spec_tos(),
    {
        MovingTransition { breaker: Some(breaker), ..self }
    }

    /// This transition with the polling cadence overridden.
    pub fn with_check_interval(self, interval_ms: u64) -> (r: Self)
        ensures
            r.spec_id() == self.spec_id(),
            r.spec_duration_ms() == self.spec_duration_ms(),
            r.spec_breaker() == self.spec_breaker(),
            r.spec_check_interval_ms() == interval_ms,
            r.spec_froms() == self.spec_froms(),
            r.spec_tos() == self.spec_tos(),
    {
        MovingTransition { check_interval_ms: interval_ms, ..self }
    }

    /// This transition with `state` appended to the sources.
    pub fn with_from_state(self, state: MovingState) -> (r: Self)
        ensures
            r.spec_id() == self.spec_id(),
            r.spec_duration_ms() == self.spec_duration_ms(),
            r.spec_breaker() == self.spec_breaker(),
            r.spec_check_interval_ms() == self.spec_check_interval_ms(),
            r.spec_froms() == self.spec_froms().push(state),
            r.spec_tos() == self.spec_tos(),
    {
        let mut s = self;
        s.from_states.push(state);
        s
    }

    /// This transition with `label` bound to `state` among the destinations.
    /// A label already in use is rebound to the new state.
    pub fn with_to_state(self, label: String, state: MovingState) -> (r: Self)
        requires
            self.wf(),
        ensures
            r.spec_id() == self.spec_id(),
            r.spec_duration_ms() == self.spec_duration_ms(),
            r.spec_breaker() == self.spec_breaker(),
            r.spec_check_interval_ms() == self.spec_check_interval_ms(),
            r.spec_froms() == self.spec_froms(),
            r.spec_tos() == spec_tos_insert(self.spec_tos(), label, state),
            r.wf(),
    {
        let ghost orig: Seq<(String, MovingState)> = self.spec_tos();
        let idx = find_label_index(&self.to_states, &label);
        let mut s = self;
        match idx {
            Some(i) => {
                let ghost updated = orig.update(i as int, (label, state));
                proof {
                    assert forall|a: int, b: int|
                        0 <= a < b < updated.len() implies updated[a].0@ != updated[b].0@ by {
                        assert(orig[a].0@ != orig[b].0@);
                        assert(updated[a].0@ == orig[a].0@);
                        assert(updated[b].0@ == orig[b].0@);
                    }
                    assert(distinct_labels(updated));
                }
                s.to_states.set(i, (label, state));
                proof {
                    assert(s.to_states@ == updated);
                    assert forall|a: int, b: int|
                        0 <= a < b < s.to_states@.len() implies s.to_states@[a].0@
                        != s.to_states@[b].0@ by {
                        assert(updated[a].0@ != updated[b].0@);
                    }
                    assert(distinct_labels(s.to_states@));
                }
                s
            },
            None => {
                s.to_states.push((label, state));
                proof {
                    assert forall|a: int, b: int|
                        0 <= a < b < s.to_states@.len() implies s.to_states@[a].0@
                        != s.to_states@[b].0@ by {
                        if b < orig.len() {
                            assert(orig[a].0@ != orig[b].0@);
                        } else {
                            assert(orig[a].0@ != s.to_states@[b].0@);
                        }
                    }
                    assert(distinct_labels(s.to_states@));
                }
                s
            },
        }
    }

    /// The transition's identity.
    pub fn id(&self) -> (r: usize)
        ensures
            r == self.spec_id(),
    {
        self.id
    }

    /// The duration in milliseconds.
    pub fn duration_ms(&self) -> (r: u64)
        ensures
            r == self.spec_duration_ms(),
    {
        self.duration_ms
    }

    /// The handle of the attached breaker, if one is attached.
    pub fn breaker(&self) -> (r: Option<u64>)
        ensures
            r == self.spec_breaker(),
    {
        self.breaker
    }

    /// The polling cadence in milliseconds.
    pub fn check_interval_ms(&self) -> (r: u64)
        ensures
            r == self.spec_check_interval_ms(),
    {
        self.check_interval_ms
    }

    /// The source states, in insertion order.
    pub fn from_states(&self) -> (r: &Vec<MovingState>)
        ensures
            r@ == self.spec_froms(),
    {
        &self.from_states
    }

    /// The labelled destination states, in insertion order.
    pub fn to_states(&self) -> (r: &Vec<(String, MovingState)>)
        ensures
            r@ == self.spec_tos(),
    {
        &self.to_states
    }
}

impl PartialEq for MovingTransition {
    /// Identity equality: two transitions are equal exactly when their
    /// identifiers are.
    fn eq(&self, other: &Self) -> (r: bool) {
        self.id == other.id
    }
}

impl vstd::std_specs::cmp::PartialEqSpecImpl for MovingTransition {
    open spec fn obeys_eq_spec() -> bool {
        true
    }

    open spec fn eq_spec(&self, other: &Self) -> bool {
        self.spec_id() == other.spec_id()
    }
}

/// Position of the entry carrying `label`, if any entry does.
fn find_label_index(tos: &Vec<(String, MovingState)>, label: &String) -> (r: Option<usize>)
    ensures
        r matches Some(i) ==> 0 <= i < tos@.len() && tos@[i as int].0@ == label@ && label_index(
            tos@,
            label@,
        ) == i,
        r is None ==> label_index(tos@, label@) == -1 && (forall|k: int|
            0 <= k < tos@.len() ==> tos@[k].0@ != label@),
{
    let n = tos.len();
    let mut i: usize = 0;
    while i < n
        invariant
            i <= n,
            n == tos@.len(),
            forall|k: int| 0 <= k < i ==> tos@[k].0@ != label@,
        decreases n - i,
    {
        if string_eq(&tos[i].0, label) {
            proof {
                lemma_label_index_found(tos@, label@, i as int);
            }
            return Some(i);
        }
        i = i + 1;
    }
    proof {
        lemma_label_index_absent(tos@, label@);
    }
    None
}

/// Whether two strings hold the same characters.
fn string_eq(a: &String, b: &String) -> (r: bool)
    ensures
        r <==> a@ == b@,
{
    a.eq(b)
}

/// `label_index` finds the position of the first entry carrying the label.
proof fn lemma_label_index_found(tos: Seq<(String, MovingState)>, label: Seq<char>, i: int)
    requires
        0 <= i < tos.len(),
        tos[i].0@ == label,
        forall|k: int| 0 <= k < i ==> tos[k].0@ != label,
    ensures
        label_index(tos, label) == i,
    decreases tos.len(),
{
    if i > 0 {
        lemma_label_index_found(tos.drop_first(), label, i - 1);
    }
}

/// `label_index` reports -1 exactly when no entry carries the label.
proof fn lemma_label_index_absent(tos: Seq<(String, MovingState)>, label: Seq<char>)
    requires
        forall|k: int| 0 <= k < tos.len() ==> tos[k].0@ != label,
    ensures
        label_index(tos, label) == -1,
    decreases tos.len(),
{
    if tos.len() > 0 {
        lemma_label_index_absent(tos.drop_first(), label);
    }
}

} // verus!
