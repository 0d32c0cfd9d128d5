//! The graph registry: a pool of transitions and its degree analysis.
//!
//! A [`Botix`] owns an ordered pool of [`MovingTransition`].  States exist
//! only as members of transitions' source and destination sets; their in-
//! and out-degrees are derived fresh from the pool on demand, never cached.
//! The start states are the referenced states with in-degree zero, the end
//! states those with out-degree zero, and a pool is valid exactly when it
//! has one start state.

use vstd::prelude::*;

use crate::transition::MovingTransition;

verus! {

/// Why a transition pool fails structural validation.
#[derive(Clone, Copy, Debug, PartialEq, Eq, Structural)]
pub enum StructuralError {
    /// No referenced state has in-degree zero: the graph has no entry point.
    NoStartState,
    /// Several states have in-degree zero: the entry point is ambiguous.
    MultipleStartStates,
}

/// In-degree of the state `id`: how many transitions of the pool name it
/// among their destinations, each transition counted once.
pub open spec fn in_degree(pool: Seq<MovingTransition>, id: usize) -> nat
    decreases pool.len(),
{
    if pool.len() == 0 {
        0
    } else {
        in_degree(pool.drop_last(), id) + if pool.last().spec_to_ids().contains(id) {
            1nat
        } else {
            0nat
        }
    }
}

/// Out-degree of the state `id`: how many transitions of the pool name it
/// among their sources, each transition counted once.
pub open spec fn out_degree(pool: Seq<MovingTransition>, id: usize) -> nat
    decreases pool.len(),
{
    if pool.len() == 0 {
        0
    } else {
        out_degree(pool.drop_last(), id) + if pool.last().spec_from_ids().contains(id) {
            1nat
        } else {
            0nat
        }
    }
}

/// Whether some transition of the pool lists `id` among its sources.
pub open spec fn appears_in_froms(pool: Seq<MovingTransition>, id: usize) -> bool {
    exists|i: int| 0 <= i < pool.len() && #[trigger] pool[i].spec_from_ids().contains(id)
}

/// Whether some transition of the pool lists `id` among its destinations.
pub open spec fn appears_in_tos(pool: Seq<MovingTransition>, id: usize) -> bool {
    exists|i: int| 0 <= i < pool.len() && #[trigger] pool[i].spec_to_ids().contains(id)
}

/// Whether any transition of the pool references the state `id`.
pub open spec fn referenced(pool: Seq<MovingTransition>, id: usize) -> bool {
    appears_in_froms(pool, id) || appears_in_tos(pool, id)
}

/// A start state: referenced by the pool, with in-degree zero.
pub open spec fn is_start_state(pool: Seq<MovingTransition>, id: usize) -> bool {
    referenced(pool, id) && in_degree(pool, id) == 0
}

/// An end state: referenced by the pool, with out-degree zero.
pub open spec fn is_end_state(pool: Seq<MovingTransition>, id: usize) -> bool {
    referenced(pool, id) && out_degree(pool, id) == 0
}

/// A state has in-degree zero exactly when no transition of the pool lists
/// it among its destinations.
pub proof fn lemma_in_degree_zero(pool: Seq<MovingTransition>, id: usize)
    ensures
        in_degree(pool, id) == 0 <==> !appears_in_tos(pool, id),
    decreases pool.len(),
{
    if pool.len() > 0 {
        let prefix = pool.drop_last();
        lemma_in_degree_zero(prefix, id);
        if appears_in_tos(pool, id) {
            let i = choose|i: int|
                0 <= i < pool.len() && #[trigger] pool[i].spec_to_ids().contains(id);
            if i < pool.len() - 1 {
                assert(prefix[i] == pool[i]);
                assert(appears_in_tos(prefix, id));
            } else {
                assert(pool.last() == pool[i]);
            }
        }
        if appears_in_tos(prefix, id) {
            let i = choose|i: int|
                0 <= i < prefix.len() && #[trigger] prefix[i].spec_to_ids().contains(id);
            assert(pool[i] == prefix[i]);
            assert(appears_in_tos(pool, id));
        }
        if pool.last().spec_to_ids().contains(id) {
            assert(pool[pool.len() - 1].spec_to_ids().contains(id));
            assert(appears_in_tos(pool, id));
        }
    }
}

/// A state has out-degree zero exactly when no transition of the pool lists
/// it among its sources.
pub proof fn lemma_out_degree_zero(pool: Seq<MovingTransition>, id: usize)
    ensures
        out_degree(pool, id) == 0 <==> !appears_in_froms(pool, id),
    decreases pool.len(),
{
    if pool.len() > 0 {
        let prefix = pool.drop_last();
        lemma_out_degree_zero(prefix, id);
        if appears_in_froms(pool, id) {
            let i = choose|i: int|
                0 <= i < pool.len() && #[trigger] pool[i].spec_from_ids().contains(id);
            if i < pool.len() - 1 {
                assert(prefix[i] == pool[i]);
                assert(appears_in_froms(prefix, id));
            } else {
                assert(pool.last() == pool[i]);
            }
        }
        if appears_in_froms(prefix, id) {
            let i = choose|i: int|
                0 <= i < prefix.len() && #[trigger] prefix[i].spec_from_ids().contains(id);
            assert(pool[i] == prefix[i]);
            assert(appears_in_froms(pool, id));
        }
        if pool.last().spec_from_ids().contains(id) {
            assert(pool[pool.len() - 1].spec_from_ids().contains(id));
            assert(appears_in_froms(pool, id));
        }
    }
}

/// A start state is exactly a state that appears among the sources and
/// nowhere among the destinations.
pub proof fn lemma_start_characterization(pool: Seq<MovingTransition>, id: usize)
    ensures
        is_start_state(pool, id) <==> appears_in_froms(pool, id) && !appears_in_tos(pool, id),
{
    lemma_in_degree_zero(pool, id);
}

/// An end state is exactly a state that appears among the destinations and
/// nowhere among the sources.
pub proof fn lemma_end_characterization(pool: Seq<MovingTransition>, id: usize)
    ensures
        is_end_state(pool, id) <==> appears_in_tos(pool, id) && !appears_in_froms(pool, id),
{
    lemma_out_degree_zero(pool, id);
}

/// Adding a transition that targets a state leaves that state with positive
/// in-degree: a former start state stops being one.
pub proof fn lemma_new_target_not_start(
    pool: Seq<MovingTransition>,
    t: MovingTransition,
    id: usize,
)
    requires
        t.spec_to_ids().contains(id),
    ensures
        !is_start_state(pool.push(t), id),
{
    let grown = pool.push(t);
    assert(grown[pool.len() as int] == t);
    assert(appears_in_tos(grown, id));
    lemma_in_degree_zero(grown, id);
}

/// A pool that chains the states `ids` in a line: transition `k` leads from
/// state `ids[k]` to state `ids[k + 1]`, and the states are all distinct.
pub open spec fn is_linear_chain(pool: Seq<MovingTransition>, ids: Seq<usize>) -> bool {
    &&& ids.len() == pool.len() + 1
    &&& ids.no_duplicates()
    &&& forall|k: int| 0 <= k < pool.len() ==> #[trigger] pool[k].spec_from_ids() == seq![ids[k]]
    &&& forall|k: int|
        0 <= k < pool.len() ==> #[trigger] pool[k].spec_to_ids() == seq![ids[k + 1]]
}

/// A linear chain has exactly one start state, the chain's first state, and
/// exactly one end state, the chain's last.
pub proof fn lemma_chain_start_end(pool: Seq<MovingTransition>, ids: Seq<usize>)
    requires
        pool.len() >= 1,
        is_linear_chain(pool, ids),
    ensures
        forall|id: usize| is_start_state(pool, id) <==> id == ids[0],
        forall|id: usize| is_end_state(pool, id) <==> id == ids[ids.len() - 1],
{
    let n = pool.len() as int;
    assert forall|id: usize| is_start_state(pool, id) <==> id == ids[0] by {
        lemma_start_characterization(pool, id);
        if id == ids[0] {
            assert(pool[0].spec_from_ids() == seq![ids[0]]);
            assert(pool[0].spec_from_ids()[0] == id);
            assert(pool[0].spec_from_ids().contains(id));
            assert(appears_in_froms(pool, id));
            if appears_in_tos(pool, id) {
                let k = choose|k: int|
                    0 <= k < pool.len() && #[trigger] pool[k].spec_to_ids().contains(id);
                assert(pool[k].spec_to_ids() == seq![ids[k + 1]]);
                assert(id == ids[k + 1]);
                assert(ids[0] == ids[k + 1]);
                assert(false);
            }
        }
        if is_start_state(pool, id) && id != ids[0] {
            if appears_in_froms(pool, id) {
                let k = choose|k: int|
                    0 <= k < pool.len() && #[trigger] pool[k].spec_from_ids().contains(id);
                assert(pool[k].spec_from_ids() == seq![ids[k]]);
                assert(id == ids[k]);
                assert(k >= 1);
                assert(pool[k - 1].spec_to_ids() == seq![ids[k]]);
                assert(pool[k - 1].spec_to_ids().contains(id));
                assert(appears_in_tos(pool, id));
            }
            assert(false);
        }
    }
    assert forall|id: usize| is_end_state(pool, id) <==> id == ids[ids.len() - 1] by {
        lemma_end_characterization(pool, id);
        if id == ids[ids.len() - 1] {
            assert(pool[n - 1].spec_to_ids() == seq![ids[n]]);
            assert(pool[n - 1].spec_to_ids()[0] == id);
            assert(pool[n - 1].spec_to_ids().contains(id));
            assert(appears_in_tos(pool, id));
            if appears_in_froms(pool, id) {
                let k = choose|k: int|
                    0 <= k < pool.len() && #[trigger] pool[k].spec_from_ids().contains(id);
                assert(pool[k].spec_from_ids() == seq![ids[k]]);
                assert(id == ids[k]);
                assert(ids[n] == ids[k]);
                assert(false);
            }
        }
        if is_end_state(pool, id) && id != ids[ids.len() - 1] {
            if appears_in_tos(pool, id) {
                let k = choose|k: int|
                    0 <= k < pool.len() && #[trigger] pool[k].spec_to_ids().contains(id);
                assert(pool[k].spec_to_ids() == seq![ids[k + 1]]);
                assert(id == ids[k + 1]);
                assert(k + 1 <= n - 1 || id == ids[n]);
                assert(k + 1 <= n - 1);
                assert(pool[k + 1].spec_from_ids() == seq![ids[k + 1]]);
                assert(pool[k + 1].spec_from_ids().contains(id));
                assert(appears_in_froms(pool, id));
            }
            assert(false);
        }
    }
}

/// The movement graph registry: owns the ordered pool of transitions.
#[derive(Debug)]
pub struct Botix {
    transitions: Vec<MovingTransition>,
}

impl Botix {
    /// The pool of transitions, in insertion order.
    pub closed spec fn spec_transitions(self) -> Seq<MovingTransition> {
        self.transitions@
    }

    /// A registry with an empty pool.
    pub fn new() -> (r: Self)
        ensures
            r.spec_transitions() == Seq::<MovingTransition>::empty(),
    {
        Botix { transitions: Vec::new() }
    }

    /// The pool of transitions, in insertion order.
    pub fn transitions(&self) -> (r: &Vec<MovingTransition>)
        ensures
            r@ == self.spec_transitions(),
    {
        &self.transitions
    }

    /// Appends a transition to the pool.
    pub fn add_transition(&mut self, transition: MovingTransition)
        ensures
            final(self).spec_transitions() == old(self).spec_transitions().push(transition),
    {
        self.transitions.push(transition);
    }

    /// Removes every transition with the given identity from the pool,
    /// keeping the order of the rest.
    pub fn remove_transition(&mut self, transition_id: usize)
        ensures
            final(self).spec_transitions() == old(self).spec_transitions().filter(
                |t: MovingTransition| t.spec_id() != transition_id,
            ),
    {
        let ghost pool = self.transitions@;
        let n = self.transitions.len();
        let mut kept: Vec<MovingTransition> = Vec::new();
        let mut i: usize = 0;
        proof {
            assert(pool.take(0) =~= Seq::<MovingTransition>::empty());
            reveal(Seq::filter);
        }
        while i < n
            invariant
                i <= n,
                n == pool.len(),
                self.transitions@ == pool.skip(i as int),
                kept@ == pool.take(i as int).filter(
                    |t: MovingTransition| t.spec_id() != transition_id,
                ),
            decreases n - i,
        {
            let t = self.transitions.remove(0);
            proof {
                assert(pool.skip(i as int)[0] == pool[i as int]);
                assert(pool.skip(i as int).remove(0) =~= pool.skip(i + 1));
                assert(pool.take(i + 1).drop_last() =~= pool.take(i as int));
                assert(pool.take(i + 1).last() == pool[i as int]);
                reveal(Seq::filter);
            }
            if t.id() != transition_id {
                kept.push(t);
            }
            i = i + 1;
        }
        proof {
            assert(pool.take(n as int) =~= pool);
        }
        self.transitions = kept;
    }

    /// Appends every given transition to the pool, in order.
    pub fn extend_transitions(&mut self, transitions: Vec<MovingTransition>)
        ensures
            final(self).spec_transitions() == old(self).spec_transitions() + transitions@,
    {
        let mut incoming = transitions;
        self.transitions.append(&mut incoming);
    }

    /// Empties the pool.
    pub fn clear_transitions(&mut self)
        ensures
            final(self).spec_transitions() == Seq::<MovingTransition>::empty(),
    {
        self.transitions.clear();
    }

    /// Identifiers of the start states: every state referenced by the pool
    /// whose in-degree is zero, each once.
    pub fn start_states(&self) -> (r: Vec<usize>)
        ensures
            r@.no_duplicates(),
            forall|id: usize| #[trigger] r@.contains(id) <==> is_start_state(
                self.spec_transitions(),
                id,
            ),
    {
        let candidates = self.collect_from_ids();
        let mut result: Vec<usize> = Vec::new();
        let n = candidates.len();
        let mut i: usize = 0;
        while i < n
            invariant
                i <= n,
                n == candidates@.len(),
                candidates@.no_duplicates(),
                forall|id: usize| #[trigger] candidates@.contains(id) <==> appears_in_froms(
                    self.spec_transitions(),
                    id,
                ),
                result@.no_duplicates(),
                forall|id: usize| #[trigger] result@.contains(id) <==> (
                candidates@.take(i as int).contains(id) && !appears_in_tos(
                    self.spec_transitions(),
                    id,
                )),
            decreases n - i,
        {
            let id = candidates[i];
            let in_tos = self.occurs_in_tos(id);
            let ghost res0 = result@;
            if !in_tos {
                proof {
                    if res0.contains(id) {
                        let j = choose|j: int|
                            0 <= j < i && candidates@.take(i as int)[j] == id;
                        assert(candidates@[j] == id);
                        assert(candidates@[i as int] == id);
                        assert(false);
                    }
                }
                result.push(id);
            }
            proof {
                assert forall|x: usize| #[trigger] candidates@.take(i + 1).contains(x) <==> (
                candidates@.take(i as int).contains(x) || x == candidates@[i as int]) by {
                    let part = candidates@.take(i + 1);
                    if part.contains(x) {
                        let k = choose|k: int| 0 <= k < part.len() && part[k] == x;
                        if k < i {
                            assert(candidates@.take(i as int)[k] == x);
                        }
                    }
                    if candidates@.take(i as int).contains(x) {
                        let k = choose|k: int|
                            0 <= k < i && candidates@.take(i as int)[k] == x;
                        assert(part[k] == x);
                    }
                    if x == candidates@[i as int] {
                        assert(part[i as int] == x);
                    }
                }
                if !in_tos {
                    assert forall|x: usize| #[trigger] result@.contains(x) <==> (res0.contains(x)
                        || x == id) by {
                        lemma_push_contains(res0, id, x);
                    }
                    lemma_push_nodup(res0, id);
                }
            }
            i = i + 1;
        }
        proof {
            assert(candidates@.take(n as int) =~= candidates@);
            assert forall|id: usize| #[trigger] result@.contains(id) <==> is_start_state(
                self.spec_transitions(),
                id,
            ) by {
                lemma_start_characterization(self.spec_transitions(), id);
            }
        }
        result
    }

    /// Identifiers of the end states: every state referenced by the pool
    /// whose out-degree is zero, each once.
    pub fn end_states(&self) -> (r: Vec<usize>)
        ensures
            r@.no_duplicates(),
            forall|id: usize| #[trigger] r@.contains(id) <==> is_end_state(
                self.spec_transitions(),
                id,
            ),
    {
        let candidates = self.collect_to_ids();
        let mut result: Vec<usize> = Vec::new();
        let n = candidates.len();
        let mut i: usize = 0;
        while i < n
            invariant
                i <= n,
                n == candidates@.len(),
                candidates@.no_duplicates(),
                forall|id: usize| #[trigger] candidates@.contains(id) <==> appears_in_tos(
                    self.spec_transitions(),
                    id,
                ),
                result@.no_duplicates(),
                forall|id: usize| #[trigger] result@.contains(id) <==> (
                candidates@.take(i as int).contains(id) && !appears_in_froms(
                    self.spec_transitions(),
                    id,
                )),
            decreases n - i,
        {
            let id = candidates[i];
            let in_froms = self.occurs_in_froms(id);
            let ghost res0 = result@;
            if !in_froms {
                proof {
                    if res0.contains(id) {
                        let j = choose|j: int|
                            0 <= j < i && candidates@.take(i as int)[j] == id;
                        assert(candidates@[j] == id);
                        assert(candidates@[i as int] == id);
                        assert(false);
                    }
                }
                result.push(id);
            }
            proof {
                assert forall|x: usize| #[trigger] candidates@.take(i + 1).contains(x) <==> (
                candidates@.take(i as int).contains(x) || x == candidates@[i as int]) by {
                    let part = candidates@.take(i + 1);
                    if part.contains(x) {
                        let k = choose|k: int| 0 <= k < part.len() && part[k] == x;
                        if k < i {
                            assert(candidates@.take(i as int)[k] == x);
                        }
                    }
                    if candidates@.take(i as int).contains(x) {
                        let k = choose|k: int|
                            0 <= k < i && candidates@.take(i as int)[k] == x;
                        assert(part[k] == x);
                    }
                    if x == candidates@[i as int] {
                        assert(part[i as int] == x);
                    }
                }
                if !in_froms {
                    assert forall|x: usize| #[trigger] result@.contains(x) <==> (res0.contains(x)
                        || x == id) by {
                        lemma_push_contains(res0, id, x);
                    }
                    lemma_push_nodup(res0, id);
                }
            }
            i = i + 1;
        }
        proof {
            assert(candidates@.take(n as int) =~= candidates@);
            assert forall|id: usize| #[trigger] result@.contains(id) <==> is_end_state(
                self.spec_transitions(),
                id,
            ) by {
                lemma_end_characterization(self.spec_transitions(), id);
            }
        }
        result
    }

    /// Checks the single-entry-point invariant: succeeds exactly when the
    /// pool has one start state, and names the failure otherwise.
    pub fn validate(&self) -> (r: Result<(), StructuralError>)
        ensures
            r is Ok <==> ((exists|id: usize| is_start_state(self.spec_transitions(), id))
                && (forall|a: usize, b: usize|
                is_start_state(self.spec_transitions(), a) && is_start_state(
                    self.spec_transitions(),
                    b,
                ) ==> a == b)),
            r == Err::<(), StructuralError>(StructuralError::NoStartState) <==> !(exists|id: usize|
                is_start_state(self.spec_transitions(), id)),
            r == Err::<(), StructuralError>(StructuralError::MultipleStartStates)
                <==> (exists|a: usize, b: usize|
                is_start_state(self.spec_transitions(), a) && is_start_state(
                    self.spec_transitions(),
                    b,
                ) && a != b),
    {
        let starts = self.start_states();
        if starts.len() == 0 {
            proof {
                assert forall|id: usize| !is_start_state(self.spec_transitions(), id) by {
                    assert(!starts@.contains(id));
                }
            }
            Err(StructuralError::NoStartState)
        } else if starts.len() == 1 {
            let ghost witness = starts@[0];
            proof {
                assert(starts@.contains(witness));
                assert(is_start_state(self.spec_transitions(), witness));
                assert forall|a: usize, b: usize|
                    is_start_state(self.spec_transitions(), a) && is_start_state(
                        self.spec_transitions(),
                        b,
                    ) implies a == b by {
                    assert(starts@.contains(a));
                    assert(starts@.contains(b));
                    let i = choose|i: int| 0 <= i < starts@.len() && starts@[i] == a;
                    let j = choose|j: int| 0 <= j < starts@.len() && starts@[j] == b;
                    assert(i == 0 && j == 0);
                }
            }
            Ok(())
        } else {
            let ghost a = starts@[0];
            let ghost b = starts@[1];
            proof {
                assert(starts@.contains(a));
                assert(starts@.contains(b));
                assert(a != b);
                assert(is_start_state(self.spec_transitions(), a));
                assert(is_start_state(self.spec_transitions(), b));
            }
            Err(StructuralError::MultipleStartStates)
        }
    }

    /// Position of the first transition that can leave the state
    /// `state_id`, or nothing when no transition can: the state is an end
    /// state of the pool.
    pub fn next_transition_index(&self, state_id: usize) -> (r: Option<usize>)
        ensures
            r matches Some(i) ==> i < self.spec_transitions().len() && self.spec_transitions()[
                i as int
            ].spec_from_ids().contains(state_id) && (forall|k: int|
                0 <= k < i ==> !#[trigger] self.spec_transitions()[k].spec_from_ids().contains(
                    state_id,
                )),
            r is None ==> !appears_in_froms(self.spec_transitions(), state_id),
    {
        let ghost pool = self.spec_transitions();
        let n = self.transitions.len();
        let mut i: usize = 0;
        while i < n
            invariant
                i <= n,
                n == pool.len(),
                self.spec_transitions() == pool,
                forall|k: int| 0 <= k < i ==> !#[trigger] pool[k].spec_from_ids().contains(
                    state_id,
                ),
            decreases n - i,
        {
            let froms = self.transitions[i].from_states();
            let m = froms.len();
            let mut j: usize = 0;
            while j < m
                invariant
                    j <= m,
                    i < n,
                    n == pool.len(),
                    self.spec_transitions() == pool,
                    froms@ == pool[i as int].spec_froms(),
                    m == froms@.len(),
                    forall|k: int| 0 <= k < i ==> !#[trigger] pool[k].spec_from_ids().contains(
                        state_id,
                    ),
                    forall|l: int| 0 <= l < j ==> pool[i as int].spec_from_ids()[l] != state_id,
                decreases m - j,
            {
                if froms[j].id() == state_id {
                    proof {
                        assert(pool[i as int].spec_from_ids()[j as int] == state_id);
                        assert(pool[i as int].spec_from_ids().contains(state_id));
                    }
                    return Some(i);
                }
                j = j + 1;
            }
            proof {
                if pool[i as int].spec_from_ids().contains(state_id) {
                    let l = choose|l: int|
                        0 <= l < pool[i as int].spec_from_ids().len() && pool[
                            i as int
                        ].spec_from_ids()[l] == state_id;
                    assert(false);
                }
            }
            i = i + 1;
        }
        None
    }

    /// Every identifier listed as a source anywhere in the pool, each once.
    fn collect_from_ids(&self) -> (r: Vec<usize>)
        ensures
            r@.no_duplicates(),
            forall|id: usize| #[trigger] r@.contains(id) <==> appears_in_froms(
                self.spec_transitions(),
                id,
            ),
    {
        let ghost pool = self.spec_transitions();
        let mut acc: Vec<usize> = Vec::new();
        let n = self.transitions.len();
        let mut i: usize = 0;
        proof {
            assert forall|id: usize| !appears_in_froms(pool.take(0), id) by {
                assert(pool.take(0).len() == 0);
            }
        }
        while i < n
            invariant
                i <= n,
                n == pool.len(),
                self.spec_transitions() == pool,
                acc@.no_duplicates(),
                forall|id: usize| #[trigger] acc@.contains(id) <==> appears_in_froms(
                    pool.take(i as int),
                    id,
                ),
            decreases n - i,
        {
            let t = &self.transitions[i];
            let froms = t.from_states();
            let m = froms.len();
            let mut j: usize = 0;
            while j < m
                invariant
                    j <= m,
                    i < n,
                    n == pool.len(),
                    self.spec_transitions() == pool,
                    froms@ == pool[i as int].spec_froms(),
                    m == froms@.len(),
                    acc@.no_duplicates(),
                    forall|id: usize| #[trigger] acc@.contains(id) <==> (appears_in_froms(
                        pool.take(i as int),
                        id,
                    ) || pool[i as int].spec_from_ids().take(j as int).contains(id)),
                decreases m - j,
            {
                let sid = froms[j].id();
                let already = contains_id(&acc, sid);
                let ghost acc0 = acc@;
                if !already {
                    acc.push(sid);
                }
                proof {
                    if !already {
                        assert forall|x: usize| #[trigger] acc@.contains(x) <==> (acc0.contains(x)
                            || x == sid) by {
                            lemma_push_contains(acc0, sid, x);
                        }
                        lemma_push_nodup(acc0, sid);
                    }
                    let fids = pool[i as int].spec_from_ids();
                    assert(fids[j as int] == sid);
                    assert forall|x: usize| #[trigger] fids.take(j + 1).contains(x) <==> (
                    fids.take(j as int).contains(x) || x == sid) by {
                        let part = fids.take(j + 1);
                        if part.contains(x) {
                            let k = choose|k: int| 0 <= k < part.len() && part[k] == x;
                            if k < j {
                                assert(fids.take(j as int)[k] == x);
                            }
                        }
                        if fids.take(j as int).contains(x) {
                            let k = choose|k: int| 0 <= k < j && fids.take(j as int)[k] == x;
                            assert(part[k] == x);
                        }
                        if x == sid {
                            assert(part[j as int] == x);
                        }
                    }
                }
                j = j + 1;
            }
            proof {
                let fids = pool[i as int].spec_from_ids();
                assert(fids.take(m as int) =~= fids);
                assert(pool.take(i + 1).drop_last() =~= pool.take(i as int));
                assert(pool.take(i + 1).last() == pool[i as int]);
                assert forall|id: usize| appears_in_froms(pool.take(i + 1), id) <==> (
                appears_in_froms(pool.take(i as int), id) || fids.contains(id)) by {
                    let longer = pool.take(i + 1);
                    let shorter = pool.take(i as int);
                    if appears_in_froms(longer, id) {
                        let k = choose|k: int|
                            0 <= k < longer.len() && #[trigger] longer[k].spec_from_ids().contains(
                                id,
                            );
                        if k < i {
                            assert(shorter[k] == longer[k]);
                            assert(appears_in_froms(shorter, id));
                        } else {
                            assert(longer[k] == pool[i as int]);
                        }
                    }
                    if appears_in_froms(shorter, id) {
                        let k = choose|k: int|
                            0 <= k < shorter.len() && #[trigger] shorter[k].spec_from_ids().contains(
                                id,
                            );
                        assert(longer[k] == shorter[k]);
                        assert(appears_in_froms(longer, id));
                    }
                    if fids.contains(id) {
                        assert(longer[i as int] == pool[i as int]);
                        assert(appears_in_froms(longer, id));
                    }
                }
            }
            i = i + 1;
        }
        proof {
            assert(pool.take(n as int) =~= pool);
        }
        acc
    }

    /// Every identifier listed as a destination anywhere in the pool, each
    /// once.
    fn collect_to_ids(&self) -> (r: Vec<usize>)
        ensures
            r@.no_duplicates(),
            forall|id: usize| #[trigger] r@.contains(id) <==> appears_in_tos(
                self.spec_transitions(),
                id,
            ),
    {
        let ghost pool = self.spec_transitions();
        let mut acc: Vec<usize> = Vec::new();
        let n = self.transitions.len();
        let mut i: usize = 0;
        proof {
            assert forall|id: usize| !appears_in_tos(pool.take(0), id) by {
                assert(pool.take(0).len() == 0);
            }
        }
        while i < n
            invariant
                i <= n,
                n == pool.len(),
                self.spec_transitions() == pool,
                acc@.no_duplicates(),
                forall|id: usize| #[trigger] acc@.contains(id) <==> appears_in_tos(
                    pool.take(i as int),
                    id,
                ),
            decreases n - i,
        {
            let t = &self.transitions[i];
            let tos = t.to_states();
            let m = tos.len();
            let mut j: usize = 0;
            while j < m
                invariant
                    j <= m,
                    i < n,
                    n == pool.len(),
                    self.spec_transitions() == pool,
                    tos@ == pool[i as int].spec_tos(),
                    m == tos@.len(),
                    acc@.no_duplicates(),
                    forall|id: usize| #[trigger] acc@.contains(id) <==> (appears_in_tos(
                        pool.take(i as int),
                        id,
                    ) || pool[i as int].spec_to_ids().take(j as int).contains(id)),
                decreases m - j,
            {
                let sid = tos[j].1.id();
                let already = contains_id(&acc, sid);
                let ghost acc0 = acc@;
                if !already {
                    acc.push(sid);
                }
                proof {
                    if !already {
                        assert forall|x: usize| #[trigger] acc@.contains(x) <==> (acc0.contains(x)
                            || x == sid) by {
                            lemma_push_contains(acc0, sid, x);
                        }
                        lemma_push_nodup(acc0, sid);
                    }
                    let tids = pool[i as int].spec_to_ids();
                    assert(tids[j as int] == sid);
                    assert forall|x: usize| #[trigger] tids.take(j + 1).contains(x) <==> (
                    tids.take(j as int).contains(x) || x == sid) by {
                        let part = tids.take(j + 1);
                        if part.contains(x) {
                            let k = choose|k: int| 0 <= k < part.len() && part[k] == x;
                            if k < j {
                                assert(tids.take(j as int)[k] == x);
                            }
                        }
                        if tids.take(j as int).contains(x) {
                            let k = choose|k: int| 0 <= k < j && tids.take(j as int)[k] == x;
                            assert(part[k] == x);
                        }
                        if x == sid {
                            assert(part[j as int] == x);
                        }
                    }
                }
                j = j + 1;
            }
            proof {
                let tids = pool[i as int].spec_to_ids();
                assert(tids.take(m as int) =~= tids);
                assert(pool.take(i + 1).drop_last() =~= pool.take(i as int));
                assert(pool.take(i + 1).last() == pool[i as int]);
                assert forall|id: usize| appears_in_tos(pool.take(i + 1), id) <==> (
                appears_in_tos(pool.take(i as int), id) || tids.contains(id)) by {
                    let longer = pool.take(i + 1);
                    let shorter = pool.take(i as int);
                    if appears_in_tos(longer, id) {
                        let k = choose|k: int|
                            0 <= k < longer.len() && #[trigger] longer[k].spec_to_ids().contains(
                                id,
                            );
                        if k < i {
                            assert(shorter[k] == longer[k]);
                            assert(appears_in_tos(shorter, id));
                        } else {
                            assert(longer[k] == pool[i as int]);
                        }
                    }
                    if appears_in_tos(shorter, id) {
                        let k = choose|k: int|
                            0 <= k < shorter.len() && #[trigger] shorter[k].spec_to_ids().contains(
                                id,
                            );
                        assert(longer[k] == shorter[k]);
                        assert(appears_in_tos(longer, id));
                    }
                    if tids.contains(id) {
                        assert(longer[i as int] == pool[i as int]);
                        assert(appears_in_tos(longer, id));
                    }
                }
            }
            i = i + 1;
        }
        proof {
            assert(pool.take(n as int) =~= pool);
        }
        acc
    }

    /// Whether any transition lists `id` among its sources.
    fn occurs_in_froms(&self, id: usize) -> (r: bool)
        ensures
            r <==> appears_in_froms(self.spec_transitions(), id),
    {
        let ghost pool = self.spec_transitions();
        let n = self.transitions.len();
        let mut i: usize = 0;
        while i < n
            invariant
                i <= n,
                n == pool.len(),
                self.spec_transitions() == pool,
                forall|k: int| 0 <= k < i ==> !#[trigger] pool[k].spec_from_ids().contains(id),
            decreases n - i,
        {
            let froms = self.transitions[i].from_states();
            let m = froms.len();
            let mut j: usize = 0;
            while j < m
                invariant
                    j <= m,
                    i < n,
                    n == pool.len(),
                    self.spec_transitions() == pool,
                    froms@ == pool[i as int].spec_froms(),
                    m == froms@.len(),
                    forall|l: int| 0 <= l < j ==> pool[i as int].spec_from_ids()[l] != id,
                decreases m - j,
            {
                if froms[j].id() == id {
                    proof {
                        assert(pool[i as int].spec_from_ids()[j as int] == id);
                        assert(pool[i as int].spec_from_ids().contains(id));
                    }
                    return true;
                }
                j = j + 1;
            }
            proof {
                if pool[i as int].spec_from_ids().contains(id) {
                    let l = choose|l: int|
                        0 <= l < pool[i as int].spec_from_ids().len() && pool[
                            i as int
                        ].spec_from_ids()[l] == id;
                    assert(false);
                }
            }
            i = i + 1;
        }
        false
    }

    /// Whether any transition lists `id` among its destinations.
    fn occurs_in_tos(&self, id: usize) -> (r: bool)
        ensures
            r <==> appears_in_tos(self.spec_transitions(), id),
    {
        let ghost pool = self.spec_transitions();
        let n = self.transitions.len();
        let mut i: usize = 0;
        while i < n
            invariant
                i <= n,
                n == pool.len(),
                self.spec_transitions() == pool,
                forall|k: int| 0 <= k < i ==> !#[trigger] pool[k].spec_to_ids().contains(id),
            decreases n - i,
        {
            let tos = self.transitions[i].to_states();
            let m = tos.len();
            let mut j: usize = 0;
            while j < m
                invariant
                    j <= m,
                    i < n,
                    n == pool.len(),
                    self.spec_transitions() == pool,
                    tos@ == pool[i as int].spec_tos(),
                    m == tos@.len(),
                    forall|l: int| 0 <= l < j ==> pool[i as int].spec_to_ids()[l] != id,
                decreases m - j,
            {
                if tos[j].1.id() == id {
                    proof {
                        assert(pool[i as int].spec_to_ids()[j as int] == id);
                        assert(pool[i as int].spec_to_ids().contains(id));
                    }
                    return true;
                }
                j = j + 1;
            }
            proof {
                if pool[i as int].spec_to_ids().contains(id) {
                    let l = choose|l: int|
                        0 <= l < pool[i as int].spec_to_ids().len() && pool[
                            i as int
                        ].spec_to_ids()[l] == id;
                    assert(false);
                }
            }
            i = i + 1;
        }
        false
    }
}

/// Appending an element extends exactly by that element what a sequence
/// holds.
proof fn lemma_push_contains(s: Seq<usize>, x: usize, y: usize)
    ensures
        s.push(x).contains(y) <==> (s.contains(y) || y == x),
{
    if s.push(x).contains(y) {
        let k = choose|k: int| 0 <= k < s.push(x).len() && s.push(x)[k] == y;
        if k < s.len() {
            assert(s[k] == y);
            assert(s.contains(y));
        }
    }
    if s.contains(y) {
        let k = choose|k: int| 0 <= k < s.len() && s[k] == y;
        assert(s.push(x)[k] == y);
    }
    assert(s.push(x)[s.len() as int] == x);
}

/// Appending an element a sequence does not hold keeps it duplicate-free.
proof fn lemma_push_nodup(s: Seq<usize>, x: usize)
    requires
        s.no_duplicates(),
        !s.contains(x),
    ensures
        s.push(x).no_duplicates(),
{
    assert forall|i: int, j: int|
        0 <= i < j < s.push(x).len() implies s.push(x)[i] != s.push(x)[j] by {
        if j < s.len() {
            assert(s[i] != s[j]);
        } else {
            if s.push(x)[i] == x {
                assert(s[i] == x);
                assert(s.contains(x));
            }
        }
    }
}

/// Whether `v` holds `id`.
fn contains_id(v: &Vec<usize>, id: usize) -> (r: bool)
    ensures
        r <==> v@.contains(id),
{
    let n = v.len();
    let mut i: usize = 0;
    while i < n
        invariant
            i <= n,
            n == v@.len(),
            forall|k: int| 0 <= k < i ==> v@[k] != id,
        decreases n - i,
    {
        if v[i] == id {
            proof {
                assert(v@[i as int] == id);
            }
            return true;
        }
        i = i + 1;
    }
    proof {
        if v@.contains(id) {
            let k = choose|k: int| 0 <= k < v@.len() && v@[k] == id;
            assert(false);
        }
    }
    false
}

} // verus!
