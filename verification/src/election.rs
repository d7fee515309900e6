//! Election of the primary agent among the candidates that accept an input.
use vstd::prelude::*;

use crate::text::{lemma_lex_lt_irreflexive, lemma_lex_lt_transitive, lex_lt, str_lt};

verus! {

#[derive(Clone, Debug, PartialEq, Eq)]
pub struct ElectionCandidate {
    pub agent_id: String,
    pub priority: i64,
}

/// Chooses one agent among candidates that already passed the runtime's filters.
/// Implementations are supplied by the runtime's users.
pub trait ElectionPolicy {
    fn select(&self, candidates: &[ElectionCandidate]) -> Option<String>;
}

/// `a` wins over `b`: higher priority first, then the smaller agent id.
pub open spec fn outranks(a: ElectionCandidate, b: ElectionCandidate) -> bool {
    a.priority > b.priority || (a.priority == b.priority && lex_lt(a.agent_id@, b.agent_id@))
}

/// `candidates[i]` is not outranked by any candidate.
pub open spec fn is_top(candidates: Seq<ElectionCandidate>, i: int) -> bool {
    0 <= i < candidates.len() && forall|j: int|
        0 <= j < candidates.len() ==> !outranks(#[trigger] candidates[j], candidates[i])
}

proof fn lemma_outranks_transitive(a: ElectionCandidate, b: ElectionCandidate, c: ElectionCandidate)
    requires
        outranks(a, b),
        outranks(b, c),
    ensures
        outranks(a, c),
{
    if a.priority == b.priority && b.priority == c.priority {
        lemma_lex_lt_transitive(a.agent_id@, b.agent_id@, c.agent_id@);
    }
}

/// Two top candidates carry the same agent id: the election's answer is unique.
pub proof fn lemma_top_is_unique(candidates: Seq<ElectionCandidate>, i: int, j: int)
    requires
        is_top(candidates, i),
        is_top(candidates, j),
    ensures
        candidates[i].priority == candidates[j].priority,
        candidates[i].agent_id@ == candidates[j].agent_id@,
{
    let a = candidates[i];
    let b = candidates[j];
    assert(!outranks(a, b) && !outranks(b, a));
    if a.agent_id@ != b.agent_id@ {
        lemma_lex_lt_total(a.agent_id@, b.agent_id@);
    }
}

/// The election does not depend on the order of the candidates: in two
/// arrangements of the same candidates, the top candidates carry the same agent
/// id and priority.
pub proof fn lemma_top_ignores_order(a: Seq<ElectionCandidate>, b: Seq<ElectionCandidate>, i: int, j: int)
    requires
        a.to_multiset() == b.to_multiset(),
        is_top(a, i),
        is_top(b, j),
    ensures
        a[i].priority == b[j].priority,
        a[i].agent_id@ == b[j].agent_id@,
{
    broadcast use vstd::seq_lib::group_to_multiset_ensures;

    assert(a.to_multiset().count(a[i]) > 0);
    assert(b.contains(a[i]));
    let k = choose|k: int| 0 <= k < b.len() && b[k] == a[i];
    assert forall|m: int| 0 <= m < b.len() implies !outranks(#[trigger] b[m], b[k]) by {
        assert(b.to_multiset().count(b[m]) > 0);
        assert(a.contains(b[m]));
        let n = choose|n: int| 0 <= n < a.len() && a[n] == b[m];
        assert(!outranks(a[n], a[i]));
    }
    assert(is_top(b, k));
    lemma_top_is_unique(b, k, j);
}

proof fn lemma_lex_lt_total(a: Seq<char>, b: Seq<char>)
    requires
        a != b,
    ensures
        lex_lt(a, b) || lex_lt(b, a),
    decreases a.len(),
{
    if a.len() == 0 && b.len() == 0 {
        assert(a =~= b);
    } else if a.len() > 0 && b.len() > 0 && a[0] == b[0] {
        assert(a =~= seq![a[0]] + a.drop_first());
        assert(b =~= seq![b[0]] + b.drop_first());
        lemma_lex_lt_total(a.drop_first(), b.drop_first());
    }
}

/// Highest priority wins; ties go to the smallest agent id.
#[derive(Clone, Debug, Default)]
pub struct PriorityElectionPolicy;

impl ElectionPolicy for PriorityElectionPolicy {
    fn select(&self, candidates: &[ElectionCandidate]) -> (r: Option<String>)
        ensures
            r is None <==> candidates@.len() == 0,
            r matches Some(id) ==> exists|i: int|
                is_top(candidates@, i) && #[trigger] candidates@[i].agent_id@ == id@,
    {
        if candidates.len() == 0 {
            return None;
        }
        let mut best: usize = 0;
        let mut i: usize = 1;
        proof {
            lemma_lex_lt_irreflexive(candidates@[0].agent_id@);
        }
        while i < candidates.len()
            invariant
                1 <= i <= candidates.len(),
                best < i,
                forall|j: int| 0 <= j < i ==> !outranks(#[trigger] candidates@[j], candidates@[best as int]),
            decreases candidates.len() - i,
        {
            let c = &candidates[i];
            let b = &candidates[best];
            let wins = c.priority > b.priority || (c.priority == b.priority && str_lt(
                c.agent_id.as_str(),
                b.agent_id.as_str(),
            ));
            if wins {
                proof {
                    assert forall|j: int| 0 <= j <= i implies !outranks(
                        #[trigger] candidates@[j],
                        candidates@[i as int],
                    ) by {
                        if j < i && outranks(candidates@[j], candidates@[i as int]) {
                            lemma_outranks_transitive(
                                candidates@[j],
                                candidates@[i as int],
                                candidates@[best as int],
                            );
                        }
                        if j == i {
                            lemma_lex_lt_irreflexive(candidates@[j].agent_id@);
                        }
                    }
                }
                best = i;
            }
            i = i + 1;
        }
        let id = candidates[best].agent_id.clone();
        assert(is_top(candidates@, best as int));
        Some(id)
    }
}

} // verus!
