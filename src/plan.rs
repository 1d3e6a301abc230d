//! Reaction counts and working-solution keys of a qPCR experiment.
use vstd::prelude::*;

verus! {

/// The experimental design: targets (gene names), technical replicates per
/// group and target, and sample groups.
pub struct Samples {
    pub targets: Vec<String>,
    pub repeat: usize,
    pub groups: Vec<String>,
}

/// What the volume arithmetic needs: the reaction count of one target, the
/// reaction count of the whole experiment, and the targets that receive a
/// working solution (each name once, in order of first appearance). The count
/// of one target is `None` where it does not fit in a `usize`, which a plan
/// allows only when there is no target to use it.
pub struct ReactionPlan {
    pub reactions_per_target: Option<usize>,
    pub total_reactions: usize,
    pub working_targets: Vec<String>,
}

/// The names held by a sequence of strings.
pub open spec fn names(v: Seq<String>) -> Seq<Seq<char>> {
    v.map_values(|s: String| s@)
}

/// Reactions of one target: one per group and replicate.
pub open spec fn reactions_per_target_of(n_groups: nat, repeat: nat) -> nat {
    n_groups * repeat
}

/// Reactions of the experiment: those of one target, for every target.
pub open spec fn total_reactions_of(n_groups: nat, repeat: nat, n_targets: nat) -> nat {
    reactions_per_target_of(n_groups, repeat) * n_targets
}

/// The names of `s` with later repetitions dropped, in order of first appearance.
pub open spec fn first_occurrences(s: Seq<Seq<char>>) -> Seq<Seq<char>>
    decreases s.len(),
{
    if s.len() == 0 {
        Seq::empty()
    } else {
        let prefix = first_occurrences(s.drop_last());
        if prefix.contains(s.last()) {
            prefix
        } else {
            prefix.push(s.last())
        }
    }
}

/// Every name of `first_occurrences(s)` is a name of `s`, and the other way round.
pub proof fn lemma_first_occurrences_members(s: Seq<Seq<char>>)
    ensures
        forall|x: Seq<char>| first_occurrences(s).contains(x) <==> s.contains(x),
    decreases s.len(),
{
    if s.len() > 0 {
        let init = s.drop_last();
        lemma_first_occurrences_members(init);
        let p = first_occurrences(init);
        assert forall|x: Seq<char>| s.contains(x) <==> (init.contains(x) || x == s.last()) by {
            if s.contains(x) && x != s.last() {
                let k = choose|k: int| 0 <= k < s.len() && s[k] == x;
                assert(k != s.len() - 1);
                assert(init[k] == x);
            }
            if init.contains(x) {
                let k = choose|k: int| 0 <= k < init.len() && init[k] == x;
                assert(s[k] == x);
            }
            if x == s.last() {
                assert(s[s.len() - 1] == x);
            }
        }
        assert forall|x: Seq<char>| first_occurrences(s).contains(x) <==> (p.contains(x) || x == s.last()) by {
            if !p.contains(s.last()) {
                let q = p.push(s.last());
                assert(q[p.len() as int] == s.last());
                if q.contains(x) && x != s.last() {
                    let k = choose|k: int| 0 <= k < q.len() && q[k] == x;
                    assert(p[k] == x);
                }
                if p.contains(x) {
                    let k = choose|k: int| 0 <= k < p.len() && p[k] == x;
                    assert(q[k] == x);
                }
            }
        }
    }
}

/// `first_occurrences(s)` holds no name twice.
pub proof fn lemma_first_occurrences_distinct(s: Seq<Seq<char>>)
    ensures
        first_occurrences(s).no_duplicates(),
    decreases s.len(),
{
    if s.len() > 0 {
        lemma_first_occurrences_distinct(s.drop_last());
    }
}

/// Whether `name` is among the names of `v`.
fn contains_name(v: &Vec<String>, name: &String) -> (r: bool)
    ensures
        r == names(v@).contains(name@),
{
    let mut j: usize = 0;
    while j < v.len()
        invariant
            0 <= j <= v.len(),
            forall|k: int| 0 <= k < j ==> v@[k]@ != name@,
        decreases v.len() - j,
    {
        if v[j] == *name {
            assert(names(v@)[j as int] == name@);
            return true;
        }
        j = j + 1;
    }
    proof {
        if names(v@).contains(name@) {
            let k = choose|k: int| 0 <= k < names(v@).len() && names(v@)[k] == name@;
            assert(v@[k]@ == name@);
        }
    }
    false
}

/// The targets that receive a working solution: each name of `targets` once,
/// in order of first appearance, so that a repeated name gives one entry.
pub fn distinct_targets(targets: &Vec<String>) -> (r: Vec<String>)
    ensures
        names(r@) == first_occurrences(names(targets@)),
        names(r@).no_duplicates(),
        forall|x: Seq<char>| names(r@).contains(x) <==> names(targets@).contains(x),
{
    let mut keys: Vec<String> = Vec::new();
    let mut i: usize = 0;
    while i < targets.len()
        invariant
            0 <= i <= targets.len(),
            names(keys@) == first_occurrences(names(targets@).take(i as int)),
        decreases targets.len() - i,
    {
        let t = &targets[i];
        let seen = contains_name(&keys, t);
        proof {
            let s = names(targets@).take(i as int + 1);
            assert(s.drop_last() =~= names(targets@).take(i as int));
            assert(s.last() == t@);
        }
        if !seen {
            keys.push(t.clone());
            assert(names(keys@) =~= first_occurrences(names(targets@).take(i as int)).push(t@));
        }
        i = i + 1;
    }
    assert(names(targets@).take(targets.len() as int) =~= names(targets@));
    proof {
        lemma_first_occurrences_distinct(names(targets@));
        lemma_first_occurrences_members(names(targets@));
    }
    keys
}

/// Whether the reaction counts of `samples` fit in a `usize`.
pub open spec fn counts_fit(samples: &Samples) -> bool {
    &&& reactions_per_target_of(samples.groups@.len(), samples.repeat as nat) <= usize::MAX
    &&& total_reactions_of(samples.groups@.len(), samples.repeat as nat, samples.targets@.len())
        <= usize::MAX
}

/// The reaction plan of `samples`: `None` exactly when there are targets and
/// a reaction count does not fit in a `usize`. An empty target list gives no
/// reaction and no working solution, whatever the groups and replicates.
pub fn plan_reactions(samples: &Samples) -> (r: Option<ReactionPlan>)
    ensures
        r is Some <==> (samples.targets@.len() == 0 || counts_fit(samples)),
        r matches Some(p) ==> {
            &&& p.reactions_per_target is Some <==> reactions_per_target_of(
                samples.groups@.len(),
                samples.repeat as nat,
            ) <= usize::MAX
            &&& p.reactions_per_target matches Some(n) ==> n as nat == reactions_per_target_of(
                samples.groups@.len(),
                samples.repeat as nat,
            )
            &&& p.total_reactions as nat == total_reactions_of(
                samples.groups@.len(),
                samples.repeat as nat,
                samples.targets@.len(),
            )
            &&& names(p.working_targets@) == first_occurrences(names(samples.targets@))
            &&& names(p.working_targets@).no_duplicates()
            &&& forall|x: Seq<char>|
                names(p.working_targets@).contains(x) <==> names(samples.targets@).contains(x)
        },
        samples.targets@.len() == 0 ==> (r matches Some(p) && p.total_reactions == 0
            && p.working_targets@.len() == 0),
{
    let per_target = samples.groups.len().checked_mul(samples.repeat);
    if samples.targets.len() == 0 {
        let working_targets = distinct_targets(&samples.targets);
        proof {
            assert(names(samples.targets@).len() == 0);
            assert(first_occurrences(names(samples.targets@)).len() == 0);
            assert(total_reactions_of(samples.groups@.len(), samples.repeat as nat, 0) == 0)
                by (nonlinear_arith);
        }
        return Some(
            ReactionPlan { reactions_per_target: per_target, total_reactions: 0, working_targets },
        );
    }
    let n = match per_target {
        Some(n) => n,
        None => {
            return None;
        },
    };
    let total = match n.checked_mul(samples.targets.len()) {
        Some(t) => t,
        None => {
            return None;
        },
    };
    let working_targets = distinct_targets(&samples.targets);
    Some(ReactionPlan { reactions_per_target: per_target, total_reactions: total, working_targets })
}

} // verus!
