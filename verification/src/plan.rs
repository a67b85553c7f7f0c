use vstd::prelude::*;
use crate::buffer::views_of;

verus! {

/// What the caller found when it checked one destination path without
/// following symbolic links: nothing there, something already there, or a
/// check that failed for another reason.
pub enum DestStat {
    NotFound,
    Exists,
    Failed { error: String },
}

/// The character-sequence views of a list of string pairs, in order.
pub open spec fn pair_views(ps: Seq<(String, String)>) -> Seq<(Seq<char>, Seq<char>)> {
    ps.map_values(|p: (String, String)| (p.0@, p.1@))
}

/// The character-sequence views of collected destination conflicts.
pub open spec fn conflict_views(ps: Seq<(String, Option<String>)>) -> Seq<
    (Seq<char>, Option<Seq<char>>),
> {
    ps.map_values(
        |p: (String, Option<String>)|
            (
                p.0@,
                match p.1 {
                    Some(e) => Some(e@),
                    None => None,
                },
            ),
    )
}

/// The destinations of a plan, in plan order.
pub open spec fn destinations_of(plan: Seq<(Seq<char>, Seq<char>)>) -> Seq<Seq<char>> {
    plan.map_values(|p: (Seq<char>, Seq<char>)| p.1)
}

/// The source-check failures among the first `n` paths: each path whose check
/// reported an error, paired with that error, in input order.
pub open spec fn source_failures(
    paths: Seq<Seq<char>>,
    outcomes: Seq<Option<String>>,
    n: int,
) -> Seq<(Seq<char>, Seq<char>)>
    decreases n,
{
    if n <= 0 {
        Seq::empty()
    } else {
        source_failures(paths, outcomes, n - 1) + (match outcomes[n - 1] {
            Some(e) => seq![(paths[n - 1], e@)],
            None => Seq::empty(),
        })
    }
}

/// The rename plan for the first `n` paths: original zipped with edited line,
/// keeping only the pairs that actually change the name, in input order.
pub open spec fn plan_of(olds: Seq<Seq<char>>, news: Seq<Seq<char>>, n: int) -> Seq<
    (Seq<char>, Seq<char>),
>
    decreases n,
{
    if n <= 0 {
        Seq::empty()
    } else {
        plan_of(olds, news, n - 1) + (if olds[n - 1] != news[n - 1] {
            seq![(olds[n - 1], news[n - 1])]
        } else {
            Seq::empty()
        })
    }
}

/// The destination conflicts among the first `n` plan entries: a destination
/// that exists is a conflict with no underlying error, one whose check failed
/// otherwise than "not found" is a conflict carrying that error, in plan
/// order.
pub open spec fn conflicts_of(
    dests: Seq<Seq<char>>,
    outcomes: Seq<DestStat>,
    n: int,
) -> Seq<(Seq<char>, Option<Seq<char>>)>
    decreases n,
{
    if n <= 0 {
        Seq::empty()
    } else {
        conflicts_of(dests, outcomes, n - 1) + (match outcomes[n - 1] {
            DestStat::NotFound => Seq::empty(),
            DestStat::Exists => seq![(dests[n - 1], None::<Seq<char>>)],
            DestStat::Failed { error } => seq![(dests[n - 1], Some(error@))],
        })
    }
}

/// Collects every path whose source check failed, with its error, in input
/// order.
pub fn collect_source_failures(paths: &Vec<String>, outcomes: &Vec<Option<String>>) -> (fails: Vec<
    (String, String),
>)
    requires
        paths@.len() == outcomes@.len(),
    ensures
        pair_views(fails@) == source_failures(views_of(paths@), outcomes@, paths@.len() as int),
{
    let mut fails: Vec<(String, String)> = Vec::new();
    let mut i: usize = 0;
    proof {
        assert(pair_views(fails@) =~= source_failures(views_of(paths@), outcomes@, 0));
    }
    while i < paths.len()
        invariant
            i <= paths@.len(),
            paths@.len() == outcomes@.len(),
            pair_views(fails@) == source_failures(views_of(paths@), outcomes@, i as int),
        decreases paths@.len() - i,
    {
        match &outcomes[i] {
            Some(e) => {
                let entry = (paths[i].clone(), e.clone());
                proof {
                    assert(pair_views(fails@.push((paths@[i as int], outcomes@[i as int]->0)))
                        =~= pair_views(fails@).push(
                        (paths@[i as int]@, outcomes@[i as int]->0@),
                    ));
                    assert(views_of(paths@)[i as int] == paths@[i as int]@);
                }
                fails.push(entry);
            },
            None => {},
        }
        i = i + 1;
    }
    fails
}

/// No source failures are collected exactly when every check succeeded.
pub proof fn lemma_source_failures_empty(
    paths: Seq<Seq<char>>,
    outcomes: Seq<Option<String>>,
    n: int,
)
    requires
        0 <= n <= outcomes.len(),
    ensures
        source_failures(paths, outcomes, n).len() == 0 <==> (forall|k: int|
            0 <= k < n ==> outcomes[k] is None),
    decreases n,
{
    if n > 0 {
        lemma_source_failures_empty(paths, outcomes, n - 1);
    }
}

/// Zips originals with edited lines and keeps the pairs that change the name.
pub fn make_plan(olds: &Vec<String>, news: &Vec<String>) -> (plan: Vec<(String, String)>)
    requires
        olds@.len() == news@.len(),
    ensures
        pair_views(plan@) == plan_of(views_of(olds@), views_of(news@), olds@.len() as int),
{
    let mut plan: Vec<(String, String)> = Vec::new();
    let mut i: usize = 0;
    proof {
        assert(pair_views(plan@) =~= plan_of(views_of(olds@), views_of(news@), 0));
    }
    while i < olds.len()
        invariant
            i <= olds@.len(),
            olds@.len() == news@.len(),
            pair_views(plan@) == plan_of(views_of(olds@), views_of(news@), i as int),
        decreases olds@.len() - i,
    {
        if !(olds[i] == news[i]) {
            let entry = (olds[i].clone(), news[i].clone());
            proof {
                assert(pair_views(plan@.push((olds@[i as int], news@[i as int]))) =~= pair_views(
                    plan@,
                ).push((olds@[i as int]@, news@[i as int]@)));
                assert(views_of(olds@)[i as int] == olds@[i as int]@);
                assert(views_of(news@)[i as int] == news@[i as int]@);
            }
            plan.push(entry);
        } else {
            proof {
                assert(views_of(olds@)[i as int] == views_of(news@)[i as int]);
                assert(pair_views(plan@) + Seq::<(Seq<char>, Seq<char>)>::empty() =~= pair_views(
                    plan@,
                ));
            }
        }
        i = i + 1;
    }
    plan
}

/// When every edited line equals its original, the plan is empty: there is
/// nothing to rename.
pub proof fn lemma_noop_plan_empty(olds: Seq<Seq<char>>, news: Seq<Seq<char>>, n: int)
    requires
        0 <= n <= olds.len(),
        olds.len() == news.len(),
        forall|k: int| 0 <= k < n ==> olds[k] == news[k],
    ensures
        plan_of(olds, news, n).len() == 0,
    decreases n,
{
    if n > 0 {
        lemma_noop_plan_empty(olds, news, n - 1);
    }
}

/// A plan never has more entries than there are paths: it is the zipped list
/// minus the pairs that change nothing.
pub proof fn lemma_plan_len_bound(olds: Seq<Seq<char>>, news: Seq<Seq<char>>, n: int)
    requires
        n >= 0,
    ensures
        plan_of(olds, news, n).len() <= n,
    decreases n,
{
    if n > 0 {
        lemma_plan_len_bound(olds, news, n - 1);
    }
}

/// The destinations of the plan, in plan order.
pub fn plan_destinations(plan: &Vec<(String, String)>) -> (dests: Vec<String>)
    ensures
        views_of(dests@) == destinations_of(pair_views(plan@)),
{
    let mut dests: Vec<String> = Vec::new();
    let mut i: usize = 0;
    while i < plan.len()
        invariant
            i <= plan@.len(),
            views_of(dests@) == destinations_of(pair_views(plan@)).take(i as int),
        decreases plan@.len() - i,
    {
        let d = plan[i].1.clone();
        proof {
            assert(views_of(dests@.push(plan@[i as int].1)) =~= views_of(dests@).push(
                plan@[i as int].1@,
            ));
            assert(destinations_of(pair_views(plan@))[i as int] == plan@[i as int].1@);
            assert(destinations_of(pair_views(plan@)).take(i + 1) =~= destinations_of(
                pair_views(plan@),
            ).take(i as int).push(destinations_of(pair_views(plan@))[i as int]));
        }
        dests.push(d);
        i = i + 1;
    }
    proof {
        assert(destinations_of(pair_views(plan@)).take(plan@.len() as int) =~= destinations_of(
            pair_views(plan@),
        ));
    }
    dests
}

/// Collects every conflicting destination of the plan, in plan order.
pub fn collect_conflicts(plan: &Vec<(String, String)>, outcomes: &Vec<DestStat>) -> (conflicts:
    Vec<(String, Option<String>)>)
    requires
        plan@.len() == outcomes@.len(),
    ensures
        conflict_views(conflicts@) == conflicts_of(
            destinations_of(pair_views(plan@)),
            outcomes@,
            plan@.len() as int,
        ),
{
    let ghost dests = destinations_of(pair_views(plan@));
    let mut conflicts: Vec<(String, Option<String>)> = Vec::new();
    let mut i: usize = 0;
    proof {
        assert(conflict_views(conflicts@) =~= conflicts_of(dests, outcomes@, 0));
    }
    while i < plan.len()
        invariant
            i <= plan@.len(),
            plan@.len() == outcomes@.len(),
            dests == destinations_of(pair_views(plan@)),
            conflict_views(conflicts@) == conflicts_of(dests, outcomes@, i as int),
        decreases plan@.len() - i,
    {
        proof {
            assert(dests[i as int] == plan@[i as int].1@);
        }
        match &outcomes[i] {
            DestStat::NotFound => {
                proof {
                    assert(conflict_views(conflicts@) + Seq::<
                        (Seq<char>, Option<Seq<char>>),
                    >::empty() =~= conflict_views(conflicts@));
                }
            },
            DestStat::Exists => {
                let entry = (plan[i].1.clone(), None);
                proof {
                    assert(conflict_views(conflicts@.push((plan@[i as int].1, None::<String>)))
                        =~= conflict_views(conflicts@).push(
                        (plan@[i as int].1@, None::<Seq<char>>),
                    ));
                }
                conflicts.push(entry);
            },
            DestStat::Failed { error } => {
                let entry = (plan[i].1.clone(), Some(error.clone()));
                proof {
                    assert(conflict_views(
                        conflicts@.push((plan@[i as int].1, Some(outcomes@[i as int]->error))),
                    ) =~= conflict_views(conflicts@).push(
                        (plan@[i as int].1@, Some(outcomes@[i as int]->error@)),
                    ));
                }
                conflicts.push(entry);
            },
        }
        i = i + 1;
    }
    conflicts
}

/// No conflicts are collected exactly when every destination check found
/// nothing in the way.
pub proof fn lemma_conflicts_empty(dests: Seq<Seq<char>>, outcomes: Seq<DestStat>, n: int)
    requires
        0 <= n <= outcomes.len(),
    ensures
        conflicts_of(dests, outcomes, n).len() == 0 <==> (forall|k: int|
            0 <= k < n ==> outcomes[k] is NotFound),
    decreases n,
{
    if n > 0 {
        lemma_conflicts_empty(dests, outcomes, n - 1);
    }
}

} // verus!
