//! The generation manager and the training orchestrator core.
//!
//! Each generation is scored by running one simulation per brain, the best
//! brains survive (`select_best`), and the survivors breed the next
//! population (`generate_next_generation`).  Every function is pinned to a
//! pure model of the same step, so whole training runs are reproducible
//! from their seeds.

use vstd::prelude::*;
use vstd::string::StringSliceAdditionalSpecFns;
use vstd::utf8::encode_utf8;
use crate::brain::Brain;
use crate::brain::all_brains_wf;
use crate::brain::brains_view;
use crate::brain::clone_brain;
use crate::brain::spec_brain_energy_sum;
use crate::brain::spec_brain_wf;
use crate::error::TrainError;
use crate::neurone::WebView;
use crate::params::GameParameters;
use crate::params::LIMIT_SCORE;
use crate::params::ParamsView;
use crate::params::bytes_eq;
use crate::rng::RngDraw;
use crate::rng::TrainRng;
use crate::rng::rng_alnum8_val;
use crate::rng::rng_parses;
use crate::rng::rng_range_val;
use crate::rng::rng_state_bytes;

verus! {

// --------------------------------------------------------------------------
// Scored populations
// --------------------------------------------------------------------------

/// The view of a scored population: each brain with its score.
pub open spec fn scored_view(v: Seq<(Brain, u64)>) -> Seq<(Seq<WebView>, u64)> {
    Seq::new(v.len(), |i: int| (v[i].0@, v[i].1))
}

/// Every scored brain is well-formed.
pub open spec fn all_scored_wf(s: Seq<(Seq<WebView>, u64)>, pv: ParamsView) -> bool {
    forall|i: int| 0 <= i < s.len() ==> spec_brain_wf((#[trigger] s[i]).0, pv)
}

/// The brains of a scored population, in order.
pub open spec fn spec_brains_of(s: Seq<(Seq<WebView>, u64)>) -> Seq<Seq<WebView>> {
    Seq::new(s.len(), |i: int| s[i].0)
}

/// The highest score from index `i` on, folded into `acc`.
pub open spec fn spec_max_score_from(s: Seq<(Seq<WebView>, u64)>, i: int, acc: u64) -> u64
    decreases s.len() - i,
{
    if i < 0 || i >= s.len() {
        acc
    } else {
        spec_max_score_from(
            s,
            i + 1,
            if s[i].1 > acc {
                s[i].1
            } else {
                acc
            },
        )
    }
}

/// The lowest brain energy from index `i` on, folded into `acc`.
pub open spec fn spec_min_energy_from(
    pv: ParamsView,
    s: Seq<(Seq<WebView>, u64)>,
    i: int,
    acc: u64,
) -> u64
    decreases s.len() - i,
{
    if i < 0 || i >= s.len() {
        acc
    } else {
        spec_min_energy_from(
            pv,
            s,
            i + 1,
            if spec_brain_energy_sum(pv, s[i].0, 0, 0) < acc {
                spec_brain_energy_sum(pv, s[i].0, 0, 0)
            } else {
                acc
            },
        )
    }
}

/// The survivors of a scored population: the entries carrying the maximum
/// score, in their original order; when that maximum reaches the score
/// ceiling, only those of minimum energy among them.  Below the ceiling no
/// energy tie-break applies.
pub open spec fn spec_select_best(pv: ParamsView, scored: Seq<(Seq<WebView>, u64)>) -> Seq<
    (Seq<WebView>, u64),
>
    recommends
        scored.len() >= 1,
{
    let max = spec_max_score_from(scored, 0, 0);
    let by_score = scored.filter(|p: (Seq<WebView>, u64)| p.1 == max);
    if max == LIMIT_SCORE {
        let emin = spec_min_energy_from(pv, by_score, 0, u64::MAX);
        by_score.filter(
            |p: (Seq<WebView>, u64)| spec_brain_energy_sum(pv, p.0, 0, 0) == emin,
        )
    } else {
        by_score
    }
}

/// The folded maximum bounds every element and the accumulator.
proof fn lemma_max_score_bound(s: Seq<(Seq<WebView>, u64)>, i: int, acc: u64)
    requires
        0 <= i <= s.len(),
    ensures
        acc <= spec_max_score_from(s, i, acc),
        forall|j: int| i <= j < s.len() ==> (#[trigger] s[j]).1 <= spec_max_score_from(s, i, acc),
    decreases s.len() - i,
{
    if i < s.len() {
        lemma_max_score_bound(
            s,
            i + 1,
            if s[i].1 > acc {
                s[i].1
            } else {
                acc
            },
        );
    }
}

/// The folded minimum bounds every element and the accumulator.
proof fn lemma_min_energy_bound(pv: ParamsView, s: Seq<(Seq<WebView>, u64)>, i: int, acc: u64)
    requires
        0 <= i <= s.len(),
    ensures
        spec_min_energy_from(pv, s, i, acc) <= acc,
        forall|j: int|
            i <= j < s.len() ==> spec_min_energy_from(pv, s, i, acc) <= spec_brain_energy_sum(
                pv,
                (#[trigger] s[j]).0,
                0,
                0,
            ),
    decreases s.len() - i,
{
    if i < s.len() {
        lemma_min_energy_bound(
            pv,
            s,
            i + 1,
            if spec_brain_energy_sum(pv, s[i].0, 0, 0) < acc {
                spec_brain_energy_sum(pv, s[i].0, 0, 0)
            } else {
                acc
            },
        );
    }
}

/// The selection law: selection never drops a strictly-higher-scoring brain
/// in favor of a lower-scoring one — every survivor carries the maximum
/// score, which bounds every score in the population.  When the top score
/// reaches the ceiling, every survivor has the minimum energy among the
/// top-scoring entries, so any higher-energy tie is dropped.
pub proof fn lemma_selection_never_drops_better(pv: ParamsView, scored: Seq<(Seq<WebView>, u64)>)
    requires
        scored.len() >= 1,
    ensures
        ({
            let max = spec_max_score_from(scored, 0, 0);
            let sel = spec_select_best(pv, scored);
            &&& forall|k: int| 0 <= k < sel.len() ==> (#[trigger] sel[k]).1 == max
            &&& forall|j: int| 0 <= j < scored.len() ==> (#[trigger] scored[j]).1 <= max
            &&& max == LIMIT_SCORE ==> {
                let by_score = scored.filter(|p: (Seq<WebView>, u64)| p.1 == max);
                let emin = spec_min_energy_from(pv, by_score, 0, u64::MAX);
                &&& forall|k: int|
                    0 <= k < sel.len() ==> spec_brain_energy_sum(pv, (#[trigger] sel[k]).0, 0, 0)
                        == emin
                &&& forall|j: int|
                    0 <= j < by_score.len() ==> emin <= spec_brain_energy_sum(
                        pv,
                        (#[trigger] by_score[j]).0,
                        0,
                        0,
                    )
            }
        }),
{
    let max = spec_max_score_from(scored, 0, 0);
    let sel = spec_select_best(pv, scored);
    let score_pred = |p: (Seq<WebView>, u64)| p.1 == max;
    let by_score = scored.filter(score_pred);
    lemma_max_score_bound(scored, 0, 0);
    assert forall|k: int| 0 <= k < sel.len() implies (#[trigger] sel[k]).1 == max by {
        if max == LIMIT_SCORE {
            let emin = spec_min_energy_from(pv, by_score, 0, u64::MAX);
            let energy_pred = |p: (Seq<WebView>, u64)| spec_brain_energy_sum(pv, p.0, 0, 0)
                == emin;
            by_score.lemma_filter_pred(energy_pred, k);
            let m = by_score.filter(energy_pred)[k];
            by_score.lemma_filter_len(energy_pred);
            assert(by_score.contains(m)) by {
                assert(by_score.filter(energy_pred).contains(m));
                let j = choose|j: int|
                    0 <= j < by_score.filter(energy_pred).len() && by_score.filter(energy_pred)[j]
                        == m;
                lemma_filter_subset(by_score, energy_pred, m);
            }
            let j2 = choose|j2: int| 0 <= j2 < by_score.len() && by_score[j2] == m;
            scored.lemma_filter_pred(score_pred, j2);
        } else {
            scored.lemma_filter_pred(score_pred, k);
        }
    }
    if max == LIMIT_SCORE {
        let emin = spec_min_energy_from(pv, by_score, 0, u64::MAX);
        let energy_pred = |p: (Seq<WebView>, u64)| spec_brain_energy_sum(pv, p.0, 0, 0) == emin;
        assert forall|k: int|
            0 <= k < sel.len() implies spec_brain_energy_sum(pv, (#[trigger] sel[k]).0, 0, 0)
            == emin by {
            by_score.lemma_filter_pred(energy_pred, k);
        }
        lemma_min_energy_bound(pv, by_score, 0, u64::MAX);
    }
}


/// The folded maximum is the accumulator or is attained by some element.
proof fn lemma_max_attained(s: Seq<(Seq<WebView>, u64)>, i: int, acc: u64)
    requires
        0 <= i <= s.len(),
    ensures
        spec_max_score_from(s, i, acc) == acc || exists|j: int|
            i <= j < s.len() && (#[trigger] s[j]).1 == spec_max_score_from(s, i, acc),
    decreases s.len() - i,
{
    if i < s.len() {
        let acc2: u64 = if s[i].1 > acc {
            s[i].1
        } else {
            acc
        };
        lemma_max_attained(s, i + 1, acc2);
        if spec_max_score_from(s, i + 1, acc2) == acc2 && acc2 != acc {
            assert(s[i].1 == spec_max_score_from(s, i, acc));
        }
    }
}

/// The folded minimum is the accumulator or is attained by some element.
proof fn lemma_min_attained(pv: ParamsView, s: Seq<(Seq<WebView>, u64)>, i: int, acc: u64)
    requires
        0 <= i <= s.len(),
    ensures
        spec_min_energy_from(pv, s, i, acc) == acc || exists|j: int|
            i <= j < s.len() && spec_brain_energy_sum(pv, (#[trigger] s[j]).0, 0, 0)
                == spec_min_energy_from(pv, s, i, acc),
    decreases s.len() - i,
{
    if i < s.len() {
        let e = spec_brain_energy_sum(pv, s[i].0, 0, 0);
        let acc2: u64 = if e < acc {
            e
        } else {
            acc
        };
        lemma_min_attained(pv, s, i + 1, acc2);
        if spec_min_energy_from(pv, s, i + 1, acc2) == acc2 && acc2 != acc {
            assert(spec_brain_energy_sum(pv, s[i].0, 0, 0) == spec_min_energy_from(pv, s, i, acc));
        }
    }
}

/// The retention half of the selection law: selection never comes back
/// empty, every maximum-score entry survives below the ceiling, and at the
/// ceiling every maximum-score entry of minimum energy survives — the
/// minimum-energy tie is retained, never dropped.
pub proof fn lemma_selection_retains_minimum(pv: ParamsView, scored: Seq<(Seq<WebView>, u64)>)
    requires
        scored.len() >= 1,
    ensures
        ({
            let max = spec_max_score_from(scored, 0, 0);
            let sel = spec_select_best(pv, scored);
            let by_score = scored.filter(|p: (Seq<WebView>, u64)| p.1 == max);
            let emin = spec_min_energy_from(pv, by_score, 0, u64::MAX);
            &&& sel.len() >= 1
            &&& max != LIMIT_SCORE ==> forall|j: int|
                0 <= j < scored.len() && (#[trigger] scored[j]).1 == max ==> sel.contains(
                    scored[j],
                )
            &&& max == LIMIT_SCORE ==> forall|j: int|
                0 <= j < by_score.len() && spec_brain_energy_sum(
                    pv,
                    (#[trigger] by_score[j]).0,
                    0,
                    0,
                ) == emin ==> sel.contains(by_score[j])
        }),
{
    let max = spec_max_score_from(scored, 0, 0);
    let sel = spec_select_best(pv, scored);
    let score_pred = |p: (Seq<WebView>, u64)| p.1 == max;
    let by_score = scored.filter(score_pred);
    let emin = spec_min_energy_from(pv, by_score, 0, u64::MAX);
    let energy_pred = |p: (Seq<WebView>, u64)| spec_brain_energy_sum(pv, p.0, 0, 0) == emin;

    // some entry attains the maximum, so the score filter is not empty
    lemma_max_score_bound(scored, 0, 0);
    lemma_max_attained(scored, 0, 0);
    let jmax = if max == 0 {
        0int
    } else {
        choose|j: int| 0 <= j < scored.len() && scored[j].1 == max
    };
    assert(scored[jmax].1 == max);
    scored.lemma_filter_contains(score_pred, jmax);
    assert(by_score.contains(scored[jmax]));
    let jw = choose|j: int| 0 <= j < by_score.len() && by_score[j] == scored[jmax];
    assert(by_score.len() >= 1);

    // everything that should be kept is kept
    assert forall|j: int|
        0 <= j < scored.len() && (#[trigger] scored[j]).1 == max implies by_score.contains(
        scored[j],
    ) by {
        scored.lemma_filter_contains(score_pred, j);
    }

    if max == LIMIT_SCORE {
        // some maximum scorer attains the minimum energy, so the energy
        // filter is not empty either
        lemma_min_energy_bound(pv, by_score, 0, u64::MAX);
        lemma_min_attained(pv, by_score, 0, u64::MAX);
        let jmin = if emin == u64::MAX {
            0int
        } else {
            choose|j: int|
                0 <= j < by_score.len() && spec_brain_energy_sum(pv, by_score[j].0, 0, 0) == emin
        };
        assert(spec_brain_energy_sum(pv, by_score[jmin].0, 0, 0) == emin);
        by_score.lemma_filter_contains(energy_pred, jmin);
        assert(sel.contains(by_score[jmin]));
        let js = choose|j: int| 0 <= j < sel.len() && sel[j] == by_score[jmin];
        assert(sel.len() >= 1);
        assert forall|j: int|
            0 <= j < by_score.len() && spec_brain_energy_sum(
                pv,
                (#[trigger] by_score[j]).0,
                0,
                0,
            ) == emin implies sel.contains(by_score[j]) by {
            by_score.lemma_filter_contains(energy_pred, j);
        }
    }
}

/// Every element of a filtered sequence occurs in the original.
proof fn lemma_filter_subset<A>(s: Seq<A>, pred: spec_fn(A) -> bool, m: A)
    requires
        s.filter(pred).contains(m),
    ensures
        s.contains(m),
    decreases s.len(),
{
    reveal(Seq::filter);
    if s.len() > 0 {
        if s.drop_last().filter(pred).contains(m) {
            lemma_filter_subset(s.drop_last(), pred, m);
            let j = choose|j: int| 0 <= j < s.drop_last().len() && s.drop_last()[j] == m;
            assert(s[j] == m);
        } else {
            assert(m == s.last());
            assert(s[s.len() - 1] == m);
        }
    }
}

/// One step of filtering: pushing an element onto a prefix extends the
/// filtered prefix exactly when the element matches.
proof fn lemma_filter_push<A>(s: Seq<A>, pred: spec_fn(A) -> bool, x: A)
    ensures
        s.push(x).filter(pred) == if pred(x) {
            s.filter(pred).push(x)
        } else {
            s.filter(pred)
        },
{
    reveal(Seq::filter);
    assert(s.push(x).drop_last() =~= s);
    assert(s.push(x).last() == x);
}

/// Select the surviving brains of a scored generation: all entries with the
/// maximum score, and — only when that maximum reaches the score ceiling —
/// the minimum-energy entries among those.  An empty population is a fatal
/// error.
#[verifier::loop_isolation(false)]
pub fn select_best(params: &GameParameters, scored: &Vec<(Brain, u64)>) -> (r: Result<
    Vec<(Brain, u64)>,
    TrainError,
>)
    requires
        params@.wf(),
        all_scored_wf(scored_view(scored@), params@),
    ensures
        match r {
            Ok(v) => {
                &&& scored@.len() >= 1
                &&& scored_view(v@) == spec_select_best(params@, scored_view(scored@))
                &&& all_scored_wf(scored_view(v@), params@)
            },
            Err(e) => {
                &&& e == TrainError::EmptyPopulationOrSurvivors
                &&& scored@.len() == 0
            },
        },
{
    if scored.len() == 0 {
        return Err(TrainError::EmptyPopulationOrSurvivors);
    }
    let ghost sv = scored_view(scored@);

    let mut max: u64 = 0;
    let mut i: usize = 0;
    while i < scored.len()
        invariant
            i <= scored@.len(),
            sv == scored_view(scored@),
            sv.len() == scored@.len(),
            spec_max_score_from(sv, 0, 0) == spec_max_score_from(sv, i as int, max),
        decreases scored@.len() - i,
    {
        proof {
            assert(sv[i as int] == (scored@[i as int].0@, scored@[i as int].1));
        }
        if scored[i].1 > max {
            max = scored[i].1;
        }
        i = i + 1;
    }
    let ghost score_pred = |p: (Seq<WebView>, u64)| p.1 == max;

    let mut best: Vec<(Brain, u64)> = Vec::new();
    proof {
        assert(sv.take(0).filter(score_pred) =~= Seq::<(Seq<WebView>, u64)>::empty()) by {
            reveal(Seq::filter);
            assert(sv.take(0) =~= Seq::<(Seq<WebView>, u64)>::empty());
        }
        assert(scored_view(best@) =~= Seq::<(Seq<WebView>, u64)>::empty());
    }
    let mut i: usize = 0;
    while i < scored.len()
        invariant
            params@.wf(),
            all_scored_wf(scored_view(scored@), params@),
            i <= scored@.len(),
            sv == scored_view(scored@),
            sv.len() == scored@.len(),
            scored_view(best@) == sv.take(i as int).filter(score_pred),
            all_scored_wf(scored_view(best@), params@),
        decreases scored@.len() - i,
    {
        proof {
            assert(sv[i as int] == (scored@[i as int].0@, scored@[i as int].1));
            assert(sv.take(i as int + 1) =~= sv.take(i as int).push(sv[i as int]));
            lemma_filter_push(sv.take(i as int), score_pred, sv[i as int]);
            assert(spec_brain_wf(sv[i as int].0, params@));
        }
        if scored[i].1 == max {
            let ghost pre = best@;
            let b = clone_brain(&scored[i].0);
            let s = scored[i].1;
            best.push((b, s));
            proof {
                assert(scored_view(best@) =~= scored_view(pre).push((b@, s)));
            }
        }
        i = i + 1;
    }
    proof {
        assert(sv.take(sv.len() as int) =~= sv);
    }

    if max != LIMIT_SCORE {
        return Ok(best);
    }

    // the ceiling was reached: keep only the minimum-energy survivors
    let ghost bsv = scored_view(best@);
    let mut emin: u64 = u64::MAX;
    let mut i: usize = 0;
    while i < best.len()
        invariant
            params@.wf(),
            all_scored_wf(scored_view(best@), params@),
            i <= best@.len(),
            bsv == scored_view(best@),
            bsv.len() == best@.len(),
            spec_min_energy_from(params@, bsv, 0, u64::MAX) == spec_min_energy_from(
                params@,
                bsv,
                i as int,
                emin,
            ),
        decreases best@.len() - i,
    {
        proof {
            assert(bsv[i as int] == (best@[i as int].0@, best@[i as int].1));
            assert(spec_brain_wf(bsv[i as int].0, params@));
        }
        let e = best[i].0.get_energie(params);
        if e < emin {
            emin = e;
        }
        i = i + 1;
    }
    let ghost energy_pred = |p: (Seq<WebView>, u64)| spec_brain_energy_sum(params@, p.0, 0, 0)
        == emin;

    let mut kept: Vec<(Brain, u64)> = Vec::new();
    proof {
        assert(bsv.take(0).filter(energy_pred) =~= Seq::<(Seq<WebView>, u64)>::empty()) by {
            reveal(Seq::filter);
            assert(bsv.take(0) =~= Seq::<(Seq<WebView>, u64)>::empty());
        }
        assert(scored_view(kept@) =~= Seq::<(Seq<WebView>, u64)>::empty());
    }
    let mut i: usize = 0;
    while i < best.len()
        invariant
            params@.wf(),
            all_scored_wf(scored_view(best@), params@),
            i <= best@.len(),
            bsv == scored_view(best@),
            bsv.len() == best@.len(),
            scored_view(kept@) == bsv.take(i as int).filter(energy_pred),
            all_scored_wf(scored_view(kept@), params@),
        decreases best@.len() - i,
    {
        proof {
            assert(bsv[i as int] == (best@[i as int].0@, best@[i as int].1));
            assert(bsv.take(i as int + 1) =~= bsv.take(i as int).push(bsv[i as int]));
            lemma_filter_push(bsv.take(i as int), energy_pred, bsv[i as int]);
            assert(spec_brain_wf(bsv[i as int].0, params@));
        }
        let e = best[i].0.get_energie(params);
        if e == emin {
            let ghost pre = kept@;
            let b = clone_brain(&best[i].0);
            let s = best[i].1;
            kept.push((b, s));
            proof {
                assert(scored_view(kept@) =~= scored_view(pre).push((b@, s)));
            }
        }
        i = i + 1;
    }
    proof {
        assert(bsv.take(bsv.len() as int) =~= bsv);
    }
    Ok(kept)
}

// --------------------------------------------------------------------------
// Reproduction and elite carry-over
// --------------------------------------------------------------------------

/// The index pool `0, 1, ..., n-1`.
pub open spec fn spec_index_pool(n: int) -> Seq<usize> {
    Seq::new(n as nat, |i: int| i as usize)
}

/// `count` elites drawn without replacement: each draw removes a uniformly
/// random index from the pool and appends that ancestor unchanged.
pub open spec fn spec_pick_elites(
    bvs: Seq<Seq<WebView>>,
    pool: Seq<usize>,
    count: int,
    origin: Seq<u8>,
    history: Seq<RngDraw>,
    acc: Seq<Seq<WebView>>,
) -> (Seq<Seq<WebView>>, Seq<RngDraw>)
    decreases count,
{
    if count <= 0 || pool.len() == 0 {
        (acc, history)
    } else {
        let idx = rng_range_val(origin, history, 0, pool.len() as u64);
        let h1 = history.push((0int, 0int, pool.len() as int));
        let i_brain = pool[idx as int];
        spec_pick_elites(
            bvs,
            pool.remove(idx as int),
            count - 1,
            origin,
            h1,
            acc.push(bvs[i_brain as int]),
        )
    }
}

/// The ancestors from index `i` on, appended unchanged to `acc`.
pub open spec fn spec_append_all(bvs: Seq<Seq<WebView>>, i: int, acc: Seq<Seq<WebView>>) -> Seq<
    Seq<WebView>,
>
    decreases bvs.len() - i,
{
    if i < 0 || i >= bvs.len() {
        acc
    } else {
        spec_append_all(bvs, i + 1, acc.push(bvs[i]))
    }
}

/// How many elites reproduction appends after the offspring: every ancestor
/// when the cap is negative or not exceeded, else exactly the cap, drawn
/// without replacement.
pub open spec fn spec_elite_count(pv: ParamsView, ancestors: int) -> int {
    if pv.max_nb_brain_to_save < 0 || ancestors <= pv.max_nb_brain_to_save {
        ancestors
    } else {
        pv.max_nb_brain_to_save as int
    }
}

/// The next generation bred from the ancestors: one mutated offspring per
/// population slot, and then the elite carry-over — every ancestor unchanged
/// when the elite cap is negative or not exceeded, else that many distinct
/// ancestors drawn without replacement.
pub open spec fn spec_next_generation(
    pv: ParamsView,
    bvs: Seq<Seq<WebView>>,
    origin: Seq<u8>,
    history: Seq<RngDraw>,
) -> (Seq<Seq<WebView>>, Seq<RngDraw>)
    recommends
        bvs.len() >= 1,
{
    let (children, h1) = Brain::spec_mutate_all(pv, bvs, origin, history);
    if pv.max_nb_brain_to_save < 0 || bvs.len() <= pv.max_nb_brain_to_save {
        (spec_append_all(bvs, 0, children), h1)
    } else {
        spec_pick_elites(
            bvs,
            spec_index_pool(bvs.len() as int),
            pv.max_nb_brain_to_save as int,
            origin,
            h1,
            children,
        )
    }
}

/// Breed the next generation: mutate the ancestors into one offspring per
/// population slot, then append the elites.  An empty ancestor set is a
/// fatal error and leaves the generator untouched.
#[verifier::loop_isolation(false)]
pub fn generate_next_generation(
    params: &GameParameters,
    ancestor: &Vec<Brain>,
    rng: &mut TrainRng,
) -> (r: Result<Vec<Brain>, TrainError>)
    requires
        params@.wf(),
        all_brains_wf(brains_view(ancestor@), params@),
    ensures
        match r {
            Ok(v) => {
                &&& ancestor@.len() >= 1
                &&& (brains_view(v@), final(rng).history()) == spec_next_generation(
                    params@,
                    brains_view(ancestor@),
                    old(rng).origin(),
                    old(rng).history(),
                )
                &&& final(rng).origin() == old(rng).origin()
                &&& all_brains_wf(brains_view(v@), params@)
                &&& v@.len() as int == params.training_nb_brain + spec_elite_count(
                    params@,
                    ancestor@.len() as int,
                )
            },
            Err(e) => {
                &&& e == TrainError::EmptyPopulationOrSurvivors
                &&& ancestor@.len() == 0
                &&& final(rng).origin() == old(rng).origin()
                &&& final(rng).history() == old(rng).history()
            },
        },
{
    if ancestor.len() == 0 {
        return Err(TrainError::EmptyPopulationOrSurvivors);
    }
    let ghost bvs = brains_view(ancestor@);
    let mut next_generation = Brain::mutate_all(params, ancestor, rng);
    let ghost children = brains_view(next_generation@);
    let ghost h1 = rng.history();

    if params.max_nb_brain_to_save < 0 || ancestor.len() <= params.max_nb_brain_to_save as usize {
        let mut i: usize = 0;
        while i < ancestor.len()
            invariant
                i <= ancestor@.len(),
                rng.history() == h1,
                rng.origin() == old(rng).origin(),
                all_brains_wf(brains_view(next_generation@), params@),
                next_generation@.len() == params.training_nb_brain + i,
                spec_append_all(bvs, 0, children) == spec_append_all(
                    bvs,
                    i as int,
                    brains_view(next_generation@),
                ),
            decreases ancestor@.len() - i,
        {
            proof {
                assert(bvs[i as int] == ancestor@[i as int]@);
                assert(spec_brain_wf(bvs[i as int], params@));
            }
            let ghost pre = next_generation@;
            let b = clone_brain(&ancestor[i]);
            next_generation.push(b);
            proof {
                assert(brains_view(next_generation@) =~= brains_view(pre).push(b@));
            }
            i = i + 1;
        }
        Ok(next_generation)
    } else {
        let mut potential_i: Vec<usize> = Vec::new();
        let mut i: usize = 0;
        while i < ancestor.len()
            invariant
                i <= ancestor@.len(),
                potential_i@ == spec_index_pool(i as int),
            decreases ancestor@.len() - i,
        {
            potential_i.push(i);
            proof {
                assert(potential_i@ =~= spec_index_pool(i as int + 1));
            }
            i = i + 1;
        }

        let count: u64 = params.max_nb_brain_to_save as u64;
        let mut k: u64 = 0;
        while k < count
            invariant
                k <= count,
                count < ancestor@.len(),
                potential_i@.len() == ancestor@.len() - k,
                forall|j: int| 0 <= j < potential_i@.len() ==> potential_i@[j] < ancestor@.len(),
                rng.origin() == old(rng).origin(),
                all_brains_wf(brains_view(next_generation@), params@),
                next_generation@.len() == params.training_nb_brain + k,
                spec_pick_elites(bvs, spec_index_pool(ancestor@.len() as int), count as int, old(
                    rng,
                ).origin(), h1, children) == spec_pick_elites(
                    bvs,
                    potential_i@,
                    count - k,
                    rng.origin(),
                    rng.history(),
                    brains_view(next_generation@),
                ),
            decreases count - k,
        {
            let index_potential_i = rng.gen_range_u64(0, potential_i.len() as u64);
            let i_brain = potential_i.remove(index_potential_i as usize);
            let ghost pre = next_generation@;
            let b = clone_brain(&ancestor[i_brain]);
            next_generation.push(b);
            proof {
                assert(bvs[i_brain as int] == ancestor@[i_brain as int]@);
                assert(brains_view(next_generation@) =~= brains_view(pre).push(b@));
            }
            k = k + 1;
        }
        Ok(next_generation)
    }
}

/// Breed the next generation from a scored survivor set: the scores are
/// dropped and the brains reproduce as in `generate_next_generation`.
pub fn generate_next_generation_from_scoring(
    params: &GameParameters,
    ancestor: &Vec<(Brain, u64)>,
    rng: &mut TrainRng,
) -> (r: Result<Vec<Brain>, TrainError>)
    requires
        params@.wf(),
        all_scored_wf(scored_view(ancestor@), params@),
    ensures
        match r {
            Ok(v) => {
                &&& ancestor@.len() >= 1
                &&& (brains_view(v@), final(rng).history()) == spec_next_generation(
                    params@,
                    spec_brains_of(scored_view(ancestor@)),
                    old(rng).origin(),
                    old(rng).history(),
                )
                &&& final(rng).origin() == old(rng).origin()
                &&& all_brains_wf(brains_view(v@), params@)
                &&& v@.len() as int == params.training_nb_brain + spec_elite_count(
                    params@,
                    ancestor@.len() as int,
                )
            },
            Err(e) => {
                &&& e == TrainError::EmptyPopulationOrSurvivors
                &&& ancestor@.len() == 0
                &&& final(rng).origin() == old(rng).origin()
                &&& final(rng).history() == old(rng).history()
            },
        },
{
    let mut brains: Vec<Brain> = Vec::new();
    proof {
        assert(brains_view(brains@) =~= spec_brains_of(scored_view(ancestor@)).take(0));
    }
    let mut i: usize = 0;
    while i < ancestor.len()
        invariant
            i <= ancestor@.len(),
            all_scored_wf(scored_view(ancestor@), params@),
            params@.wf(),
            brains_view(brains@) == spec_brains_of(scored_view(ancestor@)).take(i as int),
            all_brains_wf(brains_view(brains@), params@),
        decreases ancestor@.len() - i,
    {
        proof {
            assert(scored_view(ancestor@)[i as int] == (ancestor@[i as int].0@, ancestor@[i as int].1));
            assert(spec_brain_wf(scored_view(ancestor@)[i as int].0, params@));
        }
        let ghost pre = brains@;
        let b = clone_brain(&ancestor[i].0);
        brains.push(b);
        proof {
            assert(brains_view(brains@) =~= brains_view(pre).push(b@));
            assert(brains_view(brains@) =~= spec_brains_of(scored_view(ancestor@)).take(
                i as int + 1,
            ));
        }
        i = i + 1;
    }
    proof {
        assert(spec_brains_of(scored_view(ancestor@)).take(ancestor@.len() as int) =~= spec_brains_of(
            scored_view(ancestor@),
        ));
    }
    generate_next_generation(params, &brains, rng)
}

// --------------------------------------------------------------------------
// Terrain seed regeneration
// --------------------------------------------------------------------------

/// The UTF-8 bytes of the terrain seed for generation `i`: with a reseed
/// interval, a fresh eight-character draw every `interval` generations and
/// the previous seed otherwise; without one, always the configured land
/// seed.
pub open spec fn spec_generate_seed(
    pv: ParamsView,
    i: u64,
    prec_bytes: Seq<u8>,
    origin: Seq<u8>,
    history: Seq<RngDraw>,
) -> (Seq<u8>, Seq<RngDraw>) {
    match pv.terrain_seed_generation_interval {
        Some(interval) => if i % interval == 0 {
            (encode_utf8(rng_alnum8_val(origin, history)), history.push((2int, 0int, 0int)))
        } else {
            (prec_bytes, history)
        },
        None => (pv.land_seed, history),
    }
}

/// The terrain seed for generation `i`: redrawn from the orchestrator
/// generator on the configured cadence, carried over otherwise, or the
/// fixed land seed when no cadence is configured.
pub fn generate_seed(params: &GameParameters, i: u64, prec_seed: &str, rng: &mut TrainRng) -> (r:
    String)
    requires
        params@.wf(),
    ensures
        (encode_utf8(r@), final(rng).history()) == spec_generate_seed(
            params@,
            i,
            prec_seed.spec_bytes(),
            old(rng).origin(),
            old(rng).history(),
        ),
        final(rng).origin() == old(rng).origin(),
        (params@.terrain_seed_generation_interval matches Some(interval) && i % interval == 0)
            ==> r@.len() == 8 && (forall|j: int|
            0 <= j < r@.len() ==> crate::rng::is_alphanumeric_char(#[trigger] r@[j])),
{
    match params.terrain_seed_generation_interval {
        Some(interval) => {
            if i % interval == 0 {
                rng.gen_alphanumeric8()
            } else {
                prec_seed.to_owned()
            }
        },
        None => params.land_seed.clone(),
    }
}

// --------------------------------------------------------------------------
// Checkpoints
// --------------------------------------------------------------------------

/// A checkpoint of a training run: the surviving brains, the orchestrator
/// generator state, and the best score of the generation.
///
/// On disk a checkpoint is one JSON object `{"brains":[...],"rng":...,`
/// `"score":N}` in the canonical compact form of `crate::codec`, so the
/// save/load round trip is a proved law; the generator state inside is the
/// JSON object the generator library emits for its own state.
#[derive(Debug)]
pub struct IntermediateResult {
    pub brains: Vec<Brain>,
    /// The serialized generator state.
    pub rng: Vec<u8>,
    pub score: u64,
}

/// The mathematical image of a checkpoint.
#[verifier::ext_equal]
pub ghost struct CheckpointView {
    pub brains: Seq<Seq<WebView>>,
    pub rng: Seq<u8>,
    pub score: u64,
}

impl View for IntermediateResult {
    type V = CheckpointView;

    open spec fn view(&self) -> CheckpointView {
        CheckpointView { brains: brains_view(self.brains@), rng: self.rng@, score: self.score }
    }
}

impl PartialEq for IntermediateResult {
    /// Two checkpoints are equal when they hold the same brains, generator
    /// state and score.
    fn eq(&self, other: &IntermediateResult) -> (r: bool) {
        if self.score != other.score || self.brains.len() != other.brains.len() {
            proof {
                if self.score != other.score {
                    assert(self@.score != other@.score);
                } else {
                    assert(self@.brains.len() == self.brains@.len());
                    assert(other@.brains.len() == other.brains@.len());
                    assert(self@.brains.len() != other@.brains.len());
                }
            }
            return false;
        }
        if !bytes_eq(self.rng.as_slice(), other.rng.as_slice()) {
            return false;
        }
        let mut i: usize = 0;
        while i < self.brains.len()
            invariant
                self.brains@.len() == other.brains@.len(),
                i <= self.brains@.len(),
                forall|j: int| 0 <= j < i ==> self@.brains[j] == other@.brains[j],
            decreases self.brains@.len() - i,
        {
            if !(self.brains[i] == other.brains[i]) {
                proof {
                    assert(self@.brains[i as int] == self.brains@[i as int]@);
                    assert(other@.brains[i as int] == other.brains@[i as int]@);
                }
                return false;
            }
            proof {
                assert(self@.brains[i as int] == self.brains@[i as int]@);
                assert(other@.brains[i as int] == other.brains@[i as int]@);
            }
            i = i + 1;
        }
        proof {
            assert(self@.brains =~= other@.brains);
            assert(self@ =~= other@);
        }
        true
    }
}

impl vstd::std_specs::cmp::PartialEqSpecImpl for IntermediateResult {
    open spec fn obeys_eq_spec() -> bool {
        true
    }

    open spec fn eq_spec(&self, other: &IntermediateResult) -> bool {
        self@ == other@
    }
}

/// Build the checkpoint of a generation: the survivors, the orchestrator
/// generator state, and the best (shared) score of the survivors.
pub fn checkpoint_from(survivors: &Vec<(Brain, u64)>, rng: &TrainRng, score: u64) -> (r:
    IntermediateResult)
    ensures
        r@.brains == spec_brains_of(scored_view(survivors@)),
        r@.rng == rng_state_bytes(rng.origin(), rng.history()),
        rng_parses(r@.rng),
        crate::codec::is_state_json(r@.rng),
        r@.score == score,
{
    let mut brains: Vec<Brain> = Vec::new();
    proof {
        assert(brains_view(brains@) =~= spec_brains_of(scored_view(survivors@)).take(0));
    }
    let mut i: usize = 0;
    while i < survivors.len()
        invariant
            i <= survivors@.len(),
            brains_view(brains@) == spec_brains_of(scored_view(survivors@)).take(i as int),
        decreases survivors@.len() - i,
    {
        proof {
            assert(scored_view(survivors@)[i as int] == (
                survivors@[i as int].0@,
                survivors@[i as int].1,
            ));
        }
        let ghost pre = brains@;
        let b = clone_brain(&survivors[i].0);
        brains.push(b);
        proof {
            assert(brains_view(brains@) =~= brains_view(pre).push(b@));
            assert(brains_view(brains@) =~= spec_brains_of(scored_view(survivors@)).take(
                i as int + 1,
            ));
        }
        i = i + 1;
    }
    proof {
        assert(spec_brains_of(scored_view(survivors@)).take(survivors@.len() as int)
            =~= spec_brains_of(scored_view(survivors@)));
    }
    IntermediateResult { brains, rng: rng.state_bytes(), score }
}

// --------------------------------------------------------------------------
// The orchestrator: initial population, evaluation, one generation step
// --------------------------------------------------------------------------

/// The population built by `count` random brain draws, appended to `acc`.
pub open spec fn spec_initial_population(
    pv: ParamsView,
    origin: Seq<u8>,
    history: Seq<RngDraw>,
    count: int,
    acc: Seq<Seq<WebView>>,
) -> (Seq<Seq<WebView>>, Seq<RngDraw>)
    decreases count,
{
    if count <= 0 {
        (acc, history)
    } else {
        let (b, h1) = Brain::spec_new(pv, origin, history);
        spec_initial_population(pv, origin, h1, count - 1, acc.push(b))
    }
}

/// Create the starting population: one random brain per population slot,
/// all drawn from the orchestrator generator.
#[verifier::loop_isolation(false)]
pub fn initial_population(params: &GameParameters, rng: &mut TrainRng) -> (r: Vec<Brain>)
    requires
        params@.wf(),
    ensures
        (brains_view(r@), final(rng).history()) == spec_initial_population(
            params@,
            old(rng).origin(),
            old(rng).history(),
            params.training_nb_brain as int,
            Seq::empty(),
        ),
        final(rng).origin() == old(rng).origin(),
        all_brains_wf(brains_view(r@), params@),
        r@.len() == params.training_nb_brain,
{
    let ghost h0 = rng.history();
    let mut brains: Vec<Brain> = Vec::new();
    proof {
        assert(brains_view(brains@) =~= Seq::<Seq<WebView>>::empty());
    }
    let mut t: u64 = 0;
    while t < params.training_nb_brain
        invariant
            t <= params.training_nb_brain,
            brains@.len() == t,
            rng.origin() == old(rng).origin(),
            all_brains_wf(brains_view(brains@), params@),
            spec_initial_population(
                params@,
                rng.origin(),
                h0,
                params.training_nb_brain as int,
                Seq::empty(),
            ) == spec_initial_population(
                params@,
                rng.origin(),
                rng.history(),
                params.training_nb_brain - t,
                brains_view(brains@),
            ),
        decreases params.training_nb_brain - t,
    {
        let ghost pre = brains@;
        let b = Brain::new(params, rng);
        brains.push(b);
        proof {
            assert(brains_view(brains@) =~= brains_view(pre).push(b@));
        }
        t = t + 1;
    }
    brains
}

/// The scores of the population from index `i` on, appended to `acc`: each
/// brain runs one simulation on the seeded terrain.  `None` when any
/// simulation overflows its clock.
pub open spec fn spec_evaluate(
    pv: ParamsView,
    bvs: Seq<Seq<WebView>>,
    seed_bytes: Seq<u8>,
    max_ticks: u64,
    i: int,
    acc: Seq<(Seq<WebView>, u64)>,
) -> Option<Seq<(Seq<WebView>, u64)>>
    decreases bvs.len() - i,
{
    if i < 0 || i >= bvs.len() {
        Some(acc)
    } else {
        match crate::game::spec_brain_run(pv, bvs[i], seed_bytes, max_ticks) {
            None => None,
            Some(score) => spec_evaluate(
                pv,
                bvs,
                seed_bytes,
                max_ticks,
                i + 1,
                acc.push((bvs[i], score)),
            ),
        }
    }
}

/// Score a whole population, one simulation per brain, each run to a
/// terminal state on the terrain named by `land_seed`.  The units are
/// independent; this runs them in order.  An error means some unit's clock
/// overflowed, which aborts the generation.
#[verifier::loop_isolation(false)]
pub fn evaluate_generation(
    params: &GameParameters,
    brains: &Vec<Brain>,
    land_seed: &str,
    max_ticks: u64,
) -> (r: Result<Vec<(Brain, u64)>, TrainError>)
    requires
        params@.wf(),
        all_brains_wf(brains_view(brains@), params@),
    ensures
        match r {
            Ok(v) => {
                &&& Some(scored_view(v@)) == spec_evaluate(
                    params@,
                    brains_view(brains@),
                    land_seed.spec_bytes(),
                    max_ticks,
                    0,
                    Seq::empty(),
                )
                &&& all_scored_wf(scored_view(v@), params@)
                &&& v@.len() == brains@.len()
            },
            Err(e) => {
                &&& e == TrainError::ClockOverflow
                &&& spec_evaluate(
                    params@,
                    brains_view(brains@),
                    land_seed.spec_bytes(),
                    max_ticks,
                    0,
                    Seq::empty(),
                ) is None
            },
        },
{
    let mut scores: Vec<(Brain, u64)> = Vec::new();
    proof {
        assert(scored_view(scores@) =~= Seq::<(Seq<WebView>, u64)>::empty());
    }
    let mut i: usize = 0;
    while i < brains.len()
        invariant
            i <= brains@.len(),
            scores@.len() == i,
            all_scored_wf(scored_view(scores@), params@),
            spec_evaluate(
                params@,
                brains_view(brains@),
                land_seed.spec_bytes(),
                max_ticks,
                0,
                Seq::empty(),
            ) == spec_evaluate(
                params@,
                brains_view(brains@),
                land_seed.spec_bytes(),
                max_ticks,
                i as int,
                scored_view(scores@),
            ),
        decreases brains@.len() - i,
    {
        proof {
            assert(brains_view(brains@)[i as int] == brains@[i as int]@);
            assert(spec_brain_wf(brains_view(brains@)[i as int], params@));
        }
        let unit = clone_brain(&brains[i]);
        let score = match crate::game::brain_run(params, unit, land_seed, max_ticks) {
            Ok(s) => s,
            Err(e) => {
                return Err(e);
            },
        };
        let ghost pre = scores@;
        let keep = clone_brain(&brains[i]);
        scores.push((keep, score));
        proof {
            assert(scored_view(scores@) =~= scored_view(pre).push((keep@, score)));
        }
        i = i + 1;
    }
    Ok(scores)
}

/// The outcome of one generation of training.
pub struct GenerationOutcome {
    /// The surviving brains with their (shared, maximal) score.
    pub survivors: Vec<(Brain, u64)>,
    /// The best score of the generation.
    pub best_score: u64,
    /// The population of the next generation.
    pub next_population: Vec<Brain>,
    /// The terrain seed of the next generation.
    pub next_seed: String,
}

/// The mathematical image of one generation step.
#[verifier::ext_equal]
pub ghost struct StepView {
    pub survivors: Seq<(Seq<WebView>, u64)>,
    pub best_score: u64,
    pub next_population: Seq<Seq<WebView>>,
    pub next_seed: Seq<u8>,
    pub history: Seq<RngDraw>,
}

/// One whole generation on the model: evaluate every brain on the terrain,
/// select the survivors, breed the next population, and draw the terrain
/// seed of generation `next_index` — in that fixed order, so the draw
/// sequence is reproducible.  `None` when a simulation clock overflows.
pub open spec fn spec_train_step(
    pv: ParamsView,
    bvs: Seq<Seq<WebView>>,
    seed_bytes: Seq<u8>,
    next_index: u64,
    origin: Seq<u8>,
    history: Seq<RngDraw>,
    max_ticks: u64,
) -> Option<StepView>
    recommends
        bvs.len() >= 1,
{
    match spec_evaluate(pv, bvs, seed_bytes, max_ticks, 0, Seq::empty()) {
        None => None,
        Some(scored) => {
            let sel = spec_select_best(pv, scored);
            let best: u64 = if sel.len() > 0 {
                sel[0].1
            } else {
                0
            };
            let (next, h1) = spec_next_generation(pv, spec_brains_of(sel), origin, history);
            let (seed2, h2) = spec_generate_seed(pv, next_index, seed_bytes, origin, h1);
            Some(
                StepView {
                    survivors: sel,
                    best_score: best,
                    next_population: next,
                    next_seed: seed2,
                    history: h2,
                },
            )
        },
    }
}

/// Run one whole generation: evaluate the population on the terrain named
/// by `land_seed`, select the survivors, breed the next population, and
/// draw the terrain seed of generation `next_index`.  Fatal errors: an
/// empty population or survivor set, or a simulation clock overflow.
pub fn train_step(
    params: &GameParameters,
    brains: &Vec<Brain>,
    land_seed: &str,
    next_index: u64,
    max_ticks: u64,
    rng: &mut TrainRng,
) -> (r: Result<GenerationOutcome, TrainError>)
    requires
        params@.wf(),
        all_brains_wf(brains_view(brains@), params@),
    ensures
        match r {
            Ok(o) => {
                &&& spec_train_step(
                    params@,
                    brains_view(brains@),
                    land_seed.spec_bytes(),
                    next_index,
                    old(rng).origin(),
                    old(rng).history(),
                    max_ticks,
                ) matches Some(sv)
                &&& sv.survivors == scored_view(o.survivors@)
                &&& sv.best_score == o.best_score
                &&& sv.next_population == brains_view(o.next_population@)
                &&& sv.next_seed == encode_utf8(o.next_seed@)
                &&& sv.history == final(rng).history()
                &&& final(rng).origin() == old(rng).origin()
                &&& all_scored_wf(scored_view(o.survivors@), params@)
                &&& all_brains_wf(brains_view(o.next_population@), params@)
                &&& o.next_population@.len() as int == params.training_nb_brain + spec_elite_count(
                    params@,
                    o.survivors@.len() as int,
                )
            },
            Err(e) => {
                ||| (e == TrainError::ClockOverflow && spec_evaluate(
                    params@,
                    brains_view(brains@),
                    land_seed.spec_bytes(),
                    max_ticks,
                    0,
                    Seq::empty(),
                ) is None)
                ||| (e == TrainError::EmptyPopulationOrSurvivors && brains@.len() == 0)
            },
        },
{
    let scores = match evaluate_generation(params, brains, land_seed, max_ticks) {
        Ok(v) => v,
        Err(e) => {
            return Err(e);
        },
    };
    let survivors = match select_best(params, &scores) {
        Ok(v) => v,
        Err(e) => {
            return Err(e);
        },
    };
    proof {
        // selection of a non-empty generation always retains a survivor
        lemma_selection_retains_minimum(params@, scored_view(scores@));
        assert(survivors@.len() >= 1);
    }
    let best_score = survivors[0].1;
    proof {
        assert(scored_view(survivors@)[0] == (survivors@[0].0@, survivors@[0].1));
    }
    let next_population = match generate_next_generation_from_scoring(params, &survivors, rng) {
        Ok(v) => v,
        Err(e) => {
            // unreachable: the survivor set was just shown non-empty
            proof {
                assert(false);
            }
            return Err(e);
        },
    };
    let next_seed = generate_seed(params, next_index, land_seed, rng);
    Ok(GenerationOutcome { survivors, best_score, next_population, next_seed })
}

/// Whether generation `i` must be checkpointed: on the configured cadence,
/// and always at the final generation of the run.
pub fn checkpoint_due(i: u64, i_begin: u64) -> (r: bool)
    requires
        i_begin <= u64::MAX - crate::params::TRAINING_NB_GENERATION,
    ensures
        r == (i % crate::params::INTERVAL_TO_SAVE_RESULT == 0 || i == i_begin
            + crate::params::TRAINING_NB_GENERATION - 1),
{
    i % crate::params::INTERVAL_TO_SAVE_RESULT == 0 || i == i_begin
        + crate::params::TRAINING_NB_GENERATION - 1
}

// --------------------------------------------------------------------------
// Determinism laws
// --------------------------------------------------------------------------

/// Determinism of a simulation unit: two runs of the same brain under the
/// same configuration on equally-seeded terrain score identically — the
/// spawned obstacle sequence and every tick are a pure function of the
/// configuration, the seed and the brain.
pub proof fn lemma_simulation_deterministic(
    pv1: ParamsView,
    pv2: ParamsView,
    bv1: Seq<WebView>,
    bv2: Seq<WebView>,
    seed1: Seq<u8>,
    seed2: Seq<u8>,
    max_ticks1: u64,
    max_ticks2: u64,
)
    requires
        pv1 == pv2,
        bv1 == bv2,
        seed1 == seed2,
        max_ticks1 == max_ticks2,
    ensures
        crate::game::spec_brain_run(pv1, bv1, seed1, max_ticks1) == crate::game::spec_brain_run(
            pv2,
            bv2,
            seed2,
            max_ticks2,
        ),
{
}

/// Determinism of the orchestrator: two training runs from equal
/// configurations, equal populations, equal terrain seeds and
/// equally-seeded generators produce identical survivors, identical next
/// populations and identical next seeds, generation after generation.
pub proof fn lemma_training_deterministic(
    pv1: ParamsView,
    pv2: ParamsView,
    bvs1: Seq<Seq<WebView>>,
    bvs2: Seq<Seq<WebView>>,
    seed1: Seq<u8>,
    seed2: Seq<u8>,
    next_index1: u64,
    next_index2: u64,
    origin1: Seq<u8>,
    origin2: Seq<u8>,
    history1: Seq<RngDraw>,
    history2: Seq<RngDraw>,
    max_ticks1: u64,
    max_ticks2: u64,
)
    requires
        pv1 == pv2,
        bvs1 == bvs2,
        seed1 == seed2,
        next_index1 == next_index2,
        origin1 == origin2,
        history1 == history2,
        max_ticks1 == max_ticks2,
    ensures
        spec_train_step(pv1, bvs1, seed1, next_index1, origin1, history1, max_ticks1)
            == spec_train_step(pv2, bvs2, seed2, next_index2, origin2, history2, max_ticks2),
{
}

/// Determinism of population creation: two generators seeded alike create
/// identical starting populations.
pub proof fn lemma_creation_deterministic(
    pv1: ParamsView,
    pv2: ParamsView,
    origin1: Seq<u8>,
    origin2: Seq<u8>,
    history1: Seq<RngDraw>,
    history2: Seq<RngDraw>,
    count1: int,
    count2: int,
)
    requires
        pv1 == pv2,
        origin1 == origin2,
        history1 == history2,
        count1 == count2,
    ensures
        spec_initial_population(pv1, origin1, history1, count1, Seq::empty())
            == spec_initial_population(pv2, origin2, history2, count2, Seq::empty()),
{
}

// --------------------------------------------------------------------------
// Resuming a run
// --------------------------------------------------------------------------

/// Refuse to resume unless the saved configuration is byte-equal,
/// field for field, to the active one.
pub fn check_params_compatible(active: &GameParameters, saved: &GameParameters) -> (r: Result<
    (),
    TrainError,
>)
    ensures
        match r {
            Ok(()) => active@ == saved@,
            Err(e) => e == TrainError::ConfigMismatch && active@ != saved@,
        },
{
    if crate::params::params_match(active, saved) {
        Ok(())
    } else {
        Err(TrainError::ConfigMismatch)
    }
}

/// Whether every neurone of the brain sits on the configured field with the
/// configured sensor size.
#[verifier::loop_isolation(false)]
pub fn check_brain_wf(params: &GameParameters, b: &Brain) -> (r: bool)
    requires
        params@.wf(),
    ensures
        r == spec_brain_wf(b@, params@),
{
    let mut i: usize = 0;
    while i < b.neurone_web.len()
        invariant
            i <= b.neurone_web@.len(),
            forall|k: int| 0 <= k < i ==> (#[trigger] b@[k]).wf(params@),
        decreases b.neurone_web@.len() - i,
    {
        let web = &b.neurone_web[i];
        let mut j: usize = 0;
        while j < web.neurones.len()
            invariant
                i < b.neurone_web@.len(),
                j <= web.neurones@.len(),
                web == &b.neurone_web[i as int],
                forall|k: int| 0 <= k < i ==> (#[trigger] b@[k]).wf(params@),
                forall|k: int| 0 <= k < j ==> (#[trigger] web@.neurones[k]).wf(params@),
            decreases web.neurones@.len() - j,
        {
            let n = web.neurones[j];
            let ok = n.x >= 0 && n.x <= params.game_width - params.neurone_width && n.y
                >= params.hole_height + crate::params::HOLE_SAFE_MARGIN && n.y <= params.game_height
                - params.neurone_height && n.width == params.neurone_width && n.height
                == params.neurone_height;
            if !ok {
                proof {
                    assert(b@[i as int] == b.neurone_web@[i as int]@);
                    assert(!b@[i as int].wf(params@));
                }
                return false;
            }
            proof {
                assert(web@.neurones[j as int] == n);
            }
            j = j + 1;
        }
        proof {
            assert(b@[i as int] == b.neurone_web@[i as int]@);
            assert(b@[i as int].wf(params@));
        }
        i = i + 1;
    }
    proof {
        assert(forall|k: int| 0 <= k < b@.len() ==> (#[trigger] b@[k]).wf(params@));
    }
    true
}

/// The bytes are exactly one valid checkpoint encoding whose brains all fit
/// the configuration.
pub open spec fn spec_checkpoint_loadable(pv: ParamsView, bytes: Seq<u8>) -> bool {
    crate::codec::spec_dec_checkpoint(bytes, 0) matches Some(t) && t.1 == bytes.len()
        && all_brains_wf(t.0.brains, pv)
}

/// Load a checkpoint from its file bytes, refusing exactly the bytes that
/// are not one whole valid encoding or whose brains do not fit the active
/// configuration.
#[verifier::loop_isolation(false)]
pub fn load_checkpoint(params: &GameParameters, bytes: &[u8]) -> (r: Result<
    IntermediateResult,
    TrainError,
>)
    requires
        params@.wf(),
    ensures
        match r {
            Ok(cp) => {
                &&& crate::codec::spec_dec_checkpoint(bytes@, 0) == Some(
                    (cp@, bytes@.len() as int),
                )
                &&& all_brains_wf(cp@.brains, params@)
                &&& spec_checkpoint_loadable(params@, bytes@)
            },
            Err(e) => {
                &&& e == TrainError::CheckpointCorrupt
                &&& !spec_checkpoint_loadable(params@, bytes@)
            },
        },
{
    let cp = match crate::codec::decode_checkpoint(bytes) {
        Some(cp) => cp,
        None => {
            return Err(TrainError::CheckpointCorrupt);
        },
    };
    let mut i: usize = 0;
    while i < cp.brains.len()
        invariant
            i <= cp.brains@.len(),
            forall|k: int| 0 <= k < i ==> spec_brain_wf((#[trigger] cp@.brains[k]), params@),
        decreases cp.brains@.len() - i,
    {
        if !check_brain_wf(params, &cp.brains[i]) {
            proof {
                // the decoded view is the unique decoding, and its brain at
                // this index is not well-formed
                assert(cp@.brains[i as int] == cp.brains@[i as int]@);
                assert(!spec_brain_wf(cp@.brains[i as int], params@));
            }
            return Err(TrainError::CheckpointCorrupt);
        }
        proof {
            assert(cp@.brains[i as int] == cp.brains@[i as int]@);
        }
        i = i + 1;
    }
    Ok(cp)
}


/// The byte forms of a list of file names.
pub open spec fn file_names_bytes(v: Seq<String>) -> Seq<Seq<u8>> {
    Seq::new(v.len(), |i: int| encode_utf8(v[i]@))
}

/// The largest checkpoint index among the file names from `i` on, folded
/// into `acc`.
pub open spec fn spec_max_brain_index(names: Seq<Seq<u8>>, i: int, acc: Option<u64>) -> Option<
    u64,
>
    decreases names.len() - i,
{
    if i < 0 || i >= names.len() {
        acc
    } else {
        let acc2: Option<u64> = match crate::codec::spec_brain_file_index(names[i]) {
            None => acc,
            Some(n) => match acc {
                None => Some(n),
                Some(m) => if n > m {
                    Some(n)
                } else {
                    Some(m)
                },
            },
        };
        spec_max_brain_index(names, i + 1, acc2)
    }
}

/// The highest checkpoint index among the run folder's file names:
/// `brain<N>.json` files name the checkpoints, and a resume continues from
/// the largest `N`.
#[verifier::loop_isolation(false)]
pub fn max_brain_index(names: &Vec<String>) -> (r: Option<u64>)
    ensures
        r == spec_max_brain_index(file_names_bytes(names@), 0, None::<u64>),
{
    let mut acc: Option<u64> = None;
    let mut i: usize = 0;
    while i < names.len()
        invariant
            i <= names@.len(),
            spec_max_brain_index(file_names_bytes(names@), 0, None::<u64>)
                == spec_max_brain_index(file_names_bytes(names@), i as int, acc),
        decreases names@.len() - i,
    {
        proof {
            assert(file_names_bytes(names@)[i as int] == encode_utf8(names@[i as int]@));
        }
        let idx = crate::codec::brain_file_index(names[i].as_str());
        acc = match (idx, acc) {
            (None, a) => a,
            (Some(n), None) => Some(n),
            (Some(n), Some(m)) => {
                if n > m {
                    Some(n)
                } else {
                    Some(m)
                }
            },
        };
        i = i + 1;
    }
    acc
}

/// Restore the orchestrator generator from a checkpoint, refusing a state
/// blob that does not parse.
pub fn restore_rng(cp: &IntermediateResult) -> (r: Result<TrainRng, TrainError>)
    ensures
        match r {
            Ok(t) => rng_parses(cp@.rng) && t.origin() == crate::rng::restored_origin(cp@.rng) && t.history()
                == Seq::<RngDraw>::empty(),
            Err(e) => e == TrainError::CheckpointCorrupt && !rng_parses(cp@.rng),
        },
{
    match TrainRng::from_state_bytes(cp.rng.as_slice()) {
        Some(t) => Ok(t),
        None => Err(TrainError::CheckpointCorrupt),
    }
}

} // verus!
