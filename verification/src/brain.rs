//! Brains: collections of neurone webs, and how they evolve.

use vstd::prelude::*;
use crate::entity::Obstacle;
use crate::neurone::Neurone;
use crate::neurone::NeuroneWeb;
use crate::neurone::NeuroneWebAction;
use crate::neurone::WebView;
use crate::neurone::all_obstacles_wf;
use crate::params::GameParameters;
use crate::params::ParamsView;
use crate::rng::RngDraw;
use crate::rng::TrainRng;
use crate::rng::rng_range_val;
use crate::rng::rng_ratio_val;
use crate::utils::sat_add;
use crate::utils::spec_sat_add;

verus! {

// --------------------------------------------------------------------------
// Action sets
// --------------------------------------------------------------------------

/// The set of actions a brain requests in one tick (set semantics: two webs
/// bound to the same action contribute it once).
#[derive(Debug, Clone, Copy, PartialEq, Eq, Structural)]
pub struct ActionSet {
    pub jump: bool,
    pub bend: bool,
    pub unbend: bool,
}

impl ActionSet {
    /// The empty action set.
    pub open spec fn spec_empty() -> ActionSet {
        ActionSet { jump: false, bend: false, unbend: false }
    }

    /// Whether the set holds the given action.
    pub open spec fn spec_contains(self, action: NeuroneWebAction) -> bool {
        match action {
            NeuroneWebAction::Jump => self.jump,
            NeuroneWebAction::Bend => self.bend,
            NeuroneWebAction::Unbend => self.unbend,
        }
    }

    /// Create the empty action set.
    pub fn empty() -> (r: ActionSet)
        ensures
            r == ActionSet::spec_empty(),
    {
        ActionSet { jump: false, bend: false, unbend: false }
    }

    /// Whether the set holds the given action.
    pub fn contains(&self, action: NeuroneWebAction) -> (r: bool)
        ensures
            r == self.spec_contains(action),
    {
        match action {
            NeuroneWebAction::Jump => self.jump,
            NeuroneWebAction::Bend => self.bend,
            NeuroneWebAction::Unbend => self.unbend,
        }
    }

    /// The set is empty.
    pub fn is_empty(&self) -> (r: bool)
        ensures
            r == (*self == ActionSet::spec_empty()),
    {
        !self.jump && !self.bend && !self.unbend
    }
}

// --------------------------------------------------------------------------
// Brains
// --------------------------------------------------------------------------

/// The view of a list of webs.
pub open spec fn webs_view(v: Seq<NeuroneWeb>) -> Seq<WebView> {
    Seq::new(v.len(), |i: int| v[i]@)
}

/// The evolvable decision unit: a collection of neurone webs.  Mutation
/// always builds a new brain; a surviving ancestor is never edited in place.
#[derive(Debug)]
pub struct Brain {
    pub neurone_web: Vec<NeuroneWeb>,
}

impl View for Brain {
    type V = Seq<WebView>;

    open spec fn view(&self) -> Seq<WebView> {
        webs_view(self.neurone_web@)
    }
}

/// The views of a list of brains.
pub open spec fn brains_view(v: Seq<Brain>) -> Seq<Seq<WebView>> {
    Seq::new(v.len(), |i: int| v[i]@)
}

/// Every web of the brain is well-formed.
pub open spec fn spec_brain_wf(bv: Seq<WebView>, pv: ParamsView) -> bool {
    forall|i: int| 0 <= i < bv.len() ==> (#[trigger] bv[i]).wf(pv)
}

/// Every web of the brain has collision-safe coordinates.
pub open spec fn spec_brain_coord_ok(bv: Seq<WebView>) -> bool {
    forall|i: int| 0 <= i < bv.len() ==> (#[trigger] bv[i]).coord_ok()
}

/// Every brain of the sequence is well-formed.
pub open spec fn all_brains_wf(bvs: Seq<Seq<WebView>>, pv: ParamsView) -> bool {
    forall|i: int| 0 <= i < bvs.len() ==> spec_brain_wf(#[trigger] bvs[i], pv)
}

/// A well-formed neurone is collision-safe: the field is far smaller than
/// the coordinate range.
pub proof fn lemma_brain_wf_coord_ok(bv: Seq<WebView>, pv: ParamsView)
    requires
        pv.wf(),
        spec_brain_wf(bv, pv),
    ensures
        spec_brain_coord_ok(bv),
{
    assert forall|i: int| 0 <= i < bv.len() implies (#[trigger] bv[i]).coord_ok() by {
        assert(bv[i].wf(pv));
        assert forall|j: int|
            0 <= j < bv[i].neurones.len() implies (#[trigger] bv[i].neurones[j]).coord_ok() by {
            assert(bv[i].neurones[j].wf(pv));
        }
    }
}

/// The webs built by `count` random draws, appended to `acc`.
pub open spec fn spec_random_webs(
    pv: ParamsView,
    origin: Seq<u8>,
    history: Seq<RngDraw>,
    count: int,
    acc: Seq<WebView>,
) -> (Seq<WebView>, Seq<RngDraw>)
    decreases count,
{
    if count <= 0 {
        (acc, history)
    } else {
        let (w, h1) = NeuroneWeb::spec_new_random(pv, origin, history);
        spec_random_webs(pv, origin, h1, count - 1, acc.push(w))
    }
}

/// The webs left after one mutation pass from index `i` on: each is dropped
/// with the removal chance, otherwise mutated and kept, in order.
pub open spec fn spec_mutate_webs(
    pv: ParamsView,
    origin: Seq<u8>,
    webs: Seq<WebView>,
    i: int,
    history: Seq<RngDraw>,
    acc: Seq<WebView>,
) -> (Seq<WebView>, Seq<RngDraw>)
    decreases webs.len() - i,
{
    if i < 0 || i >= webs.len() {
        (acc, history)
    } else {
        let flip = rng_ratio_val(origin, history, pv.neurone_web_remove_mutation_rate, 1000);
        let h1 = history.push((1int, pv.neurone_web_remove_mutation_rate as int, 1000int));
        if flip {
            spec_mutate_webs(pv, origin, webs, i + 1, h1, acc)
        } else {
            let (w2, h2) = webs[i].spec_mutate(pv, origin, h1);
            spec_mutate_webs(pv, origin, webs, i + 1, h2, acc.push(w2))
        }
    }
}

/// The saturating sum of the webs' energies from index `i` on, added to
/// `acc`.
pub open spec fn spec_brain_energy_sum(pv: ParamsView, bv: Seq<WebView>, i: int, acc: u64) -> u64
    decreases bv.len() - i,
{
    if i < 0 || i >= bv.len() {
        acc
    } else {
        spec_brain_energy_sum(pv, bv, i + 1, spec_sat_add(acc, bv[i].spec_energy(pv)))
    }
}

/// Some web bound to `action` is activated against these obstacles.
pub open spec fn spec_requests(
    bv: Seq<WebView>,
    obstacles: Seq<Obstacle>,
    action: NeuroneWebAction,
) -> bool {
    exists|i: int|
        0 <= i < bv.len() && (#[trigger] bv[i]).spec_is_activated(obstacles) && bv[i].action
            == action
}

/// The actions a brain view requests: the union of the bound actions of
/// its activated webs.
pub open spec fn spec_activations(bv: Seq<WebView>, obstacles: Seq<Obstacle>) -> ActionSet {
    ActionSet {
        jump: spec_requests(bv, obstacles, NeuroneWebAction::Jump),
        bend: spec_requests(bv, obstacles, NeuroneWebAction::Bend),
        unbend: spec_requests(bv, obstacles, NeuroneWebAction::Unbend),
    }
}

/// Copy a neurone list, keeping its elements.
fn clone_neurones(v: &Vec<Neurone>) -> (r: Vec<Neurone>)
    ensures
        r@ == v@,
{
    let mut r: Vec<Neurone> = Vec::new();
    let mut i: usize = 0;
    while i < v.len()
        invariant
            i <= v@.len(),
            r@ == v@.take(i as int),
        decreases v@.len() - i,
    {
        r.push(v[i]);
        proof {
            assert(r@ =~= v@.take(i as int + 1));
        }
        i = i + 1;
    }
    proof {
        assert(v@.take(v@.len() as int) =~= v@);
    }
    r
}

impl Brain {
    /// The brain built from one size draw and that many web draws.
    pub open spec fn spec_new(
        pv: ParamsView,
        origin: Seq<u8>,
        history: Seq<RngDraw>,
    ) -> (Seq<WebView>, Seq<RngDraw>) {
        let lo = pv.brain_creation_nb_neurone_web_min as u64;
        let hi = pv.brain_creation_nb_neurone_web_max as u64;
        let nb = rng_range_val(origin, history, lo, hi);
        let h1 = history.push((0int, lo as int, hi as int));
        spec_random_webs(pv, origin, h1, nb as int, Seq::empty())
    }

    /// Create a completely random brain.
    pub fn new(params: &GameParameters, rng: &mut TrainRng) -> (r: Brain)
        requires
            params@.wf(),
        ensures
            (r@, final(rng).history()) == Brain::spec_new(
                params@,
                old(rng).origin(),
                old(rng).history(),
            ),
            final(rng).origin() == old(rng).origin(),
            spec_brain_wf(r@, params@),
            params@.brain_creation_nb_neurone_web_min <= r@.len()
                < params@.brain_creation_nb_neurone_web_max,
    {
        let nb = rng.gen_range_u64(
            params.brain_creation_nb_neurone_web_min as u64,
            params.brain_creation_nb_neurone_web_max as u64,
        );
        let ghost h1 = rng.history();
        let mut neurone_web: Vec<NeuroneWeb> = Vec::new();
        proof {
            assert(webs_view(neurone_web@) =~= Seq::<WebView>::empty());
        }
        let mut k: u64 = 0;
        while k < nb
            invariant
                params@.wf(),
                k <= nb,
                neurone_web@.len() == k,
                rng.origin() == old(rng).origin(),
                forall|j: int|
                    0 <= j < neurone_web@.len() ==> (#[trigger] neurone_web@[j])@.wf(params@),
                spec_random_webs(params@, rng.origin(), h1, nb as int, Seq::empty())
                    == spec_random_webs(
                    params@,
                    rng.origin(),
                    rng.history(),
                    nb - k,
                    webs_view(neurone_web@),
                ),
            decreases nb - k,
        {
            let ghost pre = neurone_web@;
            let w = NeuroneWeb::new_random(params, rng);
            neurone_web.push(w);
            proof {
                assert(webs_view(neurone_web@) =~= webs_view(pre).push(w@));
            }
            k = k + 1;
        }
        let r = Brain { neurone_web };
        proof {
            assert forall|i: int| 0 <= i < r@.len() implies (#[trigger] r@[i]).wf(params@) by {
                assert(r@[i] == r.neurone_web@[i]@);
            }
        }
        r
    }

    /// The brain after mutation: a removal-or-mutation pass over its webs
    /// and a chance to append a fresh web.  No action re-roll happens at
    /// this level.
    pub open spec fn spec_mutate(
        self,
        pv: ParamsView,
        origin: Seq<u8>,
        history: Seq<RngDraw>,
    ) -> (Seq<WebView>, Seq<RngDraw>) {
        let (kept, h1) = spec_mutate_webs(pv, origin, self@, 0, history, Seq::empty());
        let flip_add = rng_ratio_val(origin, h1, pv.neurone_web_add_mutation_rate, 1000);
        let h2 = h1.push((1int, pv.neurone_web_add_mutation_rate as int, 1000int));
        if flip_add {
            let (w, h3) = NeuroneWeb::spec_new_random(pv, origin, h2);
            (kept.push(w), h3)
        } else {
            (kept, h2)
        }
    }

    /// Mutate this brain into a new one; the ancestor stays untouched.
    pub fn mutate(&self, params: &GameParameters, rng: &mut TrainRng) -> (r: Brain)
        requires
            params@.wf(),
            spec_brain_wf(self@, params@),
        ensures
            (r@, final(rng).history()) == self.spec_mutate(
                params@,
                old(rng).origin(),
                old(rng).history(),
            ),
            final(rng).origin() == old(rng).origin(),
            spec_brain_wf(r@, params@),
    {
        let ghost h0 = rng.history();
        let mut kept: Vec<NeuroneWeb> = Vec::new();
        proof {
            assert(webs_view(kept@) =~= Seq::<WebView>::empty());
        }
        let mut i: usize = 0;
        while i < self.neurone_web.len()
            invariant
                params@.wf(),
                spec_brain_wf(self@, params@),
                i <= self.neurone_web@.len(),
                forall|j: int| 0 <= j < kept@.len() ==> (#[trigger] kept@[j])@.wf(params@),
                rng.origin() == old(rng).origin(),
                spec_mutate_webs(params@, rng.origin(), self@, 0, h0, Seq::empty())
                    == spec_mutate_webs(
                    params@,
                    rng.origin(),
                    self@,
                    i as int,
                    rng.history(),
                    webs_view(kept@),
                ),
            decreases self.neurone_web@.len() - i,
        {
            if rng.gen_ratio(params.neurone_web_remove_mutation_rate, 1000) {
                // marked for removal: drop it
            } else {
                proof {
                    assert(self@[i as int].wf(params@));
                    assert(self@[i as int] == self.neurone_web@[i as int]@);
                }
                let mut w = NeuroneWeb {
                    neurones: clone_neurones(&self.neurone_web[i].neurones),
                    action: self.neurone_web[i].action,
                };
                proof {
                    assert(w@ =~= self.neurone_web@[i as int]@);
                }
                let ghost pre = kept@;
                w.mutate(params, rng);
                kept.push(w);
                proof {
                    assert(webs_view(kept@) =~= webs_view(pre).push(w@));
                }
            }
            i = i + 1;
        }
        if rng.gen_ratio(params.neurone_web_add_mutation_rate, 1000) {
            let ghost pre = kept@;
            let w = NeuroneWeb::new_random(params, rng);
            kept.push(w);
            proof {
                assert(webs_view(kept@) =~= webs_view(pre).push(w@));
            }
        }
        let r = Brain { neurone_web: kept };
        proof {
            assert forall|j: int| 0 <= j < r@.len() implies (#[trigger] r@[j]).wf(params@) by {
                assert(r@[j] == r.neurone_web@[j]@);
            }
        }
        r
    }

    /// The actions this brain requests: the union of the bound actions of
    /// its activated webs.
    pub open spec fn spec_get_activations(self, obstacles: Seq<Obstacle>) -> ActionSet {
        spec_activations(self@, obstacles)
    }

    /// The actions this brain requests against the given obstacles.
    pub fn get_activations(&self, obstacles: &Vec<Obstacle>) -> (r: ActionSet)
        requires
            spec_brain_coord_ok(self@),
            all_obstacles_wf(obstacles@),
        ensures
            r == self.spec_get_activations(obstacles@),
    {
        let mut activations = ActionSet::empty();
        let mut i: usize = 0;
        while i < self.neurone_web.len()
            invariant
                spec_brain_coord_ok(self@),
                all_obstacles_wf(obstacles@),
                i <= self.neurone_web@.len(),
                activations.jump == (exists|k: int|
                    0 <= k < i && (#[trigger] self@[k]).spec_is_activated(obstacles@) && self@[k].action
                        == NeuroneWebAction::Jump),
                activations.bend == (exists|k: int|
                    0 <= k < i && (#[trigger] self@[k]).spec_is_activated(obstacles@) && self@[k].action
                        == NeuroneWebAction::Bend),
                activations.unbend == (exists|k: int|
                    0 <= k < i && (#[trigger] self@[k]).spec_is_activated(obstacles@) && self@[k].action
                        == NeuroneWebAction::Unbend),
            decreases self.neurone_web@.len() - i,
        {
            proof {
                assert(self@[i as int].coord_ok());
                assert(self@[i as int] == self.neurone_web@[i as int]@);
            }
            if self.neurone_web[i].is_activated(obstacles) {
                match self.neurone_web[i].action {
                    NeuroneWebAction::Jump => {
                        activations.jump = true;
                    },
                    NeuroneWebAction::Bend => {
                        activations.bend = true;
                    },
                    NeuroneWebAction::Unbend => {
                        activations.unbend = true;
                    },
                }
            }
            i = i + 1;
        }
        activations
    }

    /// The energy of a brain: the saturating sum of its webs' energies.
    pub open spec fn spec_energie(self, pv: ParamsView) -> u64 {
        spec_brain_energy_sum(pv, self@, 0, 0)
    }

    /// The energy of this brain under the given configuration.  Energy is a
    /// pure structural metric, used only to break ties at the score ceiling.
    pub fn get_energie(&self, params: &GameParameters) -> (r: u64)
        requires
            params@.wf(),
            spec_brain_wf(self@, params@),
        ensures
            r == self.spec_energie(params@),
    {
        let mut energie: u64 = 0;
        let mut i: usize = 0;
        while i < self.neurone_web.len()
            invariant
                params@.wf(),
                spec_brain_wf(self@, params@),
                i <= self.neurone_web@.len(),
                spec_brain_energy_sum(params@, self@, 0, 0) == spec_brain_energy_sum(
                    params@,
                    self@,
                    i as int,
                    energie,
                ),
            decreases self.neurone_web@.len() - i,
        {
            proof {
                assert(self@[i as int].wf(params@));
                assert(self@[i as int] == self.neurone_web@[i as int]@);
            }
            energie = sat_add(energie, self.neurone_web[i].get_energy(params));
            i = i + 1;
        }
        energie
    }

    /// The next generation bred from `brains`, starting at parent `idx`:
    /// each of `count` offspring mutates the next parent in rotation.
    pub open spec fn spec_mutate_all_from(
        pv: ParamsView,
        brains: Seq<Seq<WebView>>,
        idx: int,
        count: int,
        origin: Seq<u8>,
        history: Seq<RngDraw>,
        acc: Seq<Seq<WebView>>,
    ) -> (Seq<Seq<WebView>>, Seq<RngDraw>)
        recommends
            brains.len() >= 1,
            0 <= idx < brains.len(),
        decreases count,
    {
        if count <= 0 {
            (acc, history)
        } else {
            let (kept, h1) = spec_mutate_webs(pv, origin, brains[idx], 0, history, Seq::empty());
            let flip_add = rng_ratio_val(origin, h1, pv.neurone_web_add_mutation_rate, 1000);
            let h2 = h1.push((1int, pv.neurone_web_add_mutation_rate as int, 1000int));
            let (child, h3): (Seq<WebView>, Seq<RngDraw>) = if flip_add {
                let (w, h) = NeuroneWeb::spec_new_random(pv, origin, h2);
                (kept.push(w), h)
            } else {
                (kept, h2)
            };
            let idx2: int = if idx + 1 >= brains.len() {
                0
            } else {
                idx + 1
            };
            Brain::spec_mutate_all_from(pv, brains, idx2, count - 1, origin, h3, acc.push(child))
        }
    }

    /// Breed the next generation from `brains`, starting at parent
    /// `start_i` and rotating: offspring `k` mutates parent
    /// `(start_i + k) % brains.len()`.
    pub fn mutate_all_from(
        params: &GameParameters,
        brains: &Vec<Brain>,
        start_i: usize,
        rng: &mut TrainRng,
    ) -> (r: Vec<Brain>)
        requires
            params@.wf(),
            brains@.len() >= 1,
            start_i < brains@.len(),
            all_brains_wf(brains_view(brains@), params@),
        ensures
            (brains_view(r@), final(rng).history()) == Brain::spec_mutate_all_from(
                params@,
                brains_view(brains@),
                start_i as int,
                params.training_nb_brain as int,
                old(rng).origin(),
                old(rng).history(),
                Seq::empty(),
            ),
            final(rng).origin() == old(rng).origin(),
            all_brains_wf(brains_view(r@), params@),
            r@.len() == params.training_nb_brain,
    {
        let ghost h0 = rng.history();
        let mut i = start_i;
        let mut next_brains: Vec<Brain> = Vec::new();
        proof {
            assert(brains_view(next_brains@) =~= Seq::<Seq<WebView>>::empty());
        }
        let mut t: u64 = 0;
        while t < params.training_nb_brain
            invariant
                params@.wf(),
                brains@.len() >= 1,
                i < brains@.len(),
                all_brains_wf(brains_view(brains@), params@),
                t <= params.training_nb_brain,
                next_brains@.len() == t,
                forall|j: int|
                    0 <= j < next_brains@.len() ==> spec_brain_wf(
                        (#[trigger] next_brains@[j])@,
                        params@,
                    ),
                rng.origin() == old(rng).origin(),
                Brain::spec_mutate_all_from(
                    params@,
                    brains_view(brains@),
                    start_i as int,
                    params.training_nb_brain as int,
                    rng.origin(),
                    h0,
                    Seq::empty(),
                ) == Brain::spec_mutate_all_from(
                    params@,
                    brains_view(brains@),
                    i as int,
                    params.training_nb_brain - t,
                    rng.origin(),
                    rng.history(),
                    brains_view(next_brains@),
                ),
            decreases params.training_nb_brain - t,
        {
            proof {
                assert(spec_brain_wf(brains_view(brains@)[i as int], params@));
                assert(brains_view(brains@)[i as int] == brains@[i as int]@);
            }
            let ghost pre = next_brains@;
            let brain = brains[i].mutate(params, rng);
            next_brains.push(brain);
            proof {
                assert(brains_view(next_brains@) =~= brains_view(pre).push(brain@));
            }
            if i >= brains.len() - 1 {
                i = 0;
            } else {
                i = i + 1;
            }
            t = t + 1;
        }
        next_brains
    }

    /// Breed the next generation from a randomly drawn starting parent.
    pub open spec fn spec_mutate_all(
        pv: ParamsView,
        brains: Seq<Seq<WebView>>,
        origin: Seq<u8>,
        history: Seq<RngDraw>,
    ) -> (Seq<Seq<WebView>>, Seq<RngDraw>)
        recommends
            brains.len() >= 1,
    {
        let start = rng_range_val(origin, history, 0, brains.len() as u64);
        let h1 = history.push((0int, 0int, brains.len() as int));
        Brain::spec_mutate_all_from(
            pv,
            brains,
            start as int,
            pv.training_nb_brain as int,
            origin,
            h1,
            Seq::empty(),
        )
    }

    /// Mutate a generation of brains into the next one: draw a random
    /// starting parent, then rotate through the survivors.
    pub fn mutate_all(params: &GameParameters, brains: &Vec<Brain>, rng: &mut TrainRng) -> (r: Vec<
        Brain,
    >)
        requires
            params@.wf(),
            brains@.len() >= 1,
            all_brains_wf(brains_view(brains@), params@),
        ensures
            (brains_view(r@), final(rng).history()) == Brain::spec_mutate_all(
                params@,
                brains_view(brains@),
                old(rng).origin(),
                old(rng).history(),
            ),
            final(rng).origin() == old(rng).origin(),
            all_brains_wf(brains_view(r@), params@),
            r@.len() == params.training_nb_brain,
    {
        let start_i = rng.gen_range_u64(0, brains.len() as u64);
        Brain::mutate_all_from(params, brains, start_i as usize, rng)
    }
}

/// Copy a neurone web, keeping its neurones and action.
pub fn clone_web(w: &NeuroneWeb) -> (r: NeuroneWeb)
    ensures
        r@ == w@,
{
    NeuroneWeb { neurones: clone_neurones(&w.neurones), action: w.action }
}

/// Copy a brain, keeping its webs.
pub fn clone_brain(b: &Brain) -> (r: Brain)
    ensures
        r@ == b@,
{
    let mut webs: Vec<NeuroneWeb> = Vec::new();
    proof {
        assert(webs_view(webs@) =~= Seq::<WebView>::empty());
    }
    let mut i: usize = 0;
    while i < b.neurone_web.len()
        invariant
            i <= b.neurone_web@.len(),
            webs_view(webs@) == b@.take(i as int),
        decreases b.neurone_web@.len() - i,
    {
        let ghost pre = webs@;
        let w = clone_web(&b.neurone_web[i]);
        webs.push(w);
        proof {
            assert(webs_view(webs@) =~= webs_view(pre).push(w@));
            assert(b@[i as int] == b.neurone_web@[i as int]@);
            assert(webs_view(webs@) =~= b@.take(i as int + 1));
        }
        i = i + 1;
    }
    let r = Brain { neurone_web: webs };
    proof {
        assert(b@.take(b@.len() as int) =~= b@);
        assert(r@ =~= webs_view(webs@));
    }
    r
}

/// Whether two brains hold the same webs in the same order.
pub fn brains_eq(a: &Brain, b: &Brain) -> (r: bool)
    ensures
        r == (a@ == b@),
{
    if a.neurone_web.len() != b.neurone_web.len() {
        proof {
            assert(a@.len() != b@.len());
        }
        return false;
    }
    let mut i: usize = 0;
    while i < a.neurone_web.len()
        invariant
            a.neurone_web@.len() == b.neurone_web@.len(),
            i <= a.neurone_web@.len(),
            forall|j: int| 0 <= j < i ==> a@[j] == b@[j],
        decreases a.neurone_web@.len() - i,
    {
        if !(a.neurone_web[i] == b.neurone_web[i]) {
            proof {
                assert(a@[i as int] == a.neurone_web@[i as int]@);
                assert(b@[i as int] == b.neurone_web@[i as int]@);
            }
            return false;
        }
        proof {
            assert(a@[i as int] == a.neurone_web@[i as int]@);
            assert(b@[i as int] == b.neurone_web@[i as int]@);
        }
        i = i + 1;
    }
    proof {
        assert(a@ =~= b@);
    }
    true
}

impl PartialEq for Brain {
    /// Two brains are equal when they hold the same webs in the same order.
    fn eq(&self, other: &Brain) -> (r: bool) {
        brains_eq(self, other)
    }
}

impl vstd::std_specs::cmp::PartialEqSpecImpl for Brain {
    open spec fn obeys_eq_spec() -> bool {
        true
    }

    open spec fn eq_spec(&self, other: &Brain) -> bool {
        self@ == other@
    }
}

} // verus!
