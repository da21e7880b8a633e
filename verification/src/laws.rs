//! What holds of every step, whatever the draws.

use crate::agent::{in_domain, met, near, Agent, Species};
use crate::census::{predators, prey};
use crate::model::{
    culled, encounters, fits, interacted, meet_at, moved, newborns, parent_after, starve_marked,
    step, survivors, Outcome,
};
use crate::pairs::{rank_of_entry, schedule};
use crate::units::{half, sat, NUTRIENT_DIVISION_THRESHOLD, NUTRIENT_INCREASE};
use vstd::prelude::*;

verus! {

/// Whether culling keeps the agent: it is neither marked nor starved.
pub open spec fn fit(a: Agent) -> bool {
    !a.removal && !a.starved()
}

/// An agent is of one species for life: nothing that a step does to it makes
/// a predator of a prey or a prey of a predator, and a child is of its
/// parent's species.
pub proof fn species_is_for_life(a: Agent, dt: i64, dx: i64, dy: i64)
    ensures
        a.shifted(dx, dy).species is Predator <==> a.species is Predator,
        a.fed().species is Predator <==> a.species is Predator,
        a.devoured().species is Predator <==> a.species is Predator,
        a.starve_flagged().species is Predator <==> a.species is Predator,
        a.aged(dt).species is Predator <==> a.species is Predator,
        a.after_division().species is Predator <==> a.species is Predator,
        a.offspring().species is Predator <==> a.species is Predator,
{
}

/// Wherever an agent stood and whatever the offset, a move ends in the
/// domain, and changes nothing but the agent's place.
pub proof fn move_ends_in_domain(a: Agent, dx: i64, dy: i64)
    ensures
        in_domain(a.shifted(dx, dy).pos),
        a.shifted(dx, dy).species == a.species,
        a.shifted(dx, dy).removal == a.removal,
{
}

/// After the move phase every agent of the population lies in the domain,
/// whatever the places before and whatever the offsets.
pub proof fn moved_population_in_domain(pop: Seq<Agent>, moves: Seq<(i64, i64)>)
    ensures
        moved(pop, moves).len() == pop.len(),
        forall|k: int| 0 <= k < pop.len() ==> in_domain(#[trigger] moved(pop, moves)[k].pos),
{
}

/// An encounter does not depend on the order in which the two agents are
/// given: each ends the same whichever was named first. Where a predator
/// meets a prey and the draw hits, the prey is marked and the predator fed.
pub proof fn encounter_ignores_order(a: Agent, b: Agent, devour: bool)
    ensures
        met(b, a, devour) == (met(a, b, devour).1, met(a, b, devour).0),
        near(a.pos, b.pos) == near(b.pos, a.pos),
        a.species is Predator && b.species is Prey ==> met(a, b, true) == (a.fed(), b.devoured())
            && b.devoured().removal && a.fed().species == (Species::Predator {
            nutrients: sat(a.species->nutrients + NUTRIENT_INCREASE),
        }),
        met(a, b, false) == (a, b),
{
    assert((a.pos.x - b.pos.x) * (a.pos.x - b.pos.x) == (b.pos.x - a.pos.x) * (b.pos.x - a.pos.x))
        by (nonlinear_arith);
    assert((a.pos.y - b.pos.y) * (a.pos.y - b.pos.y) == (b.pos.y - a.pos.y) * (b.pos.y - a.pos.y))
        by (nonlinear_arith);
}

/// A visit to two different agents of a population comes out the same
/// whichever of the two indices is named first.
pub proof fn visit_ignores_order(pop: Seq<Agent>, i: int, j: int, devour: bool)
    requires
        0 <= i < pop.len(),
        0 <= j < pop.len(),
        i != j,
    ensures
        meet_at(pop, i, j, devour) == meet_at(pop, j, i, devour),
{
    encounter_ignores_order(pop[i], pop[j], devour);
    assert(meet_at(pop, i, j, devour) =~= meet_at(pop, j, i, devour));
}

/// Visits change neither the size of the population nor any agent's place or
/// kind.
proof fn encounters_keep_places(pop: Seq<Agent>, devours: Seq<bool>)
    requires
        devours.len() <= schedule(pop.len() as int).len(),
    ensures
        encounters(pop, schedule(pop.len() as int), devours).len() == pop.len(),
        forall|k: int|
            0 <= k < pop.len() ==> (#[trigger] encounters(
                pop,
                schedule(pop.len() as int),
                devours,
            )[k]).pos == pop[k].pos && (encounters(pop, schedule(pop.len() as int), devours)[k].species is Predator
                <==> pop[k].species is Predator),
    decreases devours.len(),
{
    if devours.len() > 0 {
        let n = pop.len() as int;
        let k = devours.len() - 1;
        encounters_keep_places(pop, devours.drop_last());
        rank_of_entry(k, n, n);
    }
}

/// Visits in which no draw hits change nothing.
proof fn quiet_encounters(pop: Seq<Agent>, devours: Seq<bool>)
    requires
        devours.len() <= schedule(pop.len() as int).len(),
        forall|k: int| 0 <= k < devours.len() ==> !devours[k],
    ensures
        encounters(pop, schedule(pop.len() as int), devours) == pop,
    decreases devours.len(),
{
    if devours.len() > 0 {
        let n = pop.len() as int;
        let k = devours.len() - 1;
        quiet_encounters(pop, devours.drop_last());
        rank_of_entry(k, n, n);
        assert(encounters(pop, schedule(n), devours) =~= pop);
    }
}

/// Culling keeps exactly the agents that are neither marked nor starved, in
/// their order and as they were.
pub proof fn culling_keeps_the_fit(pop: Seq<Agent>)
    ensures
        culled(pop) == pop.filter(|a: Agent| fit(a)),
        culled(pop).len() <= pop.len(),
        forall|k: int| 0 <= k < culled(pop).len() ==> fit(#[trigger] culled(pop)[k]),
        forall|k: int| 0 <= k < culled(pop).len() ==> pop.contains(#[trigger] culled(pop)[k]),
    decreases pop.len(),
{
    reveal(Seq::filter);
    if pop.len() > 0 {
        culling_keeps_the_fit(pop.drop_last());
        assert(starve_marked(pop).drop_last() =~= starve_marked(pop.drop_last()));
        assert forall|k: int| 0 <= k < culled(pop).len() implies pop.contains(
            #[trigger] culled(pop)[k],
        ) by {
            if k < culled(pop.drop_last()).len() {
                let a = culled(pop.drop_last())[k];
                assert(pop.drop_last().contains(a));
                let m = choose|m: int| 0 <= m < pop.drop_last().len() && pop.drop_last()[m] == a;
                assert(pop[m] == a);
            } else {
                assert(culled(pop)[k] == pop[pop.len() - 1]);
            }
        }
    } else {
        assert(starve_marked(pop) =~= pop);
    }
}

/// A filter that rejects one of the members hands back fewer than it got.
proof fn filter_drops(s: Seq<Agent>, pred: spec_fn(Agent) -> bool, i: int)
    requires
        0 <= i < s.len(),
        !pred(s[i]),
    ensures
        s.filter(pred).len() < s.len(),
    decreases s.len(),
{
    reveal(Seq::filter);
    s.drop_last().lemma_filter_len(pred);
    if i < s.len() - 1 {
        filter_drops(s.drop_last(), pred, i);
    }
}

/// A predator that enters a step with nothing left and catches nothing in it
/// is gone when the step ends: it is starved when the culling comes, the
/// survivors are the moved agents that are neither marked nor starved, and
/// there are fewer of them than agents entered the step.
pub proof fn starved_predator_leaves(pop: Seq<Agent>, o: Outcome, i: int)
    requires
        fits(o, pop),
        0 <= i < pop.len(),
        pop[i].starved(),
        forall|k: int| 0 <= k < o.devours.len() ==> !o.devours[k],
    ensures
        !fit(moved(pop, o.moves)[i]),
        survivors(pop, o) == moved(pop, o.moves).filter(|a: Agent| fit(a)),
        survivors(pop, o).len() < pop.len(),
{
    let placed = moved(pop, o.moves);
    quiet_encounters(placed, o.devours);
    culling_keeps_the_fit(placed);
    filter_drops(placed, |a: Agent| fit(a), i);
}

/// No starved predator and no marked agent outlives the culling of a step,
/// whatever the draws.
pub proof fn survivors_are_fit(pop: Seq<Agent>, o: Outcome)
    ensures
        forall|k: int| 0 <= k < survivors(pop, o).len() ==> fit(#[trigger] survivors(pop, o)[k]),
{
    culling_keeps_the_fit(interacted(moved(pop, o.moves), o.devours));
}

/// A predator whose reserve has reached the threshold when it has aged
/// divides whatever the draw; it has exactly one child; parent and child each
/// end with half of the reserve, rounded toward zero, so that together they
/// hold what the parent held, less one unit where that was odd.
pub proof fn predator_division_is_even(a: Agent, dt: i64, draw: bool)
    requires
        a.aged(dt).species is Predator,
        a.aged(dt).species->nutrients >= NUTRIENT_DIVISION_THRESHOLD,
    ensures
        a.aged(dt).divides(draw),
        parent_after(a, dt, draw).species == (Species::Predator {
            nutrients: half(a.aged(dt).species->nutrients as int) as i64,
        }),
        newborns(seq![a], dt, seq![draw]) == seq![a.aged(dt).offspring()],
        a.aged(dt).offspring().species == parent_after(a, dt, draw).species,
        a.aged(dt).species->nutrients - 1 <= 2 * half(a.aged(dt).species->nutrients as int)
            <= a.aged(dt).species->nutrients,
{
    let pop = seq![a];
    let births = seq![draw];
    assert(births.drop_last() =~= Seq::<bool>::empty());
    assert(newborns(pop, dt, births.drop_last()) =~= Seq::<Agent>::empty());
    assert(newborns(pop, dt, births) =~= seq![a.aged(dt).offspring()]);
}

/// Each child is what the division of one of the agents before it left.
proof fn newborns_have_parents(pop: Seq<Agent>, dt: i64, births: Seq<bool>)
    requires
        births.len() <= pop.len(),
    ensures
        newborns(pop, dt, births).len() <= births.len(),
        forall|k: int|
            0 <= k < newborns(pop, dt, births).len() ==> exists|m: int|
                0 <= m < births.len() && pop[m].aged(dt).divides(births[m]) && #[trigger] newborns(
                    pop,
                    dt,
                    births,
                )[k] == (#[trigger] pop[m]).aged(dt).offspring(),
    decreases births.len(),
{
    if births.len() > 0 {
        let last = births.len() - 1;
        let rest = newborns(pop, dt, births.drop_last());
        newborns_have_parents(pop, dt, births.drop_last());
        assert forall|k: int| 0 <= k < newborns(pop, dt, births).len() implies exists|m: int|
            0 <= m < births.len() && pop[m].aged(dt).divides(births[m]) && #[trigger] newborns(
                pop,
                dt,
                births,
            )[k] == (#[trigger] pop[m]).aged(dt).offspring() by {
            if k < rest.len() {
                let m = choose|m: int|
                    0 <= m < births.drop_last().len() && pop[m].aged(dt).divides(
                        births.drop_last()[m],
                    ) && rest[k] == (#[trigger] pop[m]).aged(dt).offspring();
                assert(0 <= m < births.len() && pop[m].aged(dt).divides(births[m]) && newborns(
                    pop,
                    dt,
                    births,
                )[k] == pop[m].aged(dt).offspring());
            } else {
                assert(newborns(pop, dt, births)[k] == pop[last].aged(dt).offspring());
            }
        }
    }
}

/// The children of a step take no part in it. Moving, meeting and culling
/// see exactly the agents that entered the step; what the step hands back is
/// first the survivors, each aged and divided where due, and then the
/// children, each as the division of a survivor left it: not moved, not aged
/// and not divided itself.
pub proof fn newborns_are_isolated(pop: Seq<Agent>, dt: i64, o: Outcome)
    requires
        fits(o, pop),
    ensures
        moved(pop, o.moves).len() == pop.len(),
        interacted(moved(pop, o.moves), o.devours).len() == pop.len(),
        survivors(pop, o).len() <= pop.len(),
        step(pop, dt, o).len() == survivors(pop, o).len() + newborns(
            survivors(pop, o),
            dt,
            o.births,
        ).len(),
        forall|k: int|
            0 <= k < survivors(pop, o).len() ==> #[trigger] step(pop, dt, o)[k] == parent_after(
                survivors(pop, o)[k],
                dt,
                o.births[k],
            ),
        forall|k: int|
            survivors(pop, o).len() <= k < step(pop, dt, o).len() ==> exists|m: int|
                0 <= m < survivors(pop, o).len() && survivors(pop, o)[m].aged(dt).divides(
                    o.births[m],
                ) && #[trigger] step(pop, dt, o)[k] == (#[trigger] survivors(pop, o)[m]).aged(
                    dt,
                ).offspring(),
{
    let placed = moved(pop, o.moves);
    let visited = interacted(placed, o.devours);
    let s = survivors(pop, o);
    encounters_keep_places(placed, o.devours);
    culling_keeps_the_fit(visited);
    newborns_have_parents(s, dt, o.births);
    let young = newborns(s, dt, o.births);
    assert forall|k: int| s.len() <= k < step(pop, dt, o).len() implies exists|m: int|
        0 <= m < s.len() && s[m].aged(dt).divides(o.births[m]) && #[trigger] step(pop, dt, o)[k]
            == (#[trigger] s[m]).aged(dt).offspring() by {
        let m = choose|m: int|
            0 <= m < o.births.len() && s[m].aged(dt).divides(o.births[m]) && young[k - s.len()]
                == (#[trigger] s[m]).aged(dt).offspring();
        assert(step(pop, dt, o)[k] == s[m].aged(dt).offspring());
    }
}

/// When a step ends every agent lies in the domain and none is marked.
pub proof fn step_ends_in_domain_unmarked(pop: Seq<Agent>, dt: i64, o: Outcome)
    requires
        fits(o, pop),
    ensures
        forall|k: int|
            0 <= k < step(pop, dt, o).len() ==> in_domain((#[trigger] step(pop, dt, o)[k]).pos)
                && !step(pop, dt, o)[k].removal,
{
    let placed = moved(pop, o.moves);
    let visited = interacted(placed, o.devours);
    let s = survivors(pop, o);
    encounters_keep_places(placed, o.devours);
    culling_keeps_the_fit(visited);
    newborns_are_isolated(pop, dt, o);
    assert forall|m: int| 0 <= m < s.len() implies in_domain((#[trigger] s[m]).pos) && !s[m].removal by {
        assert(visited.contains(s[m]));
        let q = choose|q: int| 0 <= q < visited.len() && visited[q] == s[m];
        assert(visited[q].pos == placed[q].pos);
        assert(in_domain(placed[q].pos));
        assert(fit(s[m]));
    }
    assert forall|k: int| 0 <= k < step(pop, dt, o).len() implies in_domain(
        (#[trigger] step(pop, dt, o)[k]).pos,
    ) && !step(pop, dt, o)[k].removal by {
        if k < s.len() {
            assert(step(pop, dt, o)[k] == parent_after(s[k], dt, o.births[k]));
        } else {
            let m = choose|m: int|
                0 <= m < s.len() && s[m].aged(dt).divides(o.births[m]) && step(pop, dt, o)[k] == (
                #[trigger] s[m]).aged(dt).offspring();
            assert(in_domain(s[m].pos));
        }
    }
}

/// A step is determined by what it is given: two runs that start from the
/// same population in the same order, with the same step length, and whose
/// draws come out the same, end in the same population, and so in the same
/// counts.
pub proof fn step_is_determined(
    pop1: Seq<Agent>,
    pop2: Seq<Agent>,
    dt: i64,
    o1: Outcome,
    o2: Outcome,
)
    requires
        pop1 =~= pop2,
        o1.moves =~= o2.moves,
        o1.devours =~= o2.devours,
        o1.births =~= o2.births,
    ensures
        step(pop1, dt, o1) == step(pop2, dt, o2),
        predators(step(pop1, dt, o1)) == predators(step(pop2, dt, o2)),
        prey(step(pop1, dt, o1)) == prey(step(pop2, dt, o2)),
{
}

} // verus!
