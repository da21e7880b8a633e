//! What one step makes of a population, as a function of the population, the
//! length of the step and the outcomes of the draws.

use crate::agent::{met, near, Agent};
use crate::pairs::schedule;
use crate::units::DX_MOVE;
use vstd::prelude::*;

verus! {

/// The outcomes of all draws of one step: an offset for each agent, whether
/// the draw hit for each pair in visiting order, and the draw on division for
/// each agent that outlived the culling.
pub struct Outcome {
    pub moves: Seq<(i64, i64)>,
    pub devours: Seq<bool>,
    pub births: Seq<bool>,
}

/// Whether an offset is one that a move can draw.
pub open spec fn in_reach(m: (i64, i64)) -> bool {
    -DX_MOVE <= m.0 < DX_MOVE && -DX_MOVE <= m.1 < DX_MOVE
}

/// The population after each agent was moved by its offset.
pub open spec fn moved(pop: Seq<Agent>, moves: Seq<(i64, i64)>) -> Seq<Agent> {
    Seq::new(pop.len(), |i: int| pop[i].shifted(moves[i].0, moves[i].1))
}

/// The population after the agents at `i` and `j` were visited as a pair:
/// within range of each other they meet, else nothing happens.
pub open spec fn meet_at(pop: Seq<Agent>, i: int, j: int, devour: bool) -> Seq<Agent> {
    if near(pop[i].pos, pop[j].pos) {
        let pair = met(pop[i], pop[j], devour);
        pop.update(i, pair.0).update(j, pair.1)
    } else {
        pop
    }
}

/// The population after the first `devours.len()` pairs of `pairs` were
/// visited in order, each with its draw.
pub open spec fn encounters(pop: Seq<Agent>, pairs: Seq<(int, int)>, devours: Seq<bool>) -> Seq<
    Agent,
>
    decreases devours.len(),
{
    if devours.len() == 0 {
        pop
    } else {
        let k = devours.len() - 1;
        meet_at(encounters(pop, pairs, devours.drop_last()), pairs[k].0, pairs[k].1, devours[k])
    }
}

/// The population after all its pairs were visited.
pub open spec fn interacted(pop: Seq<Agent>, devours: Seq<bool>) -> Seq<Agent> {
    encounters(pop, schedule(pop.len() as int), devours)
}

/// The population with every starved predator marked.
pub open spec fn starve_marked(pop: Seq<Agent>) -> Seq<Agent> {
    pop.map_values(|a: Agent| a.starve_flagged())
}

/// The agents that outlive the culling, in their order: those that are
/// neither marked nor starved.
pub open spec fn culled(pop: Seq<Agent>) -> Seq<Agent> {
    starve_marked(pop).filter(|a: Agent| !a.removal)
}

/// The agent after aging by `dt` and, where it divides, after the division.
pub open spec fn parent_after(a: Agent, dt: i64, draw: bool) -> Agent {
    if a.aged(dt).divides(draw) {
        a.aged(dt).after_division()
    } else {
        a.aged(dt)
    }
}

/// The population after each agent aged and the dividing ones divided,
/// without their children.
pub open spec fn grown(pop: Seq<Agent>, dt: i64, births: Seq<bool>) -> Seq<Agent> {
    Seq::new(pop.len(), |i: int| parent_after(pop[i], dt, births[i]))
}

/// The children of the first `births.len()` agents, in the order of their
/// parents.
pub open spec fn newborns(pop: Seq<Agent>, dt: i64, births: Seq<bool>) -> Seq<Agent>
    decreases births.len(),
{
    if births.len() == 0 {
        Seq::empty()
    } else {
        let k = births.len() - 1;
        let rest = newborns(pop, dt, births.drop_last());
        if pop[k].aged(dt).divides(births[k]) {
            rest.push(pop[k].aged(dt).offspring())
        } else {
            rest
        }
    }
}

/// The agents that are left when moving, meeting and culling are over.
pub open spec fn survivors(pop: Seq<Agent>, o: Outcome) -> Seq<Agent> {
    culled(interacted(moved(pop, o.moves), o.devours))
}

/// Whether the outcomes are as many as a step of `pop` draws.
pub open spec fn fits(o: Outcome, pop: Seq<Agent>) -> bool {
    &&& o.moves.len() == pop.len()
    &&& o.devours.len() == schedule(pop.len() as int).len()
    &&& o.births.len() == survivors(pop, o).len()
}

/// The population after one step: the survivors, aged and divided, followed
/// by the children born in this step.
pub open spec fn step(pop: Seq<Agent>, dt: i64, o: Outcome) -> Seq<Agent> {
    grown(survivors(pop, o), dt, o.births) + newborns(survivors(pop, o), dt, o.births)
}

} // verus!
