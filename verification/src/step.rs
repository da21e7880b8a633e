//! One whole step of the simulation.

use crate::agent::Agent;
use crate::model::{fits, grown, in_reach, interacted, moved, newborns, step, survivors, Outcome};
use crate::phases::{cull, divide_all, divide_by, interact_all, interact_by, move_all, move_by};
use crate::pairs::schedule;
use vstd::prelude::*;

verus! {

/// The outcomes of the draws of one step, given instead of drawn.
#[derive(Clone, Debug)]
pub struct Draws {
    /// The offset of each agent, in the order of the population.
    pub moves: Vec<(i64, i64)>,
    /// Whether the draw hits, for each pair in visiting order.
    pub devours: Vec<bool>,
    /// The draw on division, for each agent that outlives the culling.
    pub births: Vec<bool>,
}

impl View for Draws {
    type V = Outcome;

    open spec fn view(&self) -> Outcome {
        Outcome { moves: self.moves@, devours: self.devours@, births: self.births@ }
    }
}

/// Whether a generator can draw these outcomes in a step of `pop`: they are
/// as many as the step needs, and each offset is within the bound on a move.
pub open spec fn drawable(o: Outcome, pop: Seq<Agent>) -> bool {
    fits(o, pop) && forall|k: int| 0 <= k < o.moves.len() ==> in_reach(#[trigger] o.moves[k])
}

/// Advances the population by one step: every agent moves; every pair within
/// range is visited in order, a predator and a prey interacting; starved
/// predators and devoured prey leave; the others age by `dt` and divide where
/// they are due, the children joining at the end. What comes out is `step`
/// of the population for some outcomes that the generator can draw.
pub fn run_main(agents: &mut Vec<Agent>, dt: i64, rng: &mut rand_chacha::ChaCha8Rng)
    ensures
        exists|o: Outcome| #[trigger] drawable(o, old(agents)@) && final(agents)@ == step(old(agents)@, dt, o),
{
    let ghost start = agents@;
    move_all(agents, rng);
    let ghost placed = agents@;
    interact_all(agents, rng);
    let ghost visited = agents@;
    cull(agents);
    let ghost kept = agents@;
    divide_all(agents, dt, rng);
    proof {
        let moves = choose|moves: Seq<(i64, i64)>|
            moves.len() == start.len() && (forall|k: int|
                0 <= k < moves.len() ==> in_reach(#[trigger] moves[k])) && placed == moved(start, moves);
        let devours = choose|devours: Seq<bool>|
            devours.len() == schedule(placed.len() as int).len() && visited == interacted(placed, devours);
        let births = choose|births: Seq<bool>|
            births.len() == kept.len() && agents@ == grown(kept, dt, births)
                + newborns(kept, dt, births);
        let o = Outcome { moves, devours, births };
        assert(kept == survivors(start, o));
        assert(drawable(o, start) && agents@ == step(start, dt, o));
    }
}

/// A copy of the population.
fn copy_of(agents: &Vec<Agent>) -> (copy: Vec<Agent>)
    ensures
        copy@ == agents@,
{
    let n = agents.len();
    let mut copy: Vec<Agent> = Vec::new();
    let mut i: usize = 0;
    while i < n
        invariant
            i <= n,
            agents.len() == n,
            copy@ == agents@.take(i as int),
        decreases n - i,
    {
        copy.push(agents[i]);
        assert(agents@.take(i + 1) =~= agents@.take(i as int).push(agents@[i as int]));
        i += 1;
    }
    assert(agents@.take(n as int) =~= agents@);
    copy
}

/// Advances the population by one step in which every draw comes out as
/// given. Returns whether the outcomes given are as many as the step draws:
/// an offset for each agent, a draw for each pair, and a draw on division for
/// each agent that outlives the culling. Where they are not, the population
/// is left as it was.
pub fn run_with(agents: &mut Vec<Agent>, dt: i64, draws: &Draws) -> (done: bool)
    ensures
        done == fits(draws@, old(agents)@),
        done ==> final(agents)@ == step(old(agents)@, dt, draws@),
        !done ==> final(agents)@ == old(agents)@,
{
    let mut next = copy_of(agents);
    if !move_by(&mut next, &draws.moves) {
        return false;
    }
    if !interact_by(&mut next, &draws.devours) {
        return false;
    }
    cull(&mut next);
    if !divide_by(&mut next, dt, &draws.births) {
        return false;
    }
    *agents = next;
    true
}

} // verus!
