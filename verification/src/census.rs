//! Founding a population and counting it.

use crate::agent::{Agent, Point, Species};
use crate::dice::draw_between;
use crate::units::{DOMAIN_MAX, INITIAL_NUTRIENTS};
use vstd::prelude::*;

verus! {

/// The number of predators in a population.
pub open spec fn predators(pop: Seq<Agent>) -> nat {
    pop.filter(|a: Agent| a.species is Predator).len()
}

/// The number of prey in a population.
pub open spec fn prey(pop: Seq<Agent>) -> nat {
    pop.filter(|a: Agent| a.species is Prey).len()
}

/// Whether the agent is one that a population is founded with: unmarked, of
/// the given kind, a prey just born or a predator with the initial reserve,
/// at a place in the domain below its upper end.
pub open spec fn founder(a: Agent, predator: bool) -> bool {
    &&& !a.removal
    &&& 0 <= a.pos.x < DOMAIN_MAX
    &&& 0 <= a.pos.y < DOMAIN_MAX
    &&& a.species == if predator {
        Species::Predator { nutrients: INITIAL_NUTRIENTS }
    } else {
        Species::Prey { age: 0 }
    }
}

/// Counts the predators and the prey, in this order.
pub fn census(agents: &Vec<Agent>) -> (counts: (usize, usize))
    ensures
        counts.0 == predators(agents@),
        counts.1 == prey(agents@),
        counts.0 + counts.1 == agents.len(),
{
    let n = agents.len();
    let ghost is_pred = |a: Agent| a.species is Predator;
    let ghost is_prey = |a: Agent| a.species is Prey;
    let mut n_pred: usize = 0;
    let mut n_prey: usize = 0;
    let mut i: usize = 0;
    while i < n
        invariant
            i <= n,
            agents.len() == n,
            is_pred == (|a: Agent| a.species is Predator),
            is_prey == (|a: Agent| a.species is Prey),
            n_pred == agents@.take(i as int).filter(is_pred).len(),
            n_prey == agents@.take(i as int).filter(is_prey).len(),
            n_pred + n_prey == i,
        decreases n - i,
    {
        proof {
            reveal(Seq::filter);
            assert(agents@.take(i + 1).drop_last() =~= agents@.take(i as int));
        }
        match agents[i].species {
            Species::Predator { nutrients } => {
                n_pred += 1;
            },
            Species::Prey { age } => {
                n_prey += 1;
            },
        }
        i += 1;
    }
    proof {
        assert(agents@.take(n as int) =~= agents@);
    }
    (n_pred, n_prey)
}

/// Founds a population: first `n_prey` prey, then `n_pred` predators, each at
/// a place drawn from the domain.
pub fn seed_population(n_prey: usize, n_pred: usize, rng: &mut rand_chacha::ChaCha8Rng) -> (agents:
    Vec<Agent>)
    requires
        n_prey + n_pred <= usize::MAX,
    ensures
        agents.len() == n_prey + n_pred,
        forall|k: int| 0 <= k < n_prey ==> founder(#[trigger] agents@[k], false),
        forall|k: int| n_prey <= k < n_prey + n_pred ==> founder(#[trigger] agents@[k], true),
{
    let n = n_prey + n_pred;
    let mut agents: Vec<Agent> = Vec::new();
    let mut i: usize = 0;
    while i < n
        invariant
            i <= n,
            n == n_prey + n_pred,
            agents.len() == i,
            forall|k: int| 0 <= k < i && k < n_prey ==> founder(#[trigger] agents@[k], false),
            forall|k: int| n_prey <= k < i ==> founder(#[trigger] agents@[k], true),
        decreases n - i,
    {
        let x: i64 = draw_between(rng, 0, DOMAIN_MAX);
        let y: i64 = draw_between(rng, 0, DOMAIN_MAX);
        let species = if i < n_prey {
            Species::Prey { age: 0 }
        } else {
            Species::Predator { nutrients: INITIAL_NUTRIENTS }
        };
        agents.push(Agent { species, pos: Point { x, y }, removal: false });
        i += 1;
    }
    agents
}

/// Samples the population after step `i` of a run: on every second step,
/// starting with the first, the counts of predators and prey are appended to
/// `saves`. Returns whether the run goes on, which it does unless a sample
/// found one of the species extinct.
pub fn sample(agents: &Vec<Agent>, i: u64, saves: &mut Vec<(usize, usize)>) -> (go_on: bool)
    ensures
        i % 2 == 0 ==> final(saves)@ == old(saves)@.push((predators(agents@) as usize, prey(agents@) as usize)),
        i % 2 == 0 ==> go_on == (predators(agents@) > 0 && prey(agents@) > 0),
        i % 2 != 0 ==> final(saves)@ == old(saves)@ && go_on,
{
    if i % 2 == 0 {
        let counts = census(agents);
        saves.push(counts);
        counts.0 > 0 && counts.1 > 0
    } else {
        true
    }
}

} // verus!
