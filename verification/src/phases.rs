//! The phases of a step, each once with its draws taken from a generator and
//! once with their outcomes given.

use crate::agent::{met, Agent, Species};
use crate::dice::draw_ratio;
use crate::model::{culled, encounters, grown, in_reach, interacted, meet_at, moved, newborns, parent_after, starve_marked};
use crate::pairs::{pair_at_rank, pair_count, rows, rows_step, schedule};
use crate::units::{CERTAIN, DX_MOVE};
use rayon::iter::{IntoParallelRefMutIterator, ParallelIterator};
use vstd::prelude::*;

verus! {

/// Moves each agent by the offset given for it. Returns whether there is one
/// offset for each agent; where there is not, nobody moves.
pub fn move_by(agents: &mut Vec<Agent>, moves: &Vec<(i64, i64)>) -> (done: bool)
    ensures
        done == (moves.len() == old(agents).len()),
        done ==> final(agents)@ == moved(old(agents)@, moves@),
        !done ==> final(agents)@ == old(agents)@,
{
    let n = agents.len();
    if moves.len() != n {
        return false;
    }
    let ghost start = agents@;
    let mut i: usize = 0;
    while i < n
        invariant
            i <= n,
            agents.len() == n,
            moves.len() == n,
            start.len() == n,
            forall|k: int| 0 <= k < i ==> agents@[k] == start[k].shifted(moves@[k].0, moves@[k].1),
            forall|k: int| i <= k < n ==> agents@[k] == start[k],
        decreases n - i,
    {
        let mut a = agents[i];
        let m = moves[i];
        a.shift(m.0, m.1);
        agents[i] = a;
        i += 1;
    }
    assert(agents@ =~= moved(start, moves@));
    true
}

/// Moves each agent by a random offset, in the order of the population.
pub fn move_all(agents: &mut Vec<Agent>, rng: &mut rand_chacha::ChaCha8Rng)
    ensures
        exists|moves: Seq<(i64, i64)>|
            moves.len() == old(agents).len() && (forall|k: int|
                0 <= k < moves.len() ==> in_reach(#[trigger] moves[k])) && final(agents)@ == moved(
                old(agents)@,
                moves,
            ),
{
    let n = agents.len();
    let ghost start = agents@;
    let ghost moves: Seq<(i64, i64)> = Seq::empty();
    let mut i: usize = 0;
    while i < n
        invariant
            i <= n,
            agents.len() == n,
            moves.len() == i,
            start.len() == n,
            forall|k: int| 0 <= k < i ==> in_reach(#[trigger] moves[k]),
            forall|k: int| 0 <= k < i ==> agents@[k] == start[k].shifted(moves[k].0, moves[k].1),
            forall|k: int| i <= k < n ==> agents@[k] == start[k],
        decreases n - i,
    {
        let mut a = agents[i];
        let ghost before = a;
        a.update_position(rng);
        proof {
            let (dx, dy) = choose|dx: i64, dy: i64|
                -DX_MOVE <= dx < DX_MOVE && -DX_MOVE <= dy < DX_MOVE && a == before.shifted(dx, dy);
            moves = moves.push((dx, dy));
        }
        agents[i] = a;
        i += 1;
    }
    assert(agents@ =~= moved(start, moves));
}

/// Visits every pair of the population in order and settles each with the
/// outcome given for it. Returns whether there is one outcome for each pair;
/// where there is not, no pair is visited.
pub fn interact_by(agents: &mut Vec<Agent>, devours: &Vec<bool>) -> (done: bool)
    ensures
        done == (devours.len() == schedule(old(agents).len() as int).len()),
        done ==> final(agents)@ == interacted(old(agents)@, devours@),
        !done ==> final(agents)@ == old(agents)@,
{
    let n = agents.len();
    if devours.len() as u128 != pair_count(n) {
        return false;
    }
    let ghost start = agents@;
    let ghost sched = schedule(n as int);
    let mut k: usize = 0;
    let mut i: usize = 0;
    while i < n
        invariant
            i <= n,
            agents.len() == n,
            start.len() == n,
            sched == schedule(n as int),
            devours.len() == sched.len(),
            k == rows(i as int, n as int).len(),
            agents@ == encounters(start, sched, devours@.take(k as int)),
        decreases n - i,
    {
        let mut j: usize = i + 1;
        while j < n
            invariant
                i < n,
                i < j <= n,
                agents.len() == n,
                start.len() == n,
                sched == schedule(n as int),
                devours.len() == sched.len(),
                k == rows(i as int, n as int).len() + (j - i - 1),
                agents@ == encounters(start, sched, devours@.take(k as int)),
            decreases n - j,
        {
            proof {
                pair_at_rank(i as int, j as int, n as int);
            }
            let devour = devours[k];
            let mut a1 = agents[i];
            let mut a2 = agents[j];
            let ghost prev = agents@;
            if a1.within_range(&a2) {
                Agent::encounter(&mut a1, &mut a2, devour);
                agents[i] = a1;
                agents[j] = a2;
            }
            proof {
                let t = devours@.take(k + 1);
                assert(t.drop_last() =~= devours@.take(k as int));
                assert(agents@ =~= meet_at(prev, i as int, j as int, devour));
            }
            k += 1;
            j += 1;
        }
        proof {
            rows_step(i as int, n as int);
        }
        i += 1;
    }
    assert(devours@.take(k as int) =~= devours@);
    true
}

/// Visits every pair of the population in order; a predator and a prey
/// within range of each other interact.
pub fn interact_all(agents: &mut Vec<Agent>, rng: &mut rand_chacha::ChaCha8Rng)
    ensures
        exists|devours: Seq<bool>|
            devours.len() == schedule(old(agents).len() as int).len() && final(agents)@
                == interacted(old(agents)@, devours),
{
    let n = agents.len();
    let ghost start = agents@;
    let ghost sched = schedule(n as int);
    let ghost devours: Seq<bool> = Seq::empty();
    let mut i: usize = 0;
    while i < n
        invariant
            i <= n,
            agents.len() == n,
            start.len() == n,
            sched == schedule(n as int),
            devours.len() == rows(i as int, n as int).len(),
            agents@ == encounters(start, sched, devours),
        decreases n - i,
    {
        let mut j: usize = i + 1;
        while j < n
            invariant
                i < n,
                i < j <= n,
                agents.len() == n,
                start.len() == n,
                sched == schedule(n as int),
                devours.len() == rows(i as int, n as int).len() + (j - i - 1),
                agents@ == encounters(start, sched, devours),
            decreases n - j,
        {
            proof {
                pair_at_rank(i as int, j as int, n as int);
            }
            let mut a1 = agents[i];
            let mut a2 = agents[j];
            let ghost prev = agents@;
            let ghost seen = devours;
            if a1.within_range(&a2) {
                Agent::interact(&mut a1, &mut a2, rng);
                agents[i] = a1;
                agents[j] = a2;
                proof {
                    devours = seen.push((a1, a2) == met(prev[i as int], prev[j as int], true));
                }
            } else {
                proof {
                    devours = seen.push(false);
                }
            }
            proof {
                assert(devours.drop_last() =~= seen);
                assert(agents@ =~= meet_at(prev, i as int, j as int, devours.last()));
            }
            j += 1;
        }
        proof {
            rows_step(i as int, n as int);
        }
        i += 1;
    }
    assert(devours.len() == schedule(n as int).len() && agents@ == interacted(start, devours));
}

/// Calls rayon's `par_iter_mut` on the vector and `for_each` on what it
/// gives, with `Agent::flag_if_starved` as the operation. Trusted: the
/// operation is run once on each element and the vector is not changed
/// otherwise, so that each agent ends as `flag_if_starved` leaves it.
#[verifier::external_body]
fn flag_starved(agents: &mut Vec<Agent>)
    ensures
        final(agents)@ == starve_marked(old(agents)@),
{
    agents.par_iter_mut().for_each(|a| a.flag_if_starved());
}

/// Marks every starved predator, then removes all marked agents; the others
/// keep their order.
pub fn cull(agents: &mut Vec<Agent>)
    ensures
        final(agents)@ == culled(old(agents)@),
{
    flag_starved(agents);
    let n = agents.len();
    let ghost marked = agents@;
    let ghost keep = |a: Agent| !a.removal;
    let mut kept: Vec<Agent> = Vec::new();
    let mut i: usize = 0;
    while i < n
        invariant
            i <= n,
            agents.len() == n,
            agents@ == marked,
            keep == (|a: Agent| !a.removal),
            kept@ == marked.take(i as int).filter(keep),
        decreases n - i,
    {
        let a = agents[i];
        proof {
            reveal(Seq::filter);
            assert(marked.take(i + 1).drop_last() =~= marked.take(i as int));
        }
        if !a.removal {
            kept.push(a);
        }
        i += 1;
    }
    proof {
        reveal(Seq::filter);
        assert(marked.take(n as int) =~= marked);
    }
    *agents = kept;
}

/// Lets a step pass for each agent and divides those that are due, each with
/// the outcome given for its draw; the children are appended at the end.
/// Returns whether there is one outcome for each agent; where there is not,
/// nothing happens.
pub fn divide_by(agents: &mut Vec<Agent>, dt: i64, births: &Vec<bool>) -> (done: bool)
    ensures
        done == (births.len() == old(agents).len()),
        done ==> final(agents)@ == grown(old(agents)@, dt, births@) + newborns(
            old(agents)@,
            dt,
            births@,
        ),
        !done ==> final(agents)@ == old(agents)@,
{
    let n = agents.len();
    if births.len() != n {
        return false;
    }
    let ghost start = agents@;
    let mut young: Vec<Agent> = Vec::new();
    let mut i: usize = 0;
    while i < n
        invariant
            i <= n,
            agents.len() == n,
            births.len() == n,
            start.len() == n,
            forall|k: int| 0 <= k < i ==> agents@[k] == parent_after(start[k], dt, births@[k]),
            forall|k: int| i <= k < n ==> agents@[k] == start[k],
            young@ == newborns(start, dt, births@.take(i as int)),
        decreases n - i,
    {
        let mut a = agents[i];
        a.update(dt);
        let chance = a.chance_to_divide();
        proof {
            assert(births@.take(i + 1).drop_last() =~= births@.take(i as int));
        }
        if chance == CERTAIN || (chance > 0 && births[i]) {
            let child = a.divide();
            young.push(child);
        }
        agents[i] = a;
        i += 1;
    }
    proof {
        assert(births@.take(n as int) =~= births@);
        assert(agents@ =~= grown(start, dt, births@));
    }
    agents.append(&mut young);
    true
}

/// Lets a step pass for each agent and divides those that are due: a prey by
/// a draw with the chance that its age gives, a predator by its reserve. The
/// children are appended at the end.
pub fn divide_all(agents: &mut Vec<Agent>, dt: i64, rng: &mut rand_chacha::ChaCha8Rng)
    ensures
        exists|births: Seq<bool>|
            births.len() == old(agents).len() && final(agents)@ == grown(old(agents)@, dt, births)
                + newborns(old(agents)@, dt, births),
{
    let n = agents.len();
    let ghost start = agents@;
    let ghost births: Seq<bool> = Seq::empty();
    let mut young: Vec<Agent> = Vec::new();
    let mut i: usize = 0;
    while i < n
        invariant
            i <= n,
            agents.len() == n,
            births.len() == i,
            start.len() == n,
            forall|k: int| 0 <= k < i ==> agents@[k] == parent_after(start[k], dt, births[k]),
            forall|k: int| i <= k < n ==> agents@[k] == start[k],
            young@ == newborns(start, dt, births),
        decreases n - i,
    {
        let mut a = agents[i];
        a.update(dt);
        let chance = a.chance_to_divide();
        let due = match a.species {
            Species::Prey { age } => draw_ratio(rng, chance, CERTAIN),
            Species::Predator { nutrients } => chance == CERTAIN,
        };
        proof {
            let seen = births;
            births = seen.push(due);
            assert(births.drop_last() =~= seen);
        }
        if due {
            let child = a.divide();
            young.push(child);
        }
        agents[i] = a;
        i += 1;
    }
    proof {
        assert(agents@ =~= grown(start, dt, births));
    }
    agents.append(&mut young);
}

} // verus!
