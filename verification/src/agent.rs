//! One individual: its species, its place, and the rules that change it.

use crate::dice::{draw_between, draw_ratio};
use crate::units::{
    clamp, half, halve, pin, sat, sat_add, CERTAIN, DEVOUR_CHANCE, DIVISION_TIME, DOMAIN_MAX, DX_MOVE,
    INTERACTION_RANGE, NUTRIENT_DECREASE, NUTRIENT_DIVISION_THRESHOLD, NUTRIENT_INCREASE, UNIT,
};
use vstd::prelude::*;

verus! {

/// The two species, each with the one quantity that is its own.
#[derive(Clone, Copy, Debug, PartialEq, Eq, Structural)]
pub enum Species {
    /// A hunter and its energy reserve, which may fall to zero and below.
    Predator { nutrients: i64 },
    /// A prey and the time since its birth.
    Prey { age: i64 },
}

/// A place in the plane.
#[derive(Clone, Copy, Debug, PartialEq, Eq, Structural)]
pub struct Point {
    pub x: i64,
    pub y: i64,
}

/// One individual.
#[derive(Clone, Copy, Debug, PartialEq, Eq, Structural)]
pub struct Agent {
    pub species: Species,
    pub pos: Point,
    /// Set when the agent is to leave the population at the end of the step.
    pub removal: bool,
}

/// Whether two places lie within the interaction range of each other, by
/// Euclidean distance.
pub open spec fn near(p: Point, q: Point) -> bool {
    (p.x - q.x) * (p.x - q.x) + (p.y - q.y) * (p.y - q.y) <= INTERACTION_RANGE * INTERACTION_RANGE
}

/// Whether a place lies in the closed square of the domain.
pub open spec fn in_domain(p: Point) -> bool {
    0 <= p.x <= DOMAIN_MAX && 0 <= p.y <= DOMAIN_MAX
}

/// What an encounter makes of the ordered pair `(a, b)` when the draw for it
/// came out as `devour`: where one is a predator and the other a prey and the
/// draw hit, the predator is fed and the prey is marked; else nothing changes.
pub open spec fn met(a: Agent, b: Agent, devour: bool) -> (Agent, Agent) {
    if devour && a.species is Predator && b.species is Prey {
        (a.fed(), b.devoured())
    } else if devour && a.species is Prey && b.species is Predator {
        (a.devoured(), b.fed())
    } else {
        (a, b)
    }
}

impl Agent {
    /// The agent one step older: a prey's age grows by `dt`, a predator's
    /// reserve shrinks by the fixed decay.
    pub open spec fn aged(self, dt: i64) -> Agent {
        match self.species {
            Species::Prey { age } => Agent { species: Species::Prey { age: sat(age + dt) }, ..self },
            Species::Predator { nutrients } => Agent {
                species: Species::Predator { nutrients: sat(nutrients - NUTRIENT_DECREASE) },
                ..self
            },
        }
    }

    /// The parent as a division leaves it: a predator keeps half of its
    /// reserve, a prey is unchanged.
    pub open spec fn after_division(self) -> Agent {
        match self.species {
            Species::Predator { nutrients } => Agent {
                species: Species::Predator { nutrients: half(nutrients as int) as i64 },
                ..self
            },
            Species::Prey { age } => self,
        }
    }

    /// The child of a division: a copy of the parent where it stands, a
    /// predator with half of the parent's reserve, a prey with age zero.
    pub open spec fn offspring(self) -> Agent {
        match self.species {
            Species::Predator { nutrients } => Agent {
                species: Species::Predator { nutrients: half(nutrients as int) as i64 },
                ..self
            },
            Species::Prey { age } => Agent { species: Species::Prey { age: 0 }, ..self },
        }
    }

    /// A predator after a meal.
    pub open spec fn fed(self) -> Agent {
        match self.species {
            Species::Predator { nutrients } => Agent {
                species: Species::Predator { nutrients: sat(nutrients + NUTRIENT_INCREASE) },
                ..self
            },
            Species::Prey { age } => self,
        }
    }

    /// A prey that was caught: marked for removal, its age back at zero.
    pub open spec fn devoured(self) -> Agent {
        match self.species {
            Species::Prey { age } => Agent { species: Species::Prey { age: 0 }, removal: true, ..self },
            Species::Predator { nutrients } => self,
        }
    }

    /// The agent moved by `(dx, dy)` and pinned to the domain.
    pub open spec fn shifted(self, dx: i64, dy: i64) -> Agent {
        Agent {
            pos: Point {
                x: clamp(self.pos.x + dx, 0, DOMAIN_MAX as int) as i64,
                y: clamp(self.pos.y + dy, 0, DOMAIN_MAX as int) as i64,
            },
            ..self
        }
    }

    /// Whether the agent is a predator whose reserve is used up.
    pub open spec fn starved(self) -> bool {
        match self.species {
            Species::Predator { nutrients } => nutrients <= 0,
            Species::Prey { age } => false,
        }
    }

    /// The agent with starvation recorded in its removal mark.
    pub open spec fn starve_flagged(self) -> Agent {
        if self.starved() {
            Agent { removal: true, ..self }
        } else {
            self
        }
    }

    /// The chance that the agent divides in this step, in units out of
    /// `CERTAIN`, which are as many as `UNIT`.
    /// For a prey it is zero up to `DIVISION_TIME`, rises with its age and is
    /// certain one whole later; a predator divides if and only if its reserve
    /// has reached the threshold.
    pub open spec fn division_chance(self) -> int {
        match self.species {
            Species::Prey { age } => clamp(age - DIVISION_TIME, 0, UNIT as int),
            Species::Predator { nutrients } => if nutrients >= NUTRIENT_DIVISION_THRESHOLD {
                UNIT as int
            } else {
                0
            },
        }
    }

    /// Whether the agent divides, given how the draw for it came out. The
    /// draw decides only where the chance is neither zero nor certain.
    pub open spec fn divides(self, draw: bool) -> bool {
        self.division_chance() == UNIT || (self.division_chance() > 0 && draw)
    }

    /// Lets one step pass for the agent.
    pub fn update(&mut self, dt: i64)
        ensures
            *final(self) == old(self).aged(dt),
    {
        match self.species {
            Species::Prey { age } => {
                self.species = Species::Prey { age: sat_add(age, dt) };
            },
            Species::Predator { nutrients } => {
                self.species = Species::Predator { nutrients: sat_add(nutrients, -NUTRIENT_DECREASE) };
            },
        }
    }

    /// Divides the agent and returns the child.
    pub fn divide(&mut self) -> (child: Agent)
        ensures
            *final(self) == old(self).after_division(),
            child == old(self).offspring(),
    {
        match self.species {
            Species::Predator { nutrients } => {
                self.species = Species::Predator { nutrients: halve(nutrients) };
                *self
            },
            Species::Prey { age } => Agent { species: Species::Prey { age: 0 }, pos: self.pos, removal: self.removal },
        }
    }

    /// Settles the encounter of two agents whose draw came out as `devour`.
    pub fn encounter(a1: &mut Agent, a2: &mut Agent, devour: bool)
        ensures
            (*final(a1), *final(a2)) == met(*old(a1), *old(a2), devour),
    {
        if devour {
            match (a1.species, a2.species) {
                (Species::Predator { nutrients }, Species::Prey { age }) => {
                    a2.species = Species::Prey { age: 0 };
                    a2.removal = true;
                    a1.species = Species::Predator { nutrients: sat_add(nutrients, NUTRIENT_INCREASE) };
                },
                (Species::Prey { age }, Species::Predator { nutrients }) => {
                    a1.species = Species::Prey { age: 0 };
                    a1.removal = true;
                    a2.species = Species::Predator { nutrients: sat_add(nutrients, NUTRIENT_INCREASE) };
                },
                _ => {},
            }
        }
    }

    /// Whether one of the two is a predator and the other a prey.
    pub fn hunts(&self, other: &Agent) -> (b: bool)
        ensures
            b == ((self.species is Predator && other.species is Prey) || (self.species is Prey
                && other.species is Predator)),
    {
        match (self.species, other.species) {
            (Species::Predator { nutrients }, Species::Prey { age }) => true,
            (Species::Prey { age }, Species::Predator { nutrients }) => true,
            _ => false,
        }
    }

    /// Lets a predator and a prey meet: with the devour chance the prey is
    /// marked and the predator fed. Two of a kind never affect each other.
    pub fn interact(a1: &mut Agent, a2: &mut Agent, rng: &mut rand_chacha::ChaCha8Rng)
        ensures
            (*final(a1), *final(a2)) == met(*old(a1), *old(a2), true) || (*final(a1), *final(a2))
                == met(*old(a1), *old(a2), false),
    {
        if a1.hunts(a2) {
            let devour = draw_ratio(rng, DEVOUR_CHANCE, CERTAIN);
            Agent::encounter(a1, a2, devour);
        }
    }

    /// Moves the agent by `(dx, dy)` and pins it to the domain.
    pub fn shift(&mut self, dx: i64, dy: i64)
        ensures
            *final(self) == old(self).shifted(dx, dy),
            in_domain(final(self).pos),
    {
        self.pos = Point { x: pin(self.pos.x, dx), y: pin(self.pos.y, dy) };
    }

    /// Moves the agent by a random offset, drawn for each coordinate from
    /// `-DX_MOVE..DX_MOVE`, and pins it to the domain.
    pub fn update_position(&mut self, rng: &mut rand_chacha::ChaCha8Rng)
        ensures
            exists|dx: i64, dy: i64|
                -DX_MOVE <= dx < DX_MOVE && -DX_MOVE <= dy < DX_MOVE && *final(self) == old(
                    self,
                ).shifted(dx, dy),
            in_domain(final(self).pos),
    {
        let dx: i64 = draw_between(rng, -DX_MOVE, DX_MOVE);
        let dy: i64 = draw_between(rng, -DX_MOVE, DX_MOVE);
        self.shift(dx, dy);
    }

    /// Whether the two agents are within the interaction range of each other.
    pub fn within_range(&self, other: &Agent) -> (b: bool)
        ensures
            b == near(self.pos, other.pos),
    {
        let dx: i128 = self.pos.x as i128 - other.pos.x as i128;
        let dy: i128 = self.pos.y as i128 - other.pos.y as i128;
        let r: i128 = INTERACTION_RANGE as i128;
        if dx > r || dx < -r || dy > r || dy < -r {
            assert(dx * dx + dy * dy > r * r) by (nonlinear_arith)
                requires
                    dx > r || dx < -r || dy > r || dy < -r,
                    r >= 0,
            ;
            false
        } else {
            assert(dx * dx <= r * r && dy * dy <= r * r && dx * dx >= 0 && dy * dy >= 0)
                by (nonlinear_arith)
                requires
                    -r <= dx <= r,
                    -r <= dy <= r,
            ;
            dx * dx + dy * dy <= r * r
        }
    }

    /// Marks the agent for removal if it is a predator with nothing left.
    pub fn flag_if_starved(&mut self)
        ensures
            *final(self) == old(self).starve_flagged(),
    {
        match self.species {
            Species::Predator { nutrients } => {
                if nutrients <= 0 {
                    self.removal = true;
                }
            },
            Species::Prey { age } => {},
        }
    }

    /// The agent's chance to divide in this step, in units out of `CERTAIN`.
    pub fn chance_to_divide(&self) -> (chance: u32)
        ensures
            chance == self.division_chance(),
    {
        match self.species {
            Species::Prey { age } => {
                if age <= DIVISION_TIME {
                    0
                } else if age >= DIVISION_TIME + UNIT {
                    CERTAIN
                } else {
                    (age - DIVISION_TIME) as u32
                }
            },
            Species::Predator { nutrients } => {
                if nutrients >= NUTRIENT_DIVISION_THRESHOLD {
                    CERTAIN
                } else {
                    0
                }
            },
        }
    }
}

} // verus!
