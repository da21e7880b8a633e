use pred_prey::agent::{Agent, Point, Species};
use pred_prey::phases::{cull, divide_all, divide_by, interact_all, interact_by, move_all, move_by};
use pred_prey::pairs::pair_count;
use pred_prey::step::{run_with, Draws};
use pred_prey::units::{DOMAIN_MAX, DT, DX_MOVE};
use rand::SeedableRng;
use rand_chacha::ChaCha8Rng;

fn prey(x: i64, y: i64, age: i64) -> Agent {
    Agent { species: Species::Prey { age }, pos: Point { x, y }, removal: false }
}

fn predator(x: i64, y: i64, nutrients: i64) -> Agent {
    Agent { species: Species::Predator { nutrients }, pos: Point { x, y }, removal: false }
}

fn marked(a: Agent) -> Agent {
    Agent { removal: true, ..a }
}

#[test]
fn move_by_shifts_each_agent_by_its_own_offset() {
    let mut pop = vec![prey(100, 100, 1), predator(29900, 200, 2), prey(15000, 15000, 3)];
    assert!(move_by(&mut pop, &vec![(-399, 10), (399, -399), (0, 0)]));
    assert_eq!(pop, vec![prey(0, 110, 1), predator(DOMAIN_MAX, 0, 2), prey(15000, 15000, 3)]);
}

#[test]
fn move_by_on_an_empty_population() {
    let mut pop: Vec<Agent> = Vec::new();
    assert!(move_by(&mut pop, &Vec::new()));
    assert!(pop.is_empty());
}

#[test]
fn move_all_keeps_everyone_in_reach_and_domain() {
    let mut rng = ChaCha8Rng::seed_from_u64(5);
    let before = vec![prey(0, 0, 1), predator(DOMAIN_MAX, DOMAIN_MAX, 2), prey(15000, 200, 3)];
    let mut pop = before.clone();
    move_all(&mut pop, &mut rng);
    assert_eq!(pop.len(), 3);
    let mut i = 0;
    while i < pop.len() {
        assert_eq!(pop[i].species, before[i].species);
        assert!(!pop[i].removal);
        assert!(0 <= pop[i].pos.x && pop[i].pos.x <= DOMAIN_MAX);
        assert!(0 <= pop[i].pos.y && pop[i].pos.y <= DOMAIN_MAX);
        assert!((pop[i].pos.x - before[i].pos.x).abs() <= DX_MOVE);
        assert!((pop[i].pos.y - before[i].pos.y).abs() <= DX_MOVE);
        i += 1;
    }
    assert_ne!(pop[2].pos, before[2].pos);
}

#[test]
fn interact_by_visits_pairs_in_ascending_order() {
    // Pairs of four agents in visiting order: (0,1) (0,2) (0,3) (1,2) (1,3) (2,3).
    let start = vec![prey(1000, 1000, 5), predator(1100, 1000, 400), prey(1200, 1000, 6), predator(1300, 1000, 300)];
    let mut only_fifth = start.clone();
    assert!(interact_by(&mut only_fifth, &vec![false, false, false, false, true, false]));
    assert_eq!(only_fifth, start);
    let mut only_fourth = start.clone();
    assert!(interact_by(&mut only_fourth, &vec![false, false, false, true, false, false]));
    assert_eq!(
        only_fourth,
        vec![prey(1000, 1000, 5), predator(1100, 1000, 570), marked(prey(1200, 1000, 0)), predator(1300, 1000, 300)]
    );
    let mut only_third = start.clone();
    assert!(interact_by(&mut only_third, &vec![false, false, true, false, false, false]));
    assert_eq!(
        only_third,
        vec![marked(prey(1000, 1000, 0)), predator(1100, 1000, 400), prey(1200, 1000, 6), predator(1300, 1000, 470)]
    );
    let mut only_last = start.clone();
    assert!(interact_by(&mut only_last, &vec![false, false, false, false, false, true]));
    assert_eq!(
        only_last,
        vec![prey(1000, 1000, 5), predator(1100, 1000, 400), marked(prey(1200, 1000, 0)), predator(1300, 1000, 470)]
    );
}

#[test]
fn interact_by_with_every_draw_hitting() {
    let mut pop = vec![prey(1000, 1000, 5), predator(1100, 1000, 400), prey(1200, 1000, 6), predator(1300, 1000, 300)];
    assert!(interact_by(&mut pop, &vec![true, true, true, true, true, true]));
    assert_eq!(
        pop,
        vec![
            marked(prey(1000, 1000, 0)),
            predator(1100, 1000, 740),
            marked(prey(1200, 1000, 0)),
            predator(1300, 1000, 640)
        ]
    );
}

#[test]
fn interact_by_skips_pairs_out_of_range() {
    let mut pop = vec![prey(1000, 1000, 5), predator(2501, 1000, 400), prey(4001, 1000, 6)];
    assert!(interact_by(&mut pop, &vec![true, true, true]));
    assert_eq!(
        pop,
        vec![prey(1000, 1000, 5), predator(2501, 1000, 570), marked(prey(4001, 1000, 0))]
    );
}

#[test]
fn interact_by_is_a_no_op_below_two_agents() {
    let mut none: Vec<Agent> = Vec::new();
    assert!(interact_by(&mut none, &Vec::new()));
    assert!(none.is_empty());
    let mut one = vec![predator(5, 5, 400)];
    assert!(interact_by(&mut one, &Vec::new()));
    assert_eq!(one, vec![predator(5, 5, 400)]);
}

#[test]
fn interact_all_changes_only_reserves_ages_and_marks() {
    let mut seed: u64 = 0;
    let mut devoured = 0;
    while seed < 100 {
        let mut rng = ChaCha8Rng::seed_from_u64(seed);
        let before = vec![prey(1000, 1000, 5), predator(1100, 1000, 400), prey(9000, 9000, 6)];
        let mut pop = before.clone();
        interact_all(&mut pop, &mut rng);
        assert_eq!(pop.len(), 3);
        assert_eq!(pop[2], before[2]);
        if pop[0].removal {
            assert_eq!(pop[0], marked(prey(1000, 1000, 0)));
            assert_eq!(pop[1], predator(1100, 1000, 570));
            devoured += 1;
        } else {
            assert_eq!(pop[0], before[0]);
            assert_eq!(pop[1], before[1]);
        }
        seed += 1;
    }
    assert!(0 < devoured && devoured < 50);
}

#[test]
fn cull_removes_marked_and_starved_and_keeps_order() {
    let mut pop = vec![
        prey(1, 1, 5),
        marked(prey(2, 2, 0)),
        predator(3, 3, 0),
        predator(4, 4, 1),
        predator(5, 5, -20),
        prey(6, 6, 7),
        marked(predator(7, 7, 900)),
    ];
    cull(&mut pop);
    assert_eq!(pop, vec![prey(1, 1, 5), predator(4, 4, 1), prey(6, 6, 7)]);
}

#[test]
fn cull_of_nothing_and_of_everything() {
    let mut none: Vec<Agent> = Vec::new();
    cull(&mut none);
    assert!(none.is_empty());
    let mut all = vec![predator(3, 3, 0), marked(prey(2, 2, 0))];
    cull(&mut all);
    assert!(all.is_empty());
    let mut keep = vec![predator(3, 3, 1), prey(2, 2, 0)];
    cull(&mut keep);
    assert_eq!(keep, vec![predator(3, 3, 1), prey(2, 2, 0)]);
}

#[test]
fn divide_by_ages_everyone_and_appends_children() {
    let mut pop = vec![
        prey(1, 1, 2000),
        prey(2, 2, 3400),
        predator(3, 3, 1010),
        prey(4, 4, 3400),
        predator(5, 5, 1009),
        prey(6, 6, 3900),
        prey(7, 7, 2900),
    ];
    assert!(divide_by(&mut pop, DT, &vec![true, true, false, false, true, false, true]));
    assert_eq!(
        pop,
        vec![
            prey(1, 1, 2100),
            prey(2, 2, 3500),
            predator(3, 3, 500),
            prey(4, 4, 3500),
            predator(5, 5, 999),
            prey(6, 6, 4000),
            prey(7, 7, 3000),
            prey(2, 2, 0),
            predator(3, 3, 500),
            prey(6, 6, 0),
        ]
    );
}

#[test]
fn divide_by_with_a_custom_step_length() {
    let mut pop = vec![prey(1, 1, 2000), predator(2, 2, 400)];
    assert!(divide_by(&mut pop, 1500, &vec![true, true]));
    assert_eq!(pop, vec![prey(1, 1, 3500), predator(2, 2, 390), prey(1, 1, 0)]);
}

#[test]
fn divide_all_follows_the_certain_cases() {
    let mut seed: u64 = 0;
    while seed < 50 {
        let mut rng = ChaCha8Rng::seed_from_u64(seed);
        let mut pop = vec![prey(1, 1, 2000), prey(2, 2, 3900), predator(3, 3, 1010), predator(4, 4, 1009)];
        divide_all(&mut pop, DT, &mut rng);
        assert_eq!(
            pop,
            vec![
                prey(1, 1, 2100),
                prey(2, 2, 4000),
                predator(3, 3, 500),
                predator(4, 4, 999),
                prey(2, 2, 0),
                predator(3, 3, 500),
            ]
        );
        seed += 1;
    }
}

#[test]
fn divide_all_draws_for_prey_in_between() {
    let mut seed: u64 = 0;
    let mut births = 0;
    while seed < 200 {
        let mut rng = ChaCha8Rng::seed_from_u64(seed);
        let mut pop = vec![prey(1, 1, 3400)];
        divide_all(&mut pop, DT, &mut rng);
        assert_eq!(pop[0], prey(1, 1, 3500));
        if pop.len() == 2 {
            assert_eq!(pop[1], prey(1, 1, 0));
            births += 1;
        } else {
            assert_eq!(pop.len(), 1);
        }
        seed += 1;
    }
    assert!(60 < births && births < 140);
}

#[test]
fn scenario_nearby_prey_is_devoured_and_the_other_survives() {
    // Two prey half a unit apart, a predator 0.3 from the first. The draw
    // hits for the predator and the first prey only.
    let mut pop = vec![prey(10000, 10000, 700), prey(10500, 10000, 900), predator(10000, 10300, 400)];
    let draws = Draws {
        moves: vec![(0, 0), (0, 0), (0, 0)],
        devours: vec![true, true, false],
        births: vec![true, true],
    };
    assert!(run_with(&mut pop, DT, &draws));
    assert_eq!(pop, vec![prey(10500, 10000, 1000), predator(10000, 10300, 560)]);
}

#[test]
fn scenario_with_every_draw_hitting_takes_both_prey() {
    let mut pop = vec![prey(10000, 10000, 700), prey(10500, 10000, 900), predator(10000, 10300, 400)];
    let draws = Draws {
        moves: vec![(0, 0), (0, 0), (0, 0)],
        devours: vec![true, true, true],
        births: vec![true],
    };
    assert!(run_with(&mut pop, DT, &draws));
    assert_eq!(pop, vec![predator(10000, 10300, 730)]);
}

#[test]
fn run_with_moves_before_it_measures() {
    // Apart by 1600 before the move, by 1400 after it.
    let mut pop = vec![predator(5000, 5000, 400), prey(6600, 5000, 10)];
    let draws = Draws { moves: vec![(100, 0), (-100, 0)], devours: vec![true], births: vec![false] };
    assert!(run_with(&mut pop, DT, &draws));
    assert_eq!(pop, vec![predator(5100, 5000, 560)]);
}

#[test]
fn run_with_removes_a_starved_predator_in_the_same_step() {
    let mut pop = vec![predator(5000, 5000, 0), predator(9000, 9000, 10), prey(20000, 20000, 10)];
    let draws = Draws {
        moves: vec![(1, 1), (2, 2), (3, 3)],
        devours: vec![false, false, false],
        births: vec![false, false],
    };
    assert!(run_with(&mut pop, DT, &draws));
    assert_eq!(pop, vec![predator(9002, 9002, 0), prey(20003, 20003, 110)]);
    let again = Draws { moves: vec![(0, 0), (0, 0)], devours: vec![false], births: vec![false] };
    assert!(run_with(&mut pop, DT, &again));
    assert_eq!(pop, vec![prey(20003, 20003, 210)]);
}

#[test]
fn run_with_keeps_a_fed_predator_that_entered_empty() {
    let mut pop = vec![predator(5000, 5000, 0), prey(5100, 5000, 10)];
    let draws = Draws { moves: vec![(0, 0), (0, 0)], devours: vec![true], births: vec![false] };
    assert!(run_with(&mut pop, DT, &draws));
    assert_eq!(pop, vec![predator(5000, 5000, 160)]);
}

#[test]
fn run_with_divides_a_full_predator_evenly() {
    let mut pop = vec![predator(5000, 5000, 1210)];
    let draws = Draws { moves: vec![(10, -10)], devours: vec![], births: vec![false] };
    assert!(run_with(&mut pop, DT, &draws));
    assert_eq!(pop, vec![predator(5010, 4990, 600), predator(5010, 4990, 600)]);
}

#[test]
fn run_with_keeps_newborns_out_of_the_step_that_bore_them() {
    // The child of the prey stands within range of the predator, but is born
    // after the pairs were visited: it is neither devoured nor aged.
    let mut pop = vec![prey(5000, 5000, 3950), predator(9000, 9000, 400)];
    let draws = Draws { moves: vec![(0, 0), (0, 0)], devours: vec![true], births: vec![true, true] };
    assert!(run_with(&mut pop, DT, &draws));
    assert_eq!(pop, vec![prey(5000, 5000, 4050), predator(9000, 9000, 390), prey(5000, 5000, 0)]);
}

#[test]
fn run_with_on_an_empty_population() {
    let mut pop: Vec<Agent> = Vec::new();
    let draws = Draws { moves: vec![], devours: vec![], births: vec![] };
    assert!(run_with(&mut pop, DT, &draws));
    assert!(pop.is_empty());
}

#[test]
fn run_with_refuses_draws_that_do_not_fit() {
    let start = vec![prey(10000, 10000, 700), prey(10500, 10000, 900), predator(10000, 10300, 400)];
    let too_few_moves = Draws { moves: vec![(0, 0), (0, 0)], devours: vec![true, true, false], births: vec![true, true] };
    let too_many_devours = Draws {
        moves: vec![(0, 0), (0, 0), (0, 0)],
        devours: vec![true, true, false, false],
        births: vec![true, true],
    };
    let too_many_births = Draws {
        moves: vec![(0, 0), (0, 0), (0, 0)],
        devours: vec![true, true, false],
        births: vec![true, true, true],
    };
    let too_few_births = Draws {
        moves: vec![(0, 0), (0, 0), (0, 0)],
        devours: vec![true, true, false],
        births: vec![true],
    };
    let mut pop = start.clone();
    assert!(!run_with(&mut pop, DT, &too_few_moves));
    assert_eq!(pop, start);
    assert!(!run_with(&mut pop, DT, &too_many_devours));
    assert_eq!(pop, start);
    assert!(!run_with(&mut pop, DT, &too_many_births));
    assert_eq!(pop, start);
    assert!(!run_with(&mut pop, DT, &too_few_births));
    assert_eq!(pop, start);
}

#[test]
fn pair_count_is_n_choose_two() {
    assert_eq!(pair_count(0), 0);
    assert_eq!(pair_count(1), 0);
    assert_eq!(pair_count(2), 1);
    assert_eq!(pair_count(3), 3);
    assert_eq!(pair_count(4), 6);
    assert_eq!(pair_count(330), 54285);
    assert_eq!(pair_count(usize::MAX), (usize::MAX as u128) * (usize::MAX as u128 - 1) / 2);
}

#[test]
fn phases_refuse_outcomes_that_do_not_fit() {
    let start = vec![prey(1000, 1000, 3900), predator(1100, 1000, 400), prey(1200, 1000, 6)];
    let mut pop = start.clone();
    assert!(!move_by(&mut pop, &vec![(1, 1), (2, 2)]));
    assert_eq!(pop, start);
    assert!(!move_by(&mut pop, &vec![(1, 1), (2, 2), (3, 3), (4, 4)]));
    assert_eq!(pop, start);
    assert!(!interact_by(&mut pop, &vec![true, true]));
    assert_eq!(pop, start);
    assert!(!interact_by(&mut pop, &vec![true, true, true, true]));
    assert_eq!(pop, start);
    assert!(!divide_by(&mut pop, DT, &vec![true, true]));
    assert_eq!(pop, start);
    assert!(!divide_by(&mut pop, DT, &Vec::new()));
    assert_eq!(pop, start);
}
