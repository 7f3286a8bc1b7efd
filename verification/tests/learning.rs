use gridworld_rl::algorithms::{choose_action, decay_epsilon, legal_mask, AlgorithmParameters};
use gridworld_rl::board::Position;
use gridworld_rl::q::Q;
use gridworld_rl::states::{Actions, States};
use rand::rngs::StdRng;
use rand::SeedableRng;

fn four_actions() -> Actions {
    Actions::new(vec![0, 1, 2, 3])
}

#[test]
fn state_mapping_round_trips_every_cell() {
    let mut positions = Vec::new();
    for y in 0..5 {
        for x in 0..5 {
            positions.push(Position::new(x, y));
        }
    }
    let states = States::new(25, &positions);
    assert_eq!(states.n_possible, 25);
    for s in 0..25usize {
        let p = states.position_of(s);
        assert_eq!(states.index(p), s); // decoding then encoding recovers the state
    }
    for y in 0..5 {
        for x in 0..5 {
            let s = states.index(Position::new(x, y));
            assert!(s < 25);
            assert_eq!(states.position_of(s), Position::new(x, y));
        }
    }
}

#[test]
fn state_mapping_follows_the_enumeration_order() {
    let positions = vec![Position::new(3, 3), Position::new(1, 2), Position::new(0, 0)];
    let states = States::new(3, &positions);
    assert_eq!(states.index(Position::new(3, 3)), 0);
    assert_eq!(states.index(Position::new(1, 2)), 1);
    assert_eq!(states.index(Position::new(0, 0)), 2);
}

#[test]
fn argmax_breaks_ties_by_the_lowest_action_id() {
    let mut q = Q::new(3, 4);
    q.set(0, 1, 3_000);
    q.set(0, 2, 3_000);
    let all = vec![true, true, true, true];
    assert_eq!(q.argmax(0, &all), 1);
}

#[test]
fn argmax_stays_within_the_legal_set() {
    let mut q = Q::new(1, 4);
    q.set(0, 0, 9_000); // the global maximum, but illegal
    q.set(0, 2, 1_000);
    let allowed = vec![false, true, true, false];
    assert_eq!(q.argmax(0, &allowed), 2);
}

#[test]
fn max_scans_the_whole_row() {
    let mut q = Q::new(1, 4);
    q.set(0, 3, 7_000);
    q.set(0, 1, -2_000);
    assert_eq!(q.max(0), 7_000);
}

#[test]
fn max_allowed_ignores_an_illegal_global_maximum() {
    let mut q = Q::new(1, 4);
    q.set(0, 1, 9_000); // globally maximal, illegal at the successor
    q.set(0, 0, 5_000);
    q.set(0, 2, 1_000);
    let allowed = vec![true, false, true, false];
    assert_eq!(q.max_allowed(0, &allowed), 5_000);
    assert_eq!(q.max(0), 9_000);
}

#[test]
fn update_applies_the_exact_fixed_point_formula() {
    let mut q = Q::new(1, 4);
    // q += alpha * (r + gamma * m - q) with alpha = 0.5, gamma = 0.95:
    // 0 + 0.5 * (10 + 0.95 * 2 - 0) = 5.95
    q.update(0, 0, 10_000, 2_000, 500, 950);
    assert_eq!(q.get(0, 0), 5_950);
}

#[test]
fn update_division_rounds_toward_negative_infinity() {
    let mut q = Q::new(1, 4);
    // 0 + (999 * -1) / 1000 rounds to -1, not 0.
    q.update(0, 0, -1, 0, 999, 950);
    assert_eq!(q.get(0, 0), -1);
}

#[test]
fn choose_with_zero_epsilon_matches_pure_argmax() {
    let mut rng = StdRng::seed_from_u64(7);
    let mut q = Q::new(2, 4);
    q.set(1, 0, -4_000);
    q.set(1, 2, 6_000);
    q.set(1, 3, 6_000);
    let allowed = vec![true, false, true, true];
    let actions = four_actions();
    for _ in 0..100 {
        let chosen = choose_action(&q, 1, &allowed, 0, &actions, &mut rng);
        assert_eq!(chosen, q.argmax(1, &allowed));
        assert_eq!(chosen, 2);
    }
}

#[test]
fn choose_with_full_epsilon_never_leaves_the_legal_set() {
    let mut rng = StdRng::seed_from_u64(11);
    let q = Q::new(1, 4);
    // A corner cell: only two of the four directions stay on the board.
    let allowed = vec![false, true, true, false];
    let actions = four_actions();
    let mut seen = [false; 4];
    for _ in 0..200 {
        let chosen = choose_action(&q, 0, &allowed, 1_000, &actions, &mut rng);
        assert!(chosen == 1 || chosen == 2);
        seen[chosen] = true;
    }
    assert!(seen[1] && seen[2]); // both legal actions are actually drawn
}

#[test]
fn full_epsilon_always_takes_the_exploring_branch() {
    let mut rng = StdRng::seed_from_u64(13);
    let actions = four_actions();
    for _ in 0..100 {
        assert!(actions.choose_randomly(&mut rng, 1_000));
        assert!(!actions.choose_randomly(&mut rng, 0));
    }
}

#[test]
fn random_draws_only_legal_actions() {
    let mut rng = StdRng::seed_from_u64(17);
    let actions = four_actions();
    let allowed = vec![true, false, false, true];
    for _ in 0..200 {
        let a = actions.random(&mut rng, &allowed);
        assert!(a == 0 || a == 3);
    }
}

#[test]
fn legal_mask_mirrors_the_available_moves() {
    let available = vec![None, Some(Position::new(0, 1)), Some(Position::new(1, 0)), None];
    assert_eq!(legal_mask(&available), vec![false, true, true, false]);
}

#[test]
fn epsilon_decays_geometrically_down_to_the_floor() {
    assert_eq!(decay_epsilon(1_000, 990, 10), 990);
    assert_eq!(decay_epsilon(990, 990, 10), 980); // floor(980.1)
    assert_eq!(decay_epsilon(11, 990, 10), 10);
    assert_eq!(decay_epsilon(10, 990, 10), 10); // never below the floor
}

#[test]
fn default_parameters_are_the_documented_ones() {
    let p = AlgorithmParameters::default();
    assert_eq!(p.discount_rate, 950);
    assert_eq!(p.learning_rate, 100);
    assert_eq!(p.epsilon, 1_000);
    assert_eq!(p.min_epsilon, 10);
    assert_eq!(p.epsilon_decay_factor, 990);
    assert_eq!(p.n_timesteps, 1_000);
    assert_eq!(p.n_episodes, 500);
}
