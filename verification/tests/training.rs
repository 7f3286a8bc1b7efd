use gridworld_rl::algorithms::{
    execute_algorithm, test_agent, Algorithm, AlgorithmParameters, EnvParameters,
};
use gridworld_rl::board::{ConfigError, Position};
use gridworld_rl::env::{FlatRewarder, RevisitPenaltyRewarder, Tile, TileRewards};
use rand::rngs::StdRng;
use rand::SeedableRng;

/// The board of the end-to-end scenario: five cells per edge, a single Goal
/// in the far corner, Gems worth +5, Curses worth -10, Normal worth 0.
fn scenario_parameters() -> EnvParameters<FlatRewarder> {
    EnvParameters {
        size: 5,
        tile_overrides: vec![
            (Position::new(0, 3), Tile::Gem),
            (Position::new(3, 1), Tile::Gem),
            (Position::new(2, 1), Tile::Curse),
            (Position::new(2, 3), Tile::Curse),
            (Position::new(4, 4), Tile::Goal),
        ],
        initial_agent_position: Position::new(0, 0),
        rewarder: FlatRewarder { rewards: TileRewards::new(0, -10_000, 5_000, 20_000) },
    }
}

fn scenario_learning(n_episodes: u32) -> AlgorithmParameters {
    AlgorithmParameters {
        discount_rate: 950, // 0.95
        learning_rate: 500, // within the 0.1 .. 0.9 band
        epsilon: 1_000,
        min_epsilon: 10, // decayed toward 0.01
        epsilon_decay_factor: 990,
        n_timesteps: 200,
        n_episodes,
    }
}

#[test]
fn q_learning_reaches_the_goal_and_improves() {
    let mut rng = StdRng::seed_from_u64(42);
    let outcome = execute_algorithm(
        Algorithm::Q,
        scenario_learning(500),
        scenario_parameters(),
        &mut rng,
    )
    .unwrap();
    assert_eq!(outcome.episode_rewards.len(), 500);
    assert_eq!(outcome.epsilon_values.len(), 500);
    assert_eq!(outcome.episode_timesteps.len(), 500);

    // A greedy rollout from the configured start reaches the Goal within the cap.
    let path = test_agent(&outcome.q, 200, scenario_parameters()).unwrap();
    assert!(path.len() <= 200);
    assert_eq!(path.last(), Some(&Position::new(4, 4)));

    // The moving average over the last 10% of episodes beats the first 10%.
    let first: i64 = outcome.episode_rewards[..50].iter().sum();
    let last: i64 = outcome.episode_rewards[450..].iter().sum();
    assert!(last > first, "last tenth {last} should beat first tenth {first}");

    // Epsilon was actually decayed toward its floor.
    assert_eq!(outcome.epsilon_values[0], 1_000);
    assert_eq!(*outcome.epsilon_values.last().unwrap(), 10);
}

#[test]
fn sarsa_reaches_the_goal_as_well() {
    let mut rng = StdRng::seed_from_u64(43);
    let outcome = execute_algorithm(
        Algorithm::SARSA,
        scenario_learning(500),
        scenario_parameters(),
        &mut rng,
    )
    .unwrap();
    let path = test_agent(&outcome.q, 200, scenario_parameters()).unwrap();
    assert_eq!(path.last(), Some(&Position::new(4, 4)));
}

#[test]
fn training_works_with_the_demonstration_defaults() {
    let mut rng = StdRng::seed_from_u64(1);
    let parameters = AlgorithmParameters {
        n_episodes: 50,
        n_timesteps: 100,
        ..AlgorithmParameters::default()
    };
    let outcome = execute_algorithm(
        Algorithm::Q,
        parameters,
        EnvParameters::<RevisitPenaltyRewarder>::default(),
        &mut rng,
    )
    .unwrap();
    assert_eq!(outcome.episode_rewards.len(), 50);
    assert_eq!(outcome.q.n_possible_states, 25);
    assert_eq!(outcome.q.n_possible_actions, 4);
}

#[test]
fn training_works_on_the_smallest_board() {
    let mut rng = StdRng::seed_from_u64(5);
    let parameters = EnvParameters {
        size: 2,
        tile_overrides: vec![(Position::new(1, 1), Tile::Goal)],
        initial_agent_position: Position::new(0, 0),
        rewarder: FlatRewarder { rewards: TileRewards::new(0, -10_000, 5_000, 20_000) },
    };
    let outcome = execute_algorithm(
        Algorithm::Q,
        scenario_learning(20),
        parameters,
        &mut rng,
    )
    .unwrap();
    assert_eq!(outcome.q.n_possible_states, 4);
    let replay = EnvParameters {
        size: 2,
        tile_overrides: vec![(Position::new(1, 1), Tile::Goal)],
        initial_agent_position: Position::new(0, 0),
        rewarder: FlatRewarder { rewards: TileRewards::new(0, -10_000, 5_000, 20_000) },
    };
    let path = test_agent(&outcome.q, 50, replay).unwrap();
    assert_eq!(path.last(), Some(&Position::new(1, 1)));
}

#[test]
fn training_rejects_an_invalid_board() {
    let mut rng = StdRng::seed_from_u64(2);
    let mut parameters = scenario_parameters();
    parameters.tile_overrides.push((Position::new(1, 1), Tile::Goal));
    let result = execute_algorithm(
        Algorithm::Q,
        scenario_learning(10),
        parameters,
        &mut rng,
    );
    assert!(matches!(result, Err(ConfigError::GoalCountMismatch)));
}

#[test]
fn replay_rejects_an_out_of_bounds_override() {
    let mut rng = StdRng::seed_from_u64(3);
    let outcome = execute_algorithm(
        Algorithm::Q,
        scenario_learning(5),
        scenario_parameters(),
        &mut rng,
    )
    .unwrap();
    let mut parameters = scenario_parameters();
    parameters.tile_overrides.push((Position::new(9, 9), Tile::Gem));
    let result = test_agent(&outcome.q, 200, parameters);
    assert!(matches!(result, Err(ConfigError::OverrideOutOfBounds)));
}

#[test]
fn episode_truncation_is_not_a_failure() {
    // One episode with a tiny timestep cap: training still completes and
    // records the truncated episode.
    let mut rng = StdRng::seed_from_u64(4);
    let parameters = AlgorithmParameters {
        n_timesteps: 3,
        n_episodes: 2,
        ..scenario_learning(2)
    };
    let outcome = execute_algorithm(Algorithm::Q, parameters, scenario_parameters(), &mut rng)
        .unwrap();
    assert_eq!(outcome.episode_timesteps.len(), 2);
    assert!(outcome.episode_timesteps.iter().all(|&t| t <= 3));
}
