use gridworld_rl::board::{Board, ConfigError, Position};
use gridworld_rl::env::{Agent, Env, FlatRewarder, Rewarder, RevisitPenaltyRewarder, Tile, TileRewards};
use gridworld_rl::renderer::{EnvRenderer, RenderState};

fn simple_overrides() -> Vec<(Position, Tile)> {
    vec![
        (Position::new(1, 0), Tile::Gem),
        (Position::new(2, 2), Tile::Curse),
        (Position::new(4, 4), Tile::Goal),
    ]
}

fn flat_env() -> Env<FlatRewarder> {
    let board = Board::new(simple_overrides(), 5).unwrap();
    let agent = Agent::new(Position::new(0, 0));
    Env::new(board, agent, FlatRewarder { rewards: TileRewards::defaults() })
}

#[test]
fn construction_accepts_a_valid_board() {
    let board = Board::new(simple_overrides(), 5).unwrap();
    assert_eq!(board.size, 5);
    assert_eq!(board.tile(&Position::new(1, 0)), Tile::Gem);
    assert_eq!(board.tile(&Position::new(4, 4)), Tile::Goal);
    assert_eq!(board.tile(&Position::new(3, 3)), Tile::Normal);
}

#[test]
fn construction_rejects_two_goal_tiles() {
    let overrides = vec![
        (Position::new(4, 4), Tile::Goal),
        (Position::new(0, 1), Tile::Goal),
    ];
    assert!(matches!(Board::new(overrides, 5), Err(ConfigError::GoalCountMismatch)));
}

#[test]
fn construction_rejects_a_missing_goal_tile() {
    let overrides = vec![(Position::new(1, 1), Tile::Gem)];
    assert!(matches!(Board::new(overrides, 5), Err(ConfigError::GoalCountMismatch)));
    assert!(matches!(Board::new(Vec::new(), 5), Err(ConfigError::GoalCountMismatch)));
}

#[test]
fn construction_rejects_an_out_of_bounds_override() {
    let overrides = vec![
        (Position::new(5, 0), Tile::Goal),
    ];
    assert!(matches!(Board::new(overrides, 5), Err(ConfigError::OverrideOutOfBounds)));
    let negative = vec![
        (Position::new(0, -1), Tile::Goal),
    ];
    assert!(matches!(Board::new(negative, 5), Err(ConfigError::OverrideOutOfBounds)));
}

#[test]
fn construction_rejects_a_duplicated_override_position() {
    let overrides = vec![
        (Position::new(1, 1), Tile::Gem),
        (Position::new(1, 1), Tile::Goal),
    ];
    assert!(matches!(Board::new(overrides, 5), Err(ConfigError::DuplicateOverride)));
}

#[test]
fn available_actions_shrink_in_a_corner() {
    let env = flat_env();
    let available = env.available_agent_positions();
    assert_eq!(available.len(), 4);
    assert_eq!(available[0], None); // up leaves the board
    assert_eq!(available[1], Some(Position::new(0, 1)));
    assert_eq!(available[2], Some(Position::new(1, 0)));
    assert_eq!(available[3], None); // right leaves the board
}

#[test]
fn step_moves_the_agent_and_consumes_a_gem() {
    let mut env = flat_env();
    let reward = env.step(Position::new(1, 0));
    assert_eq!(reward, 5_000);
    assert_eq!(env.agent_position(), Position::new(1, 0));
    assert_eq!(env.agent_path(), vec![Position::new(1, 0)]);
    assert_eq!(env.agent_tile(), Tile::Normal); // the gem is consumed
    assert!(!env.agent_has_reached_goal());
}

#[test]
fn step_onto_the_goal_sets_the_flag_and_keeps_the_tile() {
    let board = Board::new(simple_overrides(), 5).unwrap();
    let agent = Agent::new(Position::new(4, 3));
    let mut env = Env::new(board, agent, FlatRewarder { rewards: TileRewards::defaults() });
    let reward = env.step(Position::new(4, 4));
    assert_eq!(reward, 20_000);
    assert!(env.agent_has_reached_goal());
    assert_eq!(env.agent_tile(), Tile::Goal);
}

#[test]
fn reset_restores_consumed_tiles_and_clears_the_agent() {
    let mut env = flat_env();
    env.step(Position::new(1, 0));
    assert_eq!(env.agent_tile(), Tile::Normal);
    env.reset();
    assert_eq!(env.agent_position(), Position::new(0, 0));
    assert!(env.agent_path().is_empty());
    assert!(!env.agent_has_reached_goal());
    assert_eq!(env.board.tile(&Position::new(1, 0)), Tile::Gem); // the gem reappears
    assert_eq!(env.board.tile(&Position::new(2, 2)), Tile::Curse);
    assert_eq!(env.board.tile(&Position::new(4, 4)), Tile::Goal);
}

#[test]
fn default_tile_rewards_match_the_tile_kinds() {
    let rewards = TileRewards::defaults();
    assert_eq!(rewards.reward(&Tile::Normal), 0);
    assert_eq!(rewards.reward(&Tile::Curse), -10_000);
    assert_eq!(rewards.reward(&Tile::Gem), 5_000);
    assert_eq!(rewards.reward(&Tile::Goal), 20_000);
}

#[test]
fn revisit_penalty_hits_only_strictly_earlier_visits() {
    let board = Board::new(simple_overrides(), 5).unwrap();
    let agent = Agent::new(Position::new(0, 0));
    let rewarder = RevisitPenaltyRewarder {
        rewards: TileRewards::new(0, -10_000, 10_000, 30_000),
        penalty: 1_500,
    };
    let mut env = Env::new(board, agent, rewarder);
    // First arrival on a fresh cell: no penalty.
    assert_eq!(env.step(Position::new(0, 1)), 0);
    // Back to the starting cell: it was never stepped onto, so no penalty.
    assert_eq!(env.step(Position::new(0, 0)), 0);
    // Revisiting a cell that was stepped onto earlier: penalized.
    assert_eq!(env.step(Position::new(0, 1)), -1_500);
}

#[test]
fn rewarder_reward_matches_a_direct_table_read() {
    let rewarder = FlatRewarder { rewards: TileRewards::new(100, -2_000, 3_000, 4_000) };
    let no_path: Vec<Position> = Vec::new();
    assert_eq!(rewarder.reward(Tile::Curse, Position::new(0, 0), &no_path), -2_000);
    assert_eq!(rewarder.reward(Tile::Normal, Position::new(0, 0), &no_path), 100);
}

#[test]
fn displayed_value_prefers_agent_then_visits_then_tiles() {
    let env = flat_env();
    let mut state = RenderState::from_env(&env);
    state.visited_positions.push(Position::new(2, 2));
    assert_eq!(EnvRenderer::displayed_value(Position::new(0, 0), Tile::Normal, &state), '♖');
    assert_eq!(EnvRenderer::displayed_value(Position::new(2, 2), Tile::Curse, &state), '❄');
    assert_eq!(EnvRenderer::displayed_value(Position::new(3, 3), Tile::Curse, &state), '☠');
    assert_eq!(EnvRenderer::displayed_value(Position::new(3, 3), Tile::Gem, &state), '∆');
    assert_eq!(EnvRenderer::displayed_value(Position::new(3, 3), Tile::Goal, &state), '★');
    assert_eq!(EnvRenderer::displayed_value(Position::new(3, 3), Tile::Normal, &state), '.');
}

#[test]
fn render_draws_the_whole_board() {
    let env = flat_env();
    let state = RenderState::from_env(&env);
    let rows = EnvRenderer::render(&state);
    assert_eq!(rows.len(), 5);
    assert_eq!(rows[0].len(), 5);
    assert_eq!(rows[0][0], '♖');
    assert_eq!(rows[0][1], '∆');
    assert_eq!(rows[2][2], '☠');
    assert_eq!(rows[4][4], '★');
    assert_eq!(rows[3][3], '.');
}
