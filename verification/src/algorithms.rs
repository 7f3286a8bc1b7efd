//! The episodic training loop for Q-learning and SARSA, the epsilon-greedy
//! action choice it delegates to, and the greedy replay of a trained table.

use vstd::prelude::*;
use crate::board::{
    Board, ConfigError, Position, lemma_some_action_available, lemma_state_mapping_bijection,
    overrides_lookup, row_major_position, spec_available_position, spec_in_bounds,
    spec_validation_error, valid_overrides, MAX_BOARD_SIZE,
};
use crate::env::{Agent, Env, Rewarder, RevisitPenaltyRewarder, Tile, TileRewards};
use crate::fixed::{FIXED_ONE, STEP_REWARD_LIMIT, div_fixed};
use crate::q::{Q, spec_argmax};
use crate::states::{Actions, States};
use vstd::arithmetic::div_mod::lemma_div_is_ordered;

verus! {

/// The two supported bootstrap rules.
#[derive(Debug, Clone, Copy, PartialEq, Eq, Structural)]
pub enum Algorithm {
    Q,
    SARSA,
}

/// Most episodes one run may train, and most timesteps one episode may take:
/// keeps the per-episode reward sum within `i64`.
pub const MAX_EPISODES: u32 = 1_000_000;

/// See [`MAX_EPISODES`].
pub const MAX_TIMESTEPS: u32 = 1_000_000;

/// The learning parameters, rates in fixed-point thousandths.
#[derive(Debug, Clone, Copy, PartialEq, Eq, Structural)]
pub struct AlgorithmParameters {
    pub discount_rate: i64,
    pub learning_rate: i64,
    pub epsilon: i64,
    pub min_epsilon: i64,
    /// The factor epsilon is multiplied by after each episode. The library
    /// pins one explicit decay policy: geometric decay floored at
    /// `min_epsilon` (see [`decay_epsilon`]).
    pub epsilon_decay_factor: i64,
    pub n_timesteps: u32,
    pub n_episodes: u32,
}

impl AlgorithmParameters {
    /// Acceptable parameters: rates in (0, 1], epsilon in [0, 1] with its
    /// floor in (0, epsilon], the decay factor in [0, 1], and positive,
    /// bounded episode and timestep counts.
    pub open spec fn wf(self) -> bool {
        &&& 0 < self.discount_rate <= FIXED_ONE
        &&& 0 < self.learning_rate <= FIXED_ONE
        &&& 0 <= self.epsilon <= FIXED_ONE
        &&& 0 < self.min_epsilon <= self.epsilon
        &&& 0 <= self.epsilon_decay_factor <= FIXED_ONE
        &&& 1 <= self.n_timesteps <= MAX_TIMESTEPS
        &&& 1 <= self.n_episodes <= MAX_EPISODES
    }
}

impl Default for AlgorithmParameters {
    /// A discount rate of 0.95, a learning rate of 0.1, epsilon decaying
    /// geometrically from 1 toward 0.01, 1000 timesteps, 500 episodes.
    fn default() -> (d: Self)
        ensures
            d == (AlgorithmParameters {
                discount_rate: 950,
                learning_rate: 100,
                epsilon: 1000,
                min_epsilon: 10,
                epsilon_decay_factor: 990,
                n_timesteps: 1000,
                n_episodes: 500,
            }),
            d.wf(),
    {
        AlgorithmParameters {
            discount_rate: 950,
            learning_rate: 100,
            epsilon: 1000,
            min_epsilon: 10,
            epsilon_decay_factor: 990,
            n_timesteps: 1000,
            n_episodes: 500,
        }
    }
}

/// The environment construction parameters.
pub struct EnvParameters<R: Rewarder> {
    pub size: usize,
    pub tile_overrides: Vec<(Position, Tile)>,
    pub initial_agent_position: Position,
    pub rewarder: R,
}

impl<R: Rewarder> EnvParameters<R> {
    /// Acceptable parameters: a board with at least two cells per edge (an
    /// agent on a one-cell board has no legal move anywhere), the agent
    /// starting on it, and an acceptable reward strategy. The override list
    /// itself is validated at construction, not here.
    pub open spec fn wf(self) -> bool {
        &&& 2 <= self.size <= MAX_BOARD_SIZE
        &&& spec_in_bounds(self.initial_agent_position, self.size as int)
        &&& self.rewarder.wf()
    }
}

impl Default for EnvParameters<RevisitPenaltyRewarder> {
    /// The demonstration board: five cells per edge, two Gems worth +10,
    /// four Curses worth -10, the Goal worth +30 in the far corner, the
    /// agent starting in the near corner, and a revisit penalty of 1.5.
    fn default() -> (d: Self)
        ensures
            d.wf(),
            d.size == 5,
            d.tile_overrides@ == seq![
                (Position { x: 0, y: 3 }, Tile::Gem),
                (Position { x: 2, y: 1 }, Tile::Curse),
                (Position { x: 4, y: 3 }, Tile::Curse),
                (Position { x: 0, y: 4 }, Tile::Curse),
                (Position { x: 2, y: 3 }, Tile::Curse),
                (Position { x: 3, y: 1 }, Tile::Gem),
                (Position { x: 4, y: 4 }, Tile::Goal),
            ],
            d.initial_agent_position == (Position { x: 0, y: 0 }),
            d.rewarder == (RevisitPenaltyRewarder {
                rewards: TileRewards {
                    normal: 0i64,
                    curse: -10_000i64,
                    gem: 10_000i64,
                    goal: 30_000i64,
                },
                penalty: 1_500i64,
            }),
    {
        let mut tile_overrides: Vec<(Position, Tile)> = Vec::new();
        tile_overrides.push((Position::new(0, 3), Tile::Gem));
        tile_overrides.push((Position::new(2, 1), Tile::Curse));
        tile_overrides.push((Position::new(4, 3), Tile::Curse));
        tile_overrides.push((Position::new(0, 4), Tile::Curse));
        tile_overrides.push((Position::new(2, 3), Tile::Curse));
        tile_overrides.push((Position::new(3, 1), Tile::Gem));
        tile_overrides.push((Position::new(4, 4), Tile::Goal));
        proof {
            assert(tile_overrides@ =~= seq![
                (Position { x: 0, y: 3 }, Tile::Gem),
                (Position { x: 2, y: 1 }, Tile::Curse),
                (Position { x: 4, y: 3 }, Tile::Curse),
                (Position { x: 0, y: 4 }, Tile::Curse),
                (Position { x: 2, y: 3 }, Tile::Curse),
                (Position { x: 3, y: 1 }, Tile::Gem),
                (Position { x: 4, y: 4 }, Tile::Goal),
            ]);
        }
        EnvParameters {
            size: 5,
            tile_overrides,
            initial_agent_position: Position::new(0, 0),
            rewarder: RevisitPenaltyRewarder {
                rewards: TileRewards { normal: 0, curse: -10_000, gem: 10_000, goal: 30_000 },
                penalty: 1_500,
            },
        }
    }
}

/// What a training run hands back: the trained table and the per-episode
/// diagnostics (total reward, the epsilon the episode ran with, and the
/// number of environment steps it took).
pub struct TrainingOutcome {
    pub q: Q,
    pub episode_rewards: Vec<i64>,
    pub epsilon_values: Vec<i64>,
    pub episode_timesteps: Vec<u32>,
}

/// Which actions of the legal-move list are legal: entry `a` is true exactly
/// when action `a` leads somewhere.
pub fn legal_mask(available: &Vec<Option<Position>>) -> (mask: Vec<bool>)
    ensures
        mask@.len() == available@.len(),
        forall|a: int| 0 <= a < available@.len() ==> #[trigger] mask@[a] == (available@[a] is Some),
{
    let mut mask: Vec<bool> = Vec::new();
    let mut a: usize = 0;
    while a < available.len()
        invariant
            0 <= a <= available@.len(),
            mask@.len() == a,
            forall|k: int| 0 <= k < a ==> #[trigger] mask@[k] == (available@[k] is Some),
        decreases available@.len() - a,
    {
        mask.push(available[a].is_some());
        a = a + 1;
    }
    mask
}

/// The epsilon-greedy choice: with probability `epsilon` a uniformly drawn
/// legal action, otherwise the greedy action of the table restricted to the
/// legal set. A zero epsilon always matches the pure greedy choice; whatever
/// epsilon, the choice is always legal.
pub fn choose_action(
    q: &Q,
    state: usize,
    allowed: &Vec<bool>,
    epsilon: i64,
    actions: &Actions,
    rng: &mut rand::rngs::StdRng,
) -> (a: usize)
    requires
        q.wf(),
        state < q.n_possible_states,
        allowed@.len() == q.n_possible_actions,
        0 <= epsilon <= FIXED_ONE,
        exists|i: int| 0 <= i < allowed@.len() && allowed@[i],
        exists|i: int|
            0 <= i < actions.spec_values().len() && actions.spec_values()[i] < allowed@.len()
                && allowed@[#[trigger] actions.spec_values()[i] as int],
    ensures
        a < allowed@.len(),
        allowed@[a as int],
        epsilon == 0 ==> a as int == spec_argmax(q.spec_row(state as int), allowed@),
{
    if actions.choose_randomly(rng, epsilon) {
        actions.random(rng, allowed)
    } else {
        q.argmax(state, allowed)
    }
}

/// One application of the pinned decay policy: epsilon is multiplied by the
/// decay factor (geometric decay) and floored at `min_epsilon`.
pub open spec fn spec_decayed_epsilon(epsilon: int, decay_factor: int, min_epsilon: int) -> int {
    let d = (epsilon * decay_factor) / (FIXED_ONE as int);
    if d < min_epsilon {
        min_epsilon
    } else {
        d
    }
}

pub fn decay_epsilon(epsilon: i64, decay_factor: i64, min_epsilon: i64) -> (r: i64)
    requires
        0 <= epsilon <= FIXED_ONE,
        0 <= decay_factor <= FIXED_ONE,
        0 <= min_epsilon <= FIXED_ONE,
    ensures
        r == spec_decayed_epsilon(epsilon as int, decay_factor as int, min_epsilon as int),
        0 <= r <= FIXED_ONE,
{
    proof {
        assert(0 <= epsilon * decay_factor <= 1_000_000) by (nonlinear_arith)
            requires
                0 <= epsilon <= 1000,
                0 <= decay_factor <= 1000,
        ;
    }
    let d = div_fixed(epsilon * decay_factor);
    proof {
        lemma_div_is_ordered(0, (epsilon * decay_factor) as int, 1000);
        lemma_div_is_ordered((epsilon * decay_factor) as int, 1_000_000, 1000);
    }
    if d < min_epsilon {
        min_epsilon
    } else {
        d
    }
}

/// Trains an action-value table with the chosen bootstrap rule.
///
/// Each episode resets the environment, then repeatedly: resolves the chosen
/// action to its target cell, steps the environment, observes the next state,
/// chooses the next action epsilon-greedily (always, though only SARSA's
/// bootstrap uses its value), and applies the update rule — SARSA bootstraps
/// on the next state-action value, Q-learning on the greatest next-state
/// value among the actions legal there. An episode ends at the goal or at
/// the timestep cap; after it, epsilon decays.
#[verifier::loop_isolation(false)]
pub fn execute_algorithm<R: Rewarder>(
    algorithm: Algorithm,
    parameters: AlgorithmParameters,
    env_parameters: EnvParameters<R>,
    rng: &mut rand::rngs::StdRng,
) -> (result: Result<TrainingOutcome, ConfigError>)
    requires
        parameters.wf(),
        env_parameters.wf(),
    ensures
        result is Ok <==> valid_overrides(
            env_parameters.tile_overrides@,
            env_parameters.size as int,
        ),
        match result {
            Ok(outcome) => {
                &&& outcome.q.wf()
                &&& outcome.q.n_possible_states == env_parameters.size * env_parameters.size
                &&& outcome.q.n_possible_actions == 4
                &&& outcome.episode_rewards@.len() == parameters.n_episodes
                &&& outcome.epsilon_values@.len() == parameters.n_episodes
                &&& outcome.episode_timesteps@.len() == parameters.n_episodes
                &&& forall|i: int|
                    0 <= i < parameters.n_episodes ==> 0 <= #[trigger] outcome.epsilon_values@[i]
                        <= FIXED_ONE
                &&& forall|i: int|
                    0 <= i < parameters.n_episodes ==> #[trigger] outcome.episode_timesteps@[i]
                        <= parameters.n_timesteps
                &&& outcome.epsilon_values@[0] == parameters.epsilon
                &&& forall|i: int|
                    0 <= i < parameters.n_episodes - 1 ==> outcome.epsilon_values@[i + 1]
                        == spec_decayed_epsilon(
                        #[trigger] outcome.epsilon_values@[i] as int,
                        parameters.epsilon_decay_factor as int,
                        parameters.min_epsilon as int,
                    )
            },
            Err(e) => e == spec_validation_error(
                env_parameters.tile_overrides@,
                env_parameters.size as int,
            ),
        },
{
    let EnvParameters { size, tile_overrides, initial_agent_position, rewarder } = env_parameters;
    let agent = Agent::new(initial_agent_position);
    let board = match Board::new(tile_overrides, size) {
        Ok(b) => b,
        Err(e) => {
            return Err(e);
        },
    };
    proof {
        lemma_state_mapping_bijection(size as int);
        assert(size * size <= MAX_BOARD_SIZE * MAX_BOARD_SIZE) by (nonlinear_arith)
            requires
                size <= MAX_BOARD_SIZE,
        ;
    }
    let all = board.all_positions();
    proof {
        assert forall|i: int, j: int| 0 <= i < j < all@.len() implies all@[i] != all@[j] by {
            assert(row_major_position(i, size as int).y * size + row_major_position(
                i,
                size as int,
            ).x == i);
            assert(row_major_position(j, size as int).y * size + row_major_position(
                j,
                size as int,
            ).x == j);
        }
    }
    let n_states = size * size;
    let states = States::new(n_states, &all);
    let mut action_values: Vec<usize> = Vec::new();
    action_values.push(0);
    action_values.push(1);
    action_values.push(2);
    action_values.push(3);
    let actions = Actions::new(action_values);
    let mut q = Q::new(n_states, 4);
    let mut env = Env::new(board, agent, rewarder);
    let mut epsilon = parameters.epsilon;
    let mut episode_rewards: Vec<i64> = Vec::new();
    let mut epsilon_values: Vec<i64> = Vec::new();
    let mut episode_timesteps: Vec<u32> = Vec::new();
    let mut episode: u32 = 1;
    while episode <= parameters.n_episodes
        invariant
            env.wf(),
            env.board.size == size,
            q.wf(),
            q.n_possible_states == n_states,
            q.n_possible_actions == 4,
            0 <= epsilon <= FIXED_ONE,
            1 <= episode <= parameters.n_episodes + 1,
            episode_rewards@.len() == episode - 1,
            epsilon_values@.len() == episode - 1,
            episode_timesteps@.len() == episode - 1,
            forall|i: int|
                0 <= i < epsilon_values@.len() ==> 0 <= #[trigger] epsilon_values@[i] <= FIXED_ONE,
            epsilon == if episode == 1 {
                parameters.epsilon as int
            } else {
                spec_decayed_epsilon(
                    epsilon_values@[episode - 2] as int,
                    parameters.epsilon_decay_factor as int,
                    parameters.min_epsilon as int,
                )
            },
            episode >= 2 ==> epsilon_values@[0] == parameters.epsilon,
            forall|i: int|
                0 <= i < epsilon_values@.len() - 1 ==> epsilon_values@[i + 1]
                    == spec_decayed_epsilon(
                    #[trigger] epsilon_values@[i] as int,
                    parameters.epsilon_decay_factor as int,
                    parameters.min_epsilon as int,
                ),
            forall|i: int|
                0 <= i < episode_timesteps@.len() ==> #[trigger] episode_timesteps@[i]
                    <= parameters.n_timesteps,
        decreases parameters.n_episodes + 1 - episode,
    {
        env.reset();
        let initial_position = env.agent_position();
        proof {
            assert(states.spec_positions()[initial_position.y * size + initial_position.x]
                == initial_position);
            assert(states.spec_positions().contains(initial_position));
        }
        let mut state = states.index(initial_position);
        let mut available = env.available_agent_positions();
        let mut allowed = legal_mask(&available);
        proof {
            lemma_some_action_available(env.agent.position, size as int);
            let w = choose|a: int|
                0 <= a < 4 && spec_available_position(env.agent.position, size as int, a) is Some;
            assert(allowed@[w]);
            assert(actions.spec_values()[w] == w);
        }
        let mut action = choose_action(&q, state, &allowed, epsilon, &actions, rng);
        let mut total: i64 = 0;
        let mut timestep: u32 = 1;
        let mut done = env.agent_has_reached_goal();
        while !done && timestep <= parameters.n_timesteps
            invariant
                env.wf(),
                env.board.size == size,
                q.wf(),
                q.n_possible_states == n_states,
                q.n_possible_actions == 4,
                state < n_states,
                available@.len() == 4,
                forall|a: int|
                    0 <= a < 4 ==> #[trigger] available@[a] == spec_available_position(
                        env.agent.position,
                        size as int,
                        a,
                    ),
                allowed@.len() == 4,
                forall|a: int| 0 <= a < 4 ==> #[trigger] allowed@[a] == (available@[a] is Some),
                action < 4,
                allowed@[action as int],
                1 <= timestep <= parameters.n_timesteps + 1,
                -((timestep - 1) as int) * STEP_REWARD_LIMIT <= total as int <= ((timestep
                    - 1) as int) * STEP_REWARD_LIMIT,
                done == env.agent.has_reached_goal,
            decreases parameters.n_timesteps + 1 - timestep,
        {
            let target = available[action].unwrap();
            proof {
                assert(target == env.agent.position.spec_in_direction(
                    crate::board::spec_direction_of_action(action as int),
                ));
            }
            let reward = env.step(target);
            let next_position = env.agent_position();
            proof {
                assert(states.spec_positions()[next_position.y * size + next_position.x]
                    == next_position);
                assert(states.spec_positions().contains(next_position));
            }
            let next_state = states.index(next_position);
            available = env.available_agent_positions();
            allowed = legal_mask(&available);
            proof {
                lemma_some_action_available(env.agent.position, size as int);
                let w = choose|a: int|
                    0 <= a < 4 && spec_available_position(
                        env.agent.position,
                        size as int,
                        a,
                    ) is Some;
                assert(allowed@[w]);
                assert(actions.spec_values()[w] == w);
            }
            let next_action = choose_action(&q, next_state, &allowed, epsilon, &actions, rng);
            let bootstrap = if algorithm == Algorithm::SARSA {
                q.get(next_state, next_action)
            } else {
                q.max_allowed(next_state, &allowed)
            };
            q.update(
                state,
                action,
                reward,
                bootstrap,
                parameters.learning_rate,
                parameters.discount_rate,
            );
            proof {
                assert((timestep as int) * STEP_REWARD_LIMIT == ((timestep - 1) as int)
                    * STEP_REWARD_LIMIT + STEP_REWARD_LIMIT) by (nonlinear_arith);
                assert((timestep as int) * STEP_REWARD_LIMIT <= (MAX_TIMESTEPS + 1) as int
                    * STEP_REWARD_LIMIT) by (nonlinear_arith)
                    requires
                        1 <= timestep <= MAX_TIMESTEPS + 1,
                ;
            }
            total = total + reward;
            timestep = timestep + 1;
            state = next_state;
            action = next_action;
            done = env.agent_has_reached_goal();
        }
        episode_rewards.push(total);
        epsilon_values.push(epsilon);
        episode_timesteps.push(timestep - 1);
        epsilon = decay_epsilon(epsilon, parameters.epsilon_decay_factor, parameters.min_epsilon);
        episode = episode + 1;
    }
    Ok(TrainingOutcome { q, episode_rewards, epsilon_values, episode_timesteps })
}

/// Replays a trained table greedily on a fresh environment: from the
/// starting cell, repeatedly takes the greedy legal action (epsilon forced
/// to zero) and steps, until the goal or the timestep cap. The table is not
/// mutated; the path of visited cells is returned.
#[verifier::loop_isolation(false)]
pub fn test_agent<R: Rewarder>(
    q: &Q,
    max_timesteps: u32,
    env_parameters: EnvParameters<R>,
) -> (result: Result<Vec<Position>, ConfigError>)
    requires
        q.wf(),
        env_parameters.wf(),
        q.n_possible_states == env_parameters.size * env_parameters.size,
        q.n_possible_actions == 4,
    ensures
        result is Ok <==> valid_overrides(
            env_parameters.tile_overrides@,
            env_parameters.size as int,
        ),
        match result {
            Ok(path) => {
                &&& path@.len() <= max_timesteps
                &&& forall|i: int|
                    0 <= i < path@.len() ==> spec_in_bounds(
                        #[trigger] path@[i],
                        env_parameters.size as int,
                    )
                &&& path@.len() < max_timesteps ==> path@.len() > 0 && overrides_lookup(
                    env_parameters.tile_overrides@,
                    path@.last(),
                ) == Tile::Goal
            },
            Err(e) => e == spec_validation_error(
                env_parameters.tile_overrides@,
                env_parameters.size as int,
            ),
        },
{
    let ghost overrides_view = env_parameters.tile_overrides@;
    let EnvParameters { size, tile_overrides, initial_agent_position, rewarder } = env_parameters;
    let agent = Agent::new(initial_agent_position);
    let board = match Board::new(tile_overrides, size) {
        Ok(b) => b,
        Err(e) => {
            return Err(e);
        },
    };
    proof {
        lemma_state_mapping_bijection(size as int);
        assert(size * size <= MAX_BOARD_SIZE * MAX_BOARD_SIZE) by (nonlinear_arith)
            requires
                size <= MAX_BOARD_SIZE,
        ;
    }
    let all = board.all_positions();
    proof {
        assert forall|i: int, j: int| 0 <= i < j < all@.len() implies all@[i] != all@[j] by {
            assert(row_major_position(i, size as int).y * size + row_major_position(
                i,
                size as int,
            ).x == i);
            assert(row_major_position(j, size as int).y * size + row_major_position(
                j,
                size as int,
            ).x == j);
        }
    }
    let n_states = size * size;
    let states = States::new(n_states, &all);
    let mut env = Env::new(board, agent, rewarder);
    env.reset();
    let initial_position = env.agent_position();
    proof {
        assert(states.spec_positions()[initial_position.y * size + initial_position.x]
            == initial_position);
        assert(states.spec_positions().contains(initial_position));
    }
    let mut state = states.index(initial_position);
    let mut timestep: u32 = 0;
    let mut done = env.agent_has_reached_goal();
    while !done && timestep < max_timesteps
        invariant
            env.wf(),
            env.board.size == size,
            state < n_states,
            0 <= timestep <= max_timesteps,
            env.agent.path@.len() == timestep,
            forall|i: int|
                0 <= i < env.agent.path@.len() ==> spec_in_bounds(
                    #[trigger] env.agent.path@[i],
                    size as int,
                ),
            done == env.agent.has_reached_goal,
            env.board.spec_overrides() == overrides_view,
            forall|p: Position|
                spec_in_bounds(p, size as int) ==> ((#[trigger] env.board.spec_tile(p)
                    == Tile::Goal) <==> overrides_lookup(overrides_view, p) == Tile::Goal),
            done ==> env.agent.path@.len() > 0 && env.agent.path@.last() == env.agent.position
                && overrides_lookup(overrides_view, env.agent.position) == Tile::Goal,
        decreases max_timesteps - timestep,
    {
        let available = env.available_agent_positions();
        let allowed = legal_mask(&available);
        proof {
            lemma_some_action_available(env.agent.position, size as int);
            let w = choose|a: int|
                0 <= a < 4 && spec_available_position(env.agent.position, size as int, a) is Some;
            assert(allowed@[w]);
        }
        let action = q.argmax(state, &allowed);
        let target = available[action].unwrap();
        proof {
            assert(target == env.agent.position.spec_in_direction(
                crate::board::spec_direction_of_action(action as int),
            ));
        }
        env.step(target);
        let next_position = env.agent_position();
        proof {
            assert(states.spec_positions()[next_position.y * size + next_position.x]
                == next_position);
            assert(states.spec_positions().contains(next_position));
        }
        state = states.index(next_position);
        timestep = timestep + 1;
        done = env.agent_has_reached_goal();
    }
    Ok(env.agent_path())
}

} // verus!
