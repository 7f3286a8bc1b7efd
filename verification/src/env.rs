//! Tile semantics, reward strategies, the agent, and the environment that
//! ties them to a board.

use vstd::prelude::*;
use crate::board::{
    Board, Direction, Position, contains_position, copy_positions, spec_available_position,
    spec_direction_of_action, spec_in_bounds,
};
use crate::fixed::{REWARD_MAGNITUDE_LIMIT, STEP_REWARD_LIMIT};

verus! {

/// The closed set of tile kinds a board cell can hold.
#[derive(Debug, Clone, Copy, PartialEq, Eq, Structural, Hash)]
pub enum Tile {
    Normal,
    Curse,
    Gem,
    Goal,
}

impl Tile {
    /// The default reward of each tile kind, in thousandths:
    /// Normal = 0, Curse = -10, Gem = +5, Goal = +20.
    pub open spec fn spec_default_reward(self) -> int {
        match self {
            Tile::Normal => 0,
            Tile::Curse => -10_000,
            Tile::Gem => 5_000,
            Tile::Goal => 20_000,
        }
    }

    pub fn default_reward(&self) -> (r: i64)
        ensures
            r == self.spec_default_reward(),
    {
        match self {
            Tile::Normal => 0,
            Tile::Curse => -10_000,
            Tile::Gem => 5_000,
            Tile::Goal => 20_000,
        }
    }
}

impl Default for Tile {
    fn default() -> (t: Self)
        ensures
            t == Tile::Normal,
    {
        Tile::Normal
    }
}

/// A total reward table over the four tile kinds, in thousandths.
#[derive(Debug, Clone, Copy, PartialEq, Eq, Structural)]
pub struct TileRewards {
    pub normal: i64,
    pub curse: i64,
    pub gem: i64,
    pub goal: i64,
}

impl TileRewards {
    /// Every configured reward stays within the magnitude the value update
    /// is proved overflow-free for.
    pub open spec fn wf(self) -> bool {
        &&& -REWARD_MAGNITUDE_LIMIT <= self.normal <= REWARD_MAGNITUDE_LIMIT
        &&& -REWARD_MAGNITUDE_LIMIT <= self.curse <= REWARD_MAGNITUDE_LIMIT
        &&& -REWARD_MAGNITUDE_LIMIT <= self.gem <= REWARD_MAGNITUDE_LIMIT
        &&& -REWARD_MAGNITUDE_LIMIT <= self.goal <= REWARD_MAGNITUDE_LIMIT
    }

    pub open spec fn spec_reward(self, tile: Tile) -> int {
        match tile {
            Tile::Normal => self.normal as int,
            Tile::Curse => self.curse as int,
            Tile::Gem => self.gem as int,
            Tile::Goal => self.goal as int,
        }
    }

    pub fn new(normal: i64, curse: i64, gem: i64, goal: i64) -> (t: Self)
        requires
            -REWARD_MAGNITUDE_LIMIT <= normal <= REWARD_MAGNITUDE_LIMIT,
            -REWARD_MAGNITUDE_LIMIT <= curse <= REWARD_MAGNITUDE_LIMIT,
            -REWARD_MAGNITUDE_LIMIT <= gem <= REWARD_MAGNITUDE_LIMIT,
            -REWARD_MAGNITUDE_LIMIT <= goal <= REWARD_MAGNITUDE_LIMIT,
        ensures
            t == (TileRewards { normal, curse, gem, goal }),
            t.wf(),
    {
        TileRewards { normal, curse, gem, goal }
    }

    /// The table holding each tile's default reward.
    pub fn defaults() -> (t: Self)
        ensures
            t.wf(),
            forall|tile: Tile| t.spec_reward(tile) == tile.spec_default_reward(),
    {
        let t = TileRewards { normal: 0, curse: -10_000, gem: 5_000, goal: 20_000 };
        proof {
            assert forall|tile: Tile| t.spec_reward(tile) == tile.spec_default_reward() by {
            }
        }
        t
    }

    pub fn reward(&self, tile: &Tile) -> (r: i64)
        ensures
            r == self.spec_reward(*tile),
    {
        match tile {
            Tile::Normal => self.normal,
            Tile::Curse => self.curse,
            Tile::Gem => self.gem,
            Tile::Goal => self.goal,
        }
    }
}

/// A pluggable reward strategy: a pure function of the step's snapshot (the
/// tile the agent lands on, the position it lands on, and the path of
/// positions visited strictly before this step).
pub trait Rewarder: Sized {
    /// When the strategy's configuration is acceptable: every reward it can
    /// produce stays within [`STEP_REWARD_LIMIT`].
    spec fn wf(&self) -> bool;

    /// The reward, in thousandths, as a mathematical function.
    spec fn spec_reward(&self, tile: Tile, position: Position, path: Seq<Position>) -> int;

    fn reward(&self, tile: Tile, position: Position, path: &Vec<Position>) -> (r: i64)
        requires
            self.wf(),
        ensures
            r == self.spec_reward(tile, position, path@),
            -STEP_REWARD_LIMIT <= r <= STEP_REWARD_LIMIT,
    ;
}

/// The flat strategy: the reward is the landed-on tile's table entry.
#[derive(Debug, Clone, Copy, PartialEq, Eq, Structural)]
pub struct FlatRewarder {
    pub rewards: TileRewards,
}

impl Rewarder for FlatRewarder {
    open spec fn wf(&self) -> bool {
        self.rewards.wf()
    }

    open spec fn spec_reward(&self, tile: Tile, position: Position, path: Seq<Position>) -> int {
        self.rewards.spec_reward(tile)
    }

    fn reward(&self, tile: Tile, position: Position, path: &Vec<Position>) -> (r: i64) {
        self.rewards.reward(&tile)
    }
}

/// The revisit-penalty strategy: the tile's table entry, minus a fixed
/// penalty when the landed-on position was already visited at an earlier
/// step (the path handed in excludes the current step, so the first arrival
/// anywhere is never penalized).
#[derive(Debug, Clone, Copy, PartialEq, Eq, Structural)]
pub struct RevisitPenaltyRewarder {
    pub rewards: TileRewards,
    pub penalty: i64,
}

impl Rewarder for RevisitPenaltyRewarder {
    open spec fn wf(&self) -> bool {
        self.rewards.wf() && 0 <= self.penalty <= REWARD_MAGNITUDE_LIMIT
    }

    open spec fn spec_reward(&self, tile: Tile, position: Position, path: Seq<Position>) -> int {
        self.rewards.spec_reward(tile) - (if path.contains(position) {
            self.penalty as int
        } else {
            0
        })
    }

    fn reward(&self, tile: Tile, position: Position, path: &Vec<Position>) -> (r: i64) {
        let base = self.rewards.reward(&tile);
        if contains_position(path, position) {
            base - self.penalty
        } else {
            base
        }
    }
}

/// The agent: its fixed starting cell, its current cell, the ordered path of
/// cells it has visited this episode (repeats included), and whether it has
/// reached the goal.
pub struct Agent {
    pub initial_position: Position,
    pub position: Position,
    pub path: Vec<Position>,
    pub has_reached_goal: bool,
}

impl Agent {
    pub fn new(initial_position: Position) -> (a: Self)
        ensures
            a.initial_position == initial_position,
            a.position == initial_position,
            a.path@ == Seq::<Position>::empty(),
            !a.has_reached_goal,
    {
        Agent {
            initial_position,
            position: initial_position,
            path: Vec::new(),
            has_reached_goal: false,
        }
    }

    /// Returns the agent to its starting cell with an empty path and the
    /// goal flag cleared.
    pub fn reset(&mut self)
        ensures
            final(self).initial_position == old(self).initial_position,
            final(self).position == old(self).initial_position,
            final(self).path@ == Seq::<Position>::empty(),
            !final(self).has_reached_goal,
    {
        self.position = self.initial_position;
        self.has_reached_goal = false;
        self.path.clear();
    }
}

/// The environment: a board, an agent on it, and the reward strategy the
/// steps are scored with.
pub struct Env<R: Rewarder> {
    pub board: Board,
    pub agent: Agent,
    pub rewarder: R,
}

impl<R: Rewarder> Env<R> {
    /// Well-formedness: the board is well formed, the agent's current and
    /// starting cells lie on it, and the reward strategy is acceptable.
    pub open spec fn wf(self) -> bool {
        &&& self.board.wf()
        &&& spec_in_bounds(self.agent.position, self.board.size as int)
        &&& spec_in_bounds(self.agent.initial_position, self.board.size as int)
        &&& self.rewarder.wf()
    }

    pub fn new(board: Board, agent: Agent, rewarder: R) -> (e: Self)
        requires
            board.wf(),
            spec_in_bounds(agent.position, board.size as int),
            spec_in_bounds(agent.initial_position, board.size as int),
            rewarder.wf(),
        ensures
            e == (Env { board, agent, rewarder }),
            e.wf(),
    {
        Env { board, agent, rewarder }
    }

    /// Starts a fresh episode: the agent returns to its starting cell with
    /// an empty path and a cleared goal flag, and the dense grid is rebuilt
    /// from the overrides, so consumed Gem and Curse tiles reappear.
    pub fn reset(&mut self)
        requires
            old(self).wf(),
        ensures
            final(self).wf(),
            final(self).board.size == old(self).board.size,
            final(self).board.spec_overrides() == old(self).board.spec_overrides(),
            final(self).board.matches_overrides(),
            final(self).agent.initial_position == old(self).agent.initial_position,
            final(self).agent.position == old(self).agent.initial_position,
            final(self).agent.path@ == Seq::<Position>::empty(),
            !final(self).agent.has_reached_goal,
            final(self).rewarder == old(self).rewarder,
    {
        self.agent.reset();
        self.board.reset();
    }

    /// One environment transition. The target cell must be one the current
    /// cell's legal moves lead to: on the board and one step away. The agent
    /// moves there and the move is appended to its path; the reward is
    /// computed from the not-yet-consumed tile and the path of strictly
    /// earlier visits; then a Goal tile sets the goal flag permanently while
    /// a Curse or Gem tile is consumed to Normal for the rest of the episode.
    pub fn step(&mut self, target: Position) -> (r: i64)
        requires
            old(self).wf(),
            spec_in_bounds(target, old(self).board.size as int),
            exists|d: Direction| target == old(self).agent.position.spec_in_direction(d),
        ensures
            final(self).wf(),
            final(self).board.size == old(self).board.size,
            final(self).board.spec_overrides() == old(self).board.spec_overrides(),
            final(self).rewarder == old(self).rewarder,
            final(self).agent.initial_position == old(self).agent.initial_position,
            final(self).agent.position == target,
            final(self).agent.path@ == old(self).agent.path@.push(target),
            r == old(self).rewarder.spec_reward(
                old(self).board.spec_tile(target),
                target,
                old(self).agent.path@,
            ),
            -STEP_REWARD_LIMIT <= r <= STEP_REWARD_LIMIT,
            final(self).agent.has_reached_goal == (old(self).agent.has_reached_goal
                || old(self).board.spec_tile(target) == Tile::Goal),
            final(self).board.spec_tile(target) == (
                match old(self).board.spec_tile(target) {
                    Tile::Curse => Tile::Normal,
                    Tile::Gem => Tile::Normal,
                    t => t,
                }),
            forall|p: Position|
                spec_in_bounds(p, old(self).board.size as int) && p != target
                    ==> #[trigger] final(self).board.spec_tile(p) == old(self).board.spec_tile(p),
    {
        let tile = self.board.tile(&target);
        let r = self.rewarder.reward(tile, target, &self.agent.path);
        self.agent.position = target;
        self.agent.path.push(target);
        match tile {
            Tile::Goal => {
                self.agent.has_reached_goal = true;
            },
            Tile::Curse | Tile::Gem => {
                self.board.set_tile(&target, Tile::Normal);
            },
            Tile::Normal => {},
        }
        r
    }

    /// The legal moves from the agent's current cell, indexed by action id:
    /// entry `a` holds the target cell of action `a` when that cell lies on
    /// the board, and `None` when the move would leave it. The set shrinks
    /// near edges and corners and is recomputed every step.
    pub fn available_agent_positions(&self) -> (r: Vec<Option<Position>>)
        requires
            self.wf(),
        ensures
            r@.len() == 4,
            forall|a: int|
                0 <= a < 4 ==> #[trigger] r@[a] == spec_available_position(
                    self.agent.position,
                    self.board.size as int,
                    a,
                ),
    {
        let directions = Direction::all();
        let mut r: Vec<Option<Position>> = Vec::new();
        let mut a: usize = 0;
        while a < 4
            invariant
                self.wf(),
                directions@ == seq![
                    Direction::Up,
                    Direction::Down,
                    Direction::Left,
                    Direction::Right,
                ],
                0 <= a <= 4,
                r@.len() == a,
                forall|k: int|
                    0 <= k < a ==> #[trigger] r@[k] == spec_available_position(
                        self.agent.position,
                        self.board.size as int,
                        k,
                    ),
            decreases 4 - a,
        {
            let dir = directions[a];
            proof {
                assert(dir == spec_direction_of_action(a as int));
            }
            let neighbour = self.agent.position.in_direction(dir);
            if Board::in_bounds(&neighbour, self.board.size) {
                r.push(Some(neighbour));
            } else {
                r.push(None);
            }
            a = a + 1;
        }
        r
    }

    pub fn agent_has_reached_goal(&self) -> (b: bool)
        ensures
            b == self.agent.has_reached_goal,
    {
        self.agent.has_reached_goal
    }

    pub fn agent_position(&self) -> (p: Position)
        ensures
            p == self.agent.position,
    {
        self.agent.position
    }

    /// A copy of the path of cells the agent has visited this episode.
    pub fn agent_path(&self) -> (path: Vec<Position>)
        ensures
            path@ == self.agent.path@,
    {
        copy_positions(&self.agent.path)
    }

    /// The tile under the agent.
    pub fn agent_tile(&self) -> (t: Tile)
        requires
            self.wf(),
        ensures
            t == self.board.spec_tile(self.agent.position),
    {
        self.board.tile(&self.agent.position)
    }
}

} // verus!
