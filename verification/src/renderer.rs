//! The verified half of frame rendering: which glyph each cell is drawn
//! with. Collaborators colour and print the glyph grid; neither touches the
//! learning contract.

use vstd::prelude::*;
use crate::board::{Board, Position, contains_position, spec_in_bounds};
use crate::env::{Env, Rewarder, Tile};

verus! {

/// An immutable per-frame snapshot: the agent's cell, the cells it has
/// visited, and the board as it currently stands.
pub struct RenderState {
    pub agent_position: Position,
    pub visited_positions: Vec<Position>,
    pub board: Board,
}

impl RenderState {
    /// Snapshots an environment.
    pub fn from_env<R: Rewarder>(env: &Env<R>) -> (r: RenderState)
        requires
            env.wf(),
        ensures
            r.agent_position == env.agent.position,
            r.visited_positions@ == env.agent.path@,
            r.board.size == env.board.size,
            r.board.wf(),
            forall|p: Position|
                spec_in_bounds(p, env.board.size as int) ==> #[trigger] r.board.spec_tile(p)
                    == env.board.spec_tile(p),
    {
        RenderState {
            agent_position: env.agent_position(),
            visited_positions: env.agent_path(),
            board: env.board.snapshot(),
        }
    }
}

/// Renders snapshots to glyph grids.
pub struct EnvRenderer;

impl EnvRenderer {
    /// The glyph a cell is drawn with: the agent's cell first, then visited
    /// cells, then the tile kind.
    pub open spec fn spec_displayed_value(position: Position, tile: Tile, state: RenderState) -> char {
        if position == state.agent_position {
            '♖'
        } else if state.visited_positions@.contains(position) {
            '❄'
        } else {
            match tile {
                Tile::Curse => '☠',
                Tile::Gem => '∆',
                Tile::Goal => '★',
                Tile::Normal => '.',
            }
        }
    }

    pub fn displayed_value(position: Position, tile: Tile, state: &RenderState) -> (c: char)
        ensures
            c == Self::spec_displayed_value(position, tile, *state),
    {
        if position == state.agent_position {
            '♖'
        } else if contains_position(&state.visited_positions, position) {
            '❄'
        } else {
            match tile {
                Tile::Curse => '☠',
                Tile::Gem => '∆',
                Tile::Goal => '★',
                Tile::Normal => '.',
            }
        }
    }

    /// The whole frame: one row of glyphs per board row.
    pub fn render(state: &RenderState) -> (rows: Vec<Vec<char>>)
        requires
            state.board.wf(),
        ensures
            rows@.len() == state.board.size,
            forall|y: int| 0 <= y < state.board.size ==> (#[trigger] rows@[y])@.len() == state.board.size,
            forall|p: Position|
                spec_in_bounds(p, state.board.size as int) ==> (#[trigger] rows@[p.y as int])@[p.x as int]
                    == Self::spec_displayed_value(p, state.board.spec_tile(p), *state),
    {
        let size = state.board.size;
        let mut rows: Vec<Vec<char>> = Vec::new();
        let mut y: usize = 0;
        while y < size
            invariant
                state.board.wf(),
                size == state.board.size,
                0 <= y <= size,
                rows@.len() == y,
                forall|yy: int| 0 <= yy < y ==> (#[trigger] rows@[yy])@.len() == size,
                forall|p: Position|
                    (spec_in_bounds(p, size as int) && p.y < y) ==> (#[trigger] rows@[p.y as int])@[p.x as int]
                        == Self::spec_displayed_value(p, state.board.spec_tile(p), *state),
            decreases size - y,
        {
            let mut row: Vec<char> = Vec::new();
            let mut x: usize = 0;
            while x < size
                invariant
                    state.board.wf(),
                    size == state.board.size,
                    0 <= y < size,
                    0 <= x <= size,
                    row@.len() == x,
                    forall|p: Position|
                        (spec_in_bounds(p, size as int) && p.y == y && p.x < x) ==> row@[p.x as int]
                            == Self::spec_displayed_value(p, state.board.spec_tile(p), *state),
                decreases size - x,
            {
                let position = Position::new(x as i32, y as i32);
                let tile = state.board.tile(&position);
                row.push(EnvRenderer::displayed_value(position, tile, state));
                x = x + 1;
            }
            rows.push(row);
            y = y + 1;
        }
        rows
    }
}

} // verus!
