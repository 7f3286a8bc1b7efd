//! Board geometry: cell coordinates, the four movement directions, and the
//! board itself with its sparse tile overrides and derived dense grid.

use vstd::prelude::*;
use vstd::arithmetic::div_mod::lemma_fundamental_div_mod_converse;
use crate::env::Tile;

verus! {

/// A cell coordinate. `x` grows along a row, `y` along a column.
#[derive(Debug, Default, Clone, Copy, PartialEq, Eq, Structural, Hash)]
pub struct Position {
    pub x: i32,
    pub y: i32,
}

/// The four compass directions an agent can move in. Each is bound to a
/// fixed action id (see [`Direction::to_action`]) that never changes.
#[derive(Debug, Clone, Copy, PartialEq, Eq, Structural, Hash)]
pub enum Direction {
    Up,
    Down,
    Left,
    Right,
}

impl Position {
    pub fn new(x: i32, y: i32) -> (p: Self)
        ensures
            p == (Position { x, y }),
    {
        Position { x, y }
    }

    /// The neighbouring cell one step away in `direction`.
    pub open spec fn spec_in_direction(self, direction: Direction) -> Position {
        match direction {
            Direction::Up => Position { x: self.x, y: (self.y - 1) as i32 },
            Direction::Down => Position { x: self.x, y: (self.y + 1) as i32 },
            Direction::Left => Position { x: (self.x + 1) as i32, y: self.y },
            Direction::Right => Position { x: (self.x - 1) as i32, y: self.y },
        }
    }

    pub fn in_direction(self, direction: Direction) -> (p: Self)
        requires
            direction == Direction::Up ==> self.y > i32::MIN,
            direction == Direction::Down ==> self.y < i32::MAX,
            direction == Direction::Left ==> self.x < i32::MAX,
            direction == Direction::Right ==> self.x > i32::MIN,
        ensures
            p == self.spec_in_direction(direction),
    {
        match direction {
            Direction::Up => Position { x: self.x, y: self.y - 1 },
            Direction::Down => Position { x: self.x, y: self.y + 1 },
            Direction::Left => Position { x: self.x + 1, y: self.y },
            Direction::Right => Position { x: self.x - 1, y: self.y },
        }
    }
}

impl Direction {
    /// The fixed action id of this direction.
    pub open spec fn spec_to_action(self) -> usize {
        match self {
            Direction::Up => 0,
            Direction::Down => 1,
            Direction::Left => 2,
            Direction::Right => 3,
        }
    }

    pub fn to_action(&self) -> (a: usize)
        ensures
            a == self.spec_to_action(),
    {
        match self {
            Direction::Up => 0,
            Direction::Down => 1,
            Direction::Left => 2,
            Direction::Right => 3,
        }
    }

    /// All four directions, in action-id order.
    pub fn all() -> (v: Vec<Direction>)
        ensures
            v@ == seq![Direction::Up, Direction::Down, Direction::Left, Direction::Right],
            forall|i: int| 0 <= i < 4 ==> #[trigger] v@[i].spec_to_action() == i,
    {
        let mut v: Vec<Direction> = Vec::new();
        v.push(Direction::Up);
        v.push(Direction::Down);
        v.push(Direction::Left);
        v.push(Direction::Right);
        proof {
            assert(v@ =~= seq![Direction::Up, Direction::Down, Direction::Left, Direction::Right]);
        }
        v
    }
}

/// Largest board edge the library accepts: keeps every coordinate, state
/// index and table size within `i32` and `usize` arithmetic.
pub const MAX_BOARD_SIZE: usize = 46_340;

/// The direction bound to action id `a` (the inverse of
/// [`Direction::spec_to_action`]).
pub open spec fn spec_direction_of_action(a: int) -> Direction {
    if a == 0 {
        Direction::Up
    } else if a == 1 {
        Direction::Down
    } else if a == 2 {
        Direction::Left
    } else {
        Direction::Right
    }
}

/// The cell action `a` would move an agent standing on `pos` to, if that
/// cell lies on the board; `None` when the move would leave it.
pub open spec fn spec_available_position(pos: Position, size: int, a: int) -> Option<Position> {
    let n = pos.spec_in_direction(spec_direction_of_action(a));
    if spec_in_bounds(n, size) {
        Some(n)
    } else {
        None
    }
}

/// Law: on a board with at least two cells per edge, an in-bounds agent
/// always has at least one legal action.
pub proof fn lemma_some_action_available(pos: Position, size: int)
    requires
        2 <= size <= MAX_BOARD_SIZE,
        spec_in_bounds(pos, size),
    ensures
        exists|a: int| 0 <= a < 4 && (#[trigger] spec_available_position(pos, size, a)) is Some,
{
    if pos.y > 0 {
        assert(spec_available_position(pos, size, 0) is Some);
    } else {
        assert(spec_available_position(pos, size, 1) is Some);
    }
}

/// Whether `p` lies on a board of edge length `size`.
pub open spec fn spec_in_bounds(p: Position, size: int) -> bool {
    0 <= p.x < size && 0 <= p.y < size
}

/// Whether `v` holds `p`.
pub fn contains_position(v: &Vec<Position>, p: Position) -> (r: bool)
    ensures
        r == v@.contains(p),
{
    let mut i: usize = 0;
    while i < v.len()
        invariant
            0 <= i <= v@.len(),
            forall|j: int| 0 <= j < i ==> v@[j] != p,
        decreases v@.len() - i,
    {
        if v[i] == p {
            return true;
        }
        i = i + 1;
    }
    false
}

/// A copy of a position list.
pub fn copy_positions(v: &Vec<Position>) -> (r: Vec<Position>)
    ensures
        r@ == v@,
{
    let mut r: Vec<Position> = Vec::new();
    let mut i: usize = 0;
    while i < v.len()
        invariant
            0 <= i <= v@.len(),
            r@ == v@.take(i as int),
        decreases v@.len() - i,
    {
        r.push(v[i]);
        proof {
            assert(r@ =~= v@.take(i + 1));
        }
        i = i + 1;
    }
    proof {
        assert(v@.take(v@.len() as int) =~= v@);
    }
    r
}

/// The tile a sparse override list assigns to `p`: the last entry for `p`
/// wins, and a position with no entry is `Normal`.
pub open spec fn overrides_lookup(s: Seq<(Position, Tile)>, p: Position) -> Tile
    decreases s.len(),
{
    if s.len() == 0 {
        Tile::Normal
    } else if s.last().0 == p {
        s.last().1
    } else {
        overrides_lookup(s.drop_last(), p)
    }
}

/// How many entries of the override list carry a Goal tile.
pub open spec fn goal_count(s: Seq<(Position, Tile)>) -> int
    decreases s.len(),
{
    if s.len() == 0 {
        0
    } else {
        goal_count(s.drop_last()) + (if s.last().1 == Tile::Goal {
            1int
        } else {
            0int
        })
    }
}

/// Whether the override list names each position at most once.
pub open spec fn positions_distinct(s: Seq<(Position, Tile)>) -> bool {
    forall|i: int, j: int| 0 <= i < j < s.len() ==> (#[trigger] s[i]).0 != (#[trigger] s[j]).0
}

/// Whether every override position lies on the board.
pub open spec fn overrides_in_bounds(s: Seq<(Position, Tile)>, size: int) -> bool {
    forall|i: int| 0 <= i < s.len() ==> spec_in_bounds((#[trigger] s[i]).0, size)
}

/// A valid override list: all in bounds, no duplicate positions, exactly
/// one Goal tile.
pub open spec fn valid_overrides(s: Seq<(Position, Tile)>, size: int) -> bool {
    overrides_in_bounds(s, size) && positions_distinct(s) && goal_count(s) == 1
}

/// The configuration faults board construction rejects.
#[derive(Debug, Clone, Copy, PartialEq, Eq, Structural)]
pub enum ConfigError {
    OverrideOutOfBounds,
    DuplicateOverride,
    GoalCountMismatch,
}

/// Which fault an invalid override list is reported with: bounds are checked
/// first, then duplicates, then the Goal count.
pub open spec fn spec_validation_error(s: Seq<(Position, Tile)>, size: int) -> ConfigError {
    if !overrides_in_bounds(s, size) {
        ConfigError::OverrideOutOfBounds
    } else if !positions_distinct(s) {
        ConfigError::DuplicateOverride
    } else {
        ConfigError::GoalCountMismatch
    }
}

/// The board: the sparse overrides that are the source of truth for the
/// non-Normal cells, the dense grid derived from them, and the edge length.
pub struct Board {
    pub tile_overrides: Vec<(Position, Tile)>,
    pub array: Vec<Vec<Tile>>,
    pub size: usize,
}

impl Board {
    /// The override list the board was built from.
    pub open spec fn spec_overrides(self) -> Seq<(Position, Tile)> {
        self.tile_overrides@
    }

    /// The tile currently on cell `p` of the dense grid.
    pub open spec fn spec_tile(self, p: Position) -> Tile {
        self.array@[p.y as int]@[p.x as int]
    }

    /// Structural well-formedness: a bounded edge length, a dense grid of
    /// exactly `size` x `size` cells, and a valid override list.
    pub open spec fn wf(self) -> bool {
        &&& 1 <= self.size <= MAX_BOARD_SIZE
        &&& self.array_wf()
        &&& valid_overrides(self.spec_overrides(), self.size as int)
    }

    /// The dense grid has `size` rows of `size` cells.
    pub open spec fn array_wf(self) -> bool {
        &&& self.array@.len() == self.size
        &&& forall|y: int| 0 <= y < self.size ==> (#[trigger] self.array@[y])@.len() == self.size
    }

    /// The dense grid agrees with the override list on every cell, as it
    /// does right after construction or a reset.
    pub open spec fn matches_overrides(self) -> bool {
        forall|p: Position|
            spec_in_bounds(p, self.size as int) ==> #[trigger] self.spec_tile(p)
                == overrides_lookup(self.spec_overrides(), p)
    }

    /// Whether `position` lies on a board of edge length `size`.
    pub fn in_bounds(position: &Position, size: usize) -> (r: bool)
        ensures
            r == spec_in_bounds(*position, size as int),
    {
        position.x >= 0 && (position.x as usize) < size && position.y >= 0
            && (position.y as usize) < size
    }

    /// Builds a board from its override list. Rejects a list with an
    /// out-of-bounds position, a duplicated position, or a Goal-tile count
    /// other than one; otherwise the dense grid is derived from the list.
    pub fn new(tile_overrides: Vec<(Position, Tile)>, size: usize) -> (r: Result<Board, ConfigError>)
        requires
            1 <= size <= MAX_BOARD_SIZE,
        ensures
            r is Ok <==> valid_overrides(tile_overrides@, size as int),
            match r {
                Ok(b) => {
                    &&& b.wf()
                    &&& b.size == size
                    &&& b.spec_overrides() == tile_overrides@
                    &&& b.matches_overrides()
                },
                Err(e) => e == spec_validation_error(tile_overrides@, size as int),
            },
    {
        let n = tile_overrides.len();
        let mut i: usize = 0;
        while i < n
            invariant
                n == tile_overrides@.len(),
                0 <= i <= n,
                forall|k: int| 0 <= k < i ==> spec_in_bounds((#[trigger] tile_overrides@[k]).0, size as int),
            decreases n - i,
        {
            if !Board::in_bounds(&tile_overrides[i].0, size) {
                return Err(ConfigError::OverrideOutOfBounds);
            }
            i = i + 1;
        }
        let mut i: usize = 0;
        while i < n
            invariant
                n == tile_overrides@.len(),
                0 <= i <= n,
                overrides_in_bounds(tile_overrides@, size as int),
                forall|a: int, b: int| 0 <= a < b < i ==> (#[trigger] tile_overrides@[a]).0 != (#[trigger] tile_overrides@[b]).0,
            decreases n - i,
        {
            let mut j: usize = 0;
            while j < i
                invariant
                    n == tile_overrides@.len(),
                    0 <= j <= i < n,
                    overrides_in_bounds(tile_overrides@, size as int),
                    forall|k: int| 0 <= k < j ==> (#[trigger] tile_overrides@[k]).0 != tile_overrides@[i as int].0,
                decreases i - j,
            {
                if tile_overrides[j].0 == tile_overrides[i].0 {
                    proof {
                        assert(!positions_distinct(tile_overrides@)) by {
                            assert((tile_overrides@[j as int]).0 == (tile_overrides@[i as int]).0);
                        }
                    }
                    return Err(ConfigError::DuplicateOverride);
                }
                j = j + 1;
            }
            i = i + 1;
        }
        let mut goals: usize = 0;
        let mut i: usize = 0;
        while i < n
            invariant
                n == tile_overrides@.len(),
                0 <= i <= n,
                goals == goal_count(tile_overrides@.take(i as int)),
                goals <= i,
            decreases n - i,
        {
            proof {
                assert(tile_overrides@.take(i + 1).drop_last() =~= tile_overrides@.take(i as int));
                assert(tile_overrides@.take(i + 1).last() == tile_overrides@[i as int]);
            }
            if tile_overrides[i].1 == Tile::Goal {
                goals = goals + 1;
            }
            i = i + 1;
        }
        proof {
            assert(tile_overrides@.take(n as int) =~= tile_overrides@);
        }
        if goals != 1 {
            return Err(ConfigError::GoalCountMismatch);
        }
        let array = Board::build_array(&tile_overrides, size);
        Ok(Board { tile_overrides, array, size })
    }

    /// Rebuilds the dense grid from the override list, so that consumed Gem
    /// and Curse tiles reappear.
    pub fn reset(&mut self)
        requires
            old(self).wf(),
        ensures
            final(self).wf(),
            final(self).size == old(self).size,
            final(self).spec_overrides() == old(self).spec_overrides(),
            final(self).matches_overrides(),
    {
        self.array = Board::build_array(&self.tile_overrides, self.size);
    }

    /// The dense grid derived from an override list: every overridden cell
    /// holds its override, every other cell is Normal.
    fn build_array(tile_overrides: &Vec<(Position, Tile)>, size: usize) -> (a: Vec<Vec<Tile>>)
        requires
            1 <= size <= MAX_BOARD_SIZE,
        ensures
            a@.len() == size,
            forall|y: int| 0 <= y < size ==> (#[trigger] a@[y])@.len() == size,
            forall|p: Position|
                spec_in_bounds(p, size as int) ==> (#[trigger] a@[p.y as int])@[p.x as int]
                    == overrides_lookup(tile_overrides@, p),
    {
        let mut a: Vec<Vec<Tile>> = Vec::new();
        let mut y: usize = 0;
        while y < size
            invariant
                1 <= size <= MAX_BOARD_SIZE,
                0 <= y <= size,
                a@.len() == y,
                forall|yy: int| 0 <= yy < y ==> (#[trigger] a@[yy])@.len() == size,
                forall|p: Position|
                    (spec_in_bounds(p, size as int) && p.y < y) ==> (#[trigger] a@[p.y as int])@[p.x as int]
                        == overrides_lookup(tile_overrides@, p),
            decreases size - y,
        {
            let mut row: Vec<Tile> = Vec::new();
            let mut x: usize = 0;
            while x < size
                invariant
                    1 <= size <= MAX_BOARD_SIZE,
                    0 <= x <= size,
                    0 <= y < size,
                    row@.len() == x,
                    forall|p: Position|
                        (spec_in_bounds(p, size as int) && p.y == y && p.x < x) ==> row@[p.x as int]
                            == overrides_lookup(tile_overrides@, p),
                decreases size - x,
            {
                let tile = Board::lookup_override(tile_overrides, Position::new(x as i32, y as i32));
                row.push(tile);
                x = x + 1;
            }
            a.push(row);
            y = y + 1;
        }
        a
    }

    /// The tile an override list assigns to `p` (the last entry wins).
    fn lookup_override(tile_overrides: &Vec<(Position, Tile)>, p: Position) -> (t: Tile)
        ensures
            t == overrides_lookup(tile_overrides@, p),
    {
        let mut t = Tile::Normal;
        let mut i: usize = 0;
        while i < tile_overrides.len()
            invariant
                0 <= i <= tile_overrides@.len(),
                t == overrides_lookup(tile_overrides@.take(i as int), p),
            decreases tile_overrides@.len() - i,
        {
            proof {
                assert(tile_overrides@.take(i + 1).drop_last() =~= tile_overrides@.take(i as int));
                assert(tile_overrides@.take(i + 1).last() == tile_overrides@[i as int]);
            }
            if tile_overrides[i].0 == p {
                t = tile_overrides[i].1;
            }
            i = i + 1;
        }
        proof {
            assert(tile_overrides@.take(tile_overrides@.len() as int) =~= tile_overrides@);
        }
        t
    }

    /// The tile currently on cell `position`.
    pub fn tile(&self, position: &Position) -> (t: Tile)
        requires
            self.array_wf(),
            1 <= self.size,
            spec_in_bounds(*position, self.size as int),
        ensures
            t == self.spec_tile(*position),
    {
        self.array[position.y as usize][position.x as usize]
    }

    /// Replaces the tile on cell `position` in the dense grid; the override
    /// list is untouched.
    pub(crate) fn set_tile(&mut self, position: &Position, tile: Tile)
        requires
            old(self).array_wf(),
            1 <= old(self).size,
            spec_in_bounds(*position, old(self).size as int),
        ensures
            final(self).array_wf(),
            final(self).size == old(self).size,
            final(self).spec_overrides() == old(self).spec_overrides(),
            final(self).spec_tile(*position) == tile,
            forall|p: Position|
                spec_in_bounds(p, old(self).size as int) && p != *position
                    ==> #[trigger] final(self).spec_tile(p) == old(self).spec_tile(p),
    {
        self.array[position.y as usize][position.x as usize] = tile;
    }

    /// A deep copy of the board, for read-only snapshots handed to
    /// collaborators.
    pub fn snapshot(&self) -> (b: Board)
        requires
            self.array_wf(),
        ensures
            b.size == self.size,
            b.spec_overrides() == self.spec_overrides(),
            b.array_wf(),
            forall|p: Position|
                spec_in_bounds(p, self.size as int) ==> #[trigger] b.spec_tile(p)
                    == self.spec_tile(p),
            self.wf() ==> b.wf(),
    {
        let mut tile_overrides: Vec<(Position, Tile)> = Vec::new();
        let mut i: usize = 0;
        while i < self.tile_overrides.len()
            invariant
                0 <= i <= self.tile_overrides@.len(),
                tile_overrides@ == self.tile_overrides@.take(i as int),
            decreases self.tile_overrides@.len() - i,
        {
            tile_overrides.push(self.tile_overrides[i]);
            proof {
                assert(tile_overrides@ =~= self.tile_overrides@.take(i + 1));
            }
            i = i + 1;
        }
        proof {
            assert(self.tile_overrides@.take(self.tile_overrides@.len() as int)
                =~= self.tile_overrides@);
        }
        let mut array: Vec<Vec<Tile>> = Vec::new();
        let mut y: usize = 0;
        while y < self.size
            invariant
                self.array_wf(),
                0 <= y <= self.size,
                array@.len() == y,
                forall|yy: int| 0 <= yy < y ==> (#[trigger] array@[yy])@ == self.array@[yy]@,
            decreases self.size - y,
        {
            let mut row: Vec<Tile> = Vec::new();
            let mut x: usize = 0;
            while x < self.size
                invariant
                    self.array_wf(),
                    0 <= y < self.size,
                    0 <= x <= self.size,
                    row@ == self.array@[y as int]@.take(x as int),
                decreases self.size - x,
            {
                row.push(self.array[y][x]);
                proof {
                    assert(row@ =~= self.array@[y as int]@.take(x + 1));
                }
                x = x + 1;
            }
            proof {
                assert(self.array@[y as int]@.take(self.array@[y as int]@.len() as int)
                    =~= self.array@[y as int]@);
            }
            array.push(row);
            y = y + 1;
        }
        Board { tile_overrides, array, size: self.size }
    }

    /// Every cell of the board in row-major order.
    pub fn all_positions(&self) -> (v: Vec<Position>)
        requires
            1 <= self.size <= MAX_BOARD_SIZE,
        ensures
            v@.len() == self.size * self.size,
            forall|i: int|
                0 <= i < v@.len() ==> #[trigger] v@[i] == row_major_position(i, self.size as int),
    {
        let size = self.size;
        let mut v: Vec<Position> = Vec::new();
        let mut y: usize = 0;
        while y < size
            invariant
                1 <= size <= MAX_BOARD_SIZE,
                0 <= y <= size,
                v@.len() == y * size,
                forall|i: int|
                    0 <= i < v@.len() ==> #[trigger] v@[i] == row_major_position(i, size as int),
            decreases size - y,
        {
            let mut x: usize = 0;
            while x < size
                invariant
                    1 <= size <= MAX_BOARD_SIZE,
                    0 <= y < size,
                    0 <= x <= size,
                    v@.len() == y * size + x,
                    forall|i: int|
                        0 <= i < v@.len() ==> #[trigger] v@[i] == row_major_position(i, size as int),
                decreases size - x,
            {
                proof {
                    lemma_fundamental_div_mod_converse(
                        y * size + x, size as int, y as int, x as int,
                    );
                    assert(row_major_position(y * size + x, size as int) == (Position {
                        x: x as i32,
                        y: y as i32,
                    }));
                }
                v.push(Position::new(x as i32, y as i32));
                x = x + 1;
            }
            proof {
                assert((y + 1) * size == y * size + size) by (nonlinear_arith);
            }
            y = y + 1;
        }
        v
    }
}

/// The cell at index `i` of the row-major enumeration of a board of edge
/// length `size`.
pub open spec fn row_major_position(i: int, size: int) -> Position {
    Position { x: (i % size) as i32, y: (i / size) as i32 }
}

/// Law: the row-major state mapping is a bijection between the cells of a
/// board of edge length `size` and the state indices `0 .. size * size`:
/// every index decodes to an in-bounds cell, decoding then encoding an index
/// recovers it, and encoding then decoding a cell recovers it.
pub proof fn lemma_state_mapping_bijection(size: int)
    requires
        1 <= size <= MAX_BOARD_SIZE,
    ensures
        forall|i: int|
            0 <= i < size * size ==> spec_in_bounds(#[trigger] row_major_position(i, size), size),
        forall|i: int|
            0 <= i < size * size ==> (#[trigger] row_major_position(i, size)).y * size
                + row_major_position(i, size).x == i,
        forall|p: Position|
            spec_in_bounds(p, size) ==> 0 <= p.y * size + p.x < size * size
                && row_major_position(p.y * size + p.x, size) == p,
{
    assert forall|i: int| 0 <= i < size * size implies spec_in_bounds(
        #[trigger] row_major_position(i, size),
        size,
    ) && row_major_position(i, size).y * size + row_major_position(i, size).x == i by {
        let q = i / size;
        let r = i % size;
        vstd::arithmetic::div_mod::lemma_fundamental_div_mod(i, size);
        vstd::arithmetic::div_mod::lemma_mod_bound(i, size);
        assert(0 <= q < size) by (nonlinear_arith)
            requires i == size * q + r, 0 <= r < size, 0 <= i < size * size, size >= 1,
        ;
        assert(row_major_position(i, size).x == r);
        assert(row_major_position(i, size).y == q);
        assert(q * size + r == i) by (nonlinear_arith)
            requires i == size * q + r,
        ;
    }
    assert forall|p: Position| spec_in_bounds(p, size) implies 0 <= p.y * size + p.x < size * size
        && row_major_position(p.y * size + p.x, size) == p by {
        assert(0 <= p.y * size + p.x < size * size) by (nonlinear_arith)
            requires 0 <= p.x < size, 0 <= p.y < size,
        ;
        lemma_fundamental_div_mod_converse(p.y * size + p.x, size, p.y as int, p.x as int);
    }
}

} // verus!
