use vstd::prelude::*;

use crate::types::Block;
use crate::types::Direction;
use crate::types::Status;

verus! {

/// Mathematical model of a `Game`: the authoritative state with sequences
/// in place of vectors. All contracts of the library are stated over this
/// view.
pub struct GameV {
    pub width: usize,
    pub height: usize,
    /// Derived cell grid as of the last render; display data only.
    pub blocks: Seq<Block>,
    /// Snake body as linear indices, tail first, head last.
    pub snake: Seq<usize>,
    /// Wall cells as linear indices, fixed at construction.
    pub walls: Seq<usize>,
    /// Current food cell; `None` only between being eaten and respawned.
    pub food: Option<usize>,
    pub direction: Direction,
    pub status: Status,
}

/// Number of cells of the grid.
pub open spec fn grid_size(v: GameV) -> int {
    (v.width as int) * (v.height as int)
}

/// Basic well-formedness: dimensions large enough for the initial snake,
/// every stored index within the grid, and the derived grid of full length.
pub open spec fn wf(v: GameV) -> bool {
    &&& 4 <= v.width
    &&& 1 <= v.height
    &&& grid_size(v) <= usize::MAX as int
    &&& v.blocks.len() == grid_size(v)
    &&& v.snake.len() >= 1
    &&& forall|k: int| 0 <= k < v.snake.len() ==> (#[trigger] v.snake[k]) < grid_size(v)
    &&& forall|k: int| 0 <= k < v.walls.len() ==> (#[trigger] v.walls[k]) < grid_size(v)
    &&& (v.food matches Some(f) ==> f < grid_size(v))
}

/// The stronger invariant of ordinary play: the body never overlaps itself
/// or a wall, and food lies on a free cell. It holds of every constructed
/// game and is preserved by every tick that starts from a state whose food
/// was already placed when the grid was last rendered (see
/// `crate::laws::lemma_tick_preserves_consistent`).
pub open spec fn consistent(v: GameV) -> bool {
    &&& v.snake.no_duplicates()
    &&& forall|k: int| 0 <= k < v.snake.len() ==> !v.walls.contains(#[trigger] v.snake[k])
    &&& (v.food matches Some(f) ==> !v.walls.contains(f) && !v.snake.contains(f))
}

/// Index of the head: the last element of the body.
pub open spec fn head_of(v: GameV) -> usize {
    v.snake[v.snake.len() - 1]
}

/// Display classification of cell `i`, derived from the authoritative
/// state: walls win, then the snake (tail first, head last, body between),
/// then food, and everything else is blank.
pub open spec fn cell_at(v: GameV, i: usize) -> Block {
    if v.walls.contains(i) {
        Block::WALL
    } else if v.snake.contains(i) {
        if i == v.snake[0] {
            Block::TAIL
        } else if i == v.snake[v.snake.len() - 1] {
            Block::HEAD
        } else {
            Block::BODY
        }
    } else if v.food == Some(i) {
        Block::FOOD
    } else {
        Block::BLANK
    }
}

/// The full derived cell grid, row-major.
pub open spec fn render_of(v: GameV) -> Seq<Block> {
    Seq::new(grid_size(v) as nat, |i: int| cell_at(v, i as usize))
}

/// The state with its cell grid recomputed.
pub open spec fn rerender(v: GameV) -> GameV {
    GameV { blocks: render_of(v), ..v }
}

/// Cell `i` was blank when `blocks` was rendered.
pub open spec fn is_blank_at(blocks: Seq<Block>, i: usize) -> bool {
    i < blocks.len() && blocks[i as int] == Block::BLANK
}

/// Some cell was blank when `blocks` was rendered.
pub open spec fn has_blank(blocks: Seq<Block>) -> bool {
    exists|i: usize| is_blank_at(blocks, i)
}

/// Linear index of the cell one step from `h` in the current heading, or
/// `None` when that step leaves the grid. Leaving the grid is treated as a
/// collision with an implicit boundary wall; there is no wraparound.
pub open spec fn next_head_of(v: GameV, h: usize) -> Option<usize> {
    let x = (h as int) % (v.width as int);
    let y = (h as int) / (v.width as int);
    match v.direction {
        Direction::TOP => if y <= 0 {
            None
        } else {
            Some((h - v.width) as usize)
        },
        Direction::BOTTOM => if y + 1 >= v.height as int {
            None
        } else {
            Some((h + v.width) as usize)
        },
        Direction::LEFT => if x <= 0 {
            None
        } else {
            Some((h - 1) as usize)
        },
        Direction::RIGHT => if x + 1 >= v.width as int {
            None
        } else {
            Some((h + 1) as usize)
        },
    }
}

/// Moving the head onto `i` is a collision: a wall cell, or a cell the body
/// currently occupies — the tail cell included, matching a rendered-cell
/// check against `WALL`, `BODY` and `TAIL`.
pub open spec fn hits(v: GameV, i: usize) -> bool {
    v.walls.contains(i) || v.snake.contains(i)
}

/// The body after an ordinary move: every segment takes the position of its
/// successor and the head takes `nh`; the length is unchanged.
pub open spec fn shifted(s: Seq<usize>, nh: usize) -> Seq<usize> {
    s.skip(1).push(nh)
}

/// The state `v` with its food replaced by `f`.
pub open spec fn food_set(v: GameV, f: usize) -> GameV {
    GameV { food: Some(f), ..v }
}

/// `f` is the food a running tick works with: the food already on the
/// board, or — when none is set — a freshly drawn cell that was blank at
/// the last render.
pub open spec fn food_source(pre: GameV, f: usize) -> bool {
    match pre.food {
        Some(g) => f == g,
        None => is_blank_at(pre.blocks, f),
    }
}

/// The snake update of one tick, before the final render: `v` is the state
/// with food in place, `mid` the state after the move. The cell grid of
/// `mid` is still the one of `v`.
pub open spec fn step_rel(v: GameV, mid: GameV) -> bool {
    let h = head_of(v);
    let f = v.food->Some_0;
    if h == f {
        // The head already sits on the food: absorb it as extra growth and
        // clear the food slot.
        mid == GameV { snake: v.snake.push(f), food: None, ..v }
    } else {
        match next_head_of(v, h) {
            None => mid == GameV { status: Status::OVER, ..v },
            Some(nh) => if hits(v, nh) {
                mid == GameV { status: Status::OVER, ..v }
            } else if nh == f {
                grow_rel(v, nh, mid)
            } else {
                mid == GameV { snake: shifted(v.snake, nh), ..v }
            },
        }
    }
}

/// A growth step: the head advances onto the food and the body keeps its
/// tail, then a new food cell is drawn among the cells that were blank at
/// the last render. When no such cell is left the board is full and the
/// game ends.
pub open spec fn grow_rel(v: GameV, nh: usize, mid: GameV) -> bool {
    let grown = v.snake.push(nh);
    if has_blank(v.blocks) {
        exists|f2: usize|
            is_blank_at(v.blocks, f2) && mid == (GameV { snake: grown, food: Some(f2), ..v })
    } else {
        mid == (GameV { snake: grown, food: None, status: Status::OVER, ..v })
    }
}

/// The full transition of one `next_tick` call. Ticks outside the
/// `RUNNING` state change nothing. A running tick first settles the food
/// (ending the game when no blank cell is left to place it on), then moves
/// the snake by `step_rel`, then recomputes the cell grid.
pub open spec fn tick_rel(pre: GameV, post: GameV) -> bool {
    if pre.status != Status::RUNNING {
        post == pre
    } else if pre.food is None && !has_blank(pre.blocks) {
        post == (GameV { status: Status::OVER, ..pre })
    } else {
        exists|f: usize, mid: GameV|
            food_source(pre, f) && #[trigger] step_rel(food_set(pre, f), mid) && post == rerender(
                mid,
            )
    }
}

/// The initial body: four segments centered on the grid, head last,
/// heading right.
pub open spec fn init_snake(width: usize, height: usize) -> Seq<usize> {
    let c = (width as int) / 2 + ((height as int) / 2) * (width as int);
    seq![(c - 2) as usize, (c - 1) as usize, c as usize, (c + 1) as usize]
}

/// The freshly constructed state: initial snake, the given walls, no food,
/// heading right, status `PENDING`, and an all-blank cell grid.
pub open spec fn spec_new(width: usize, height: usize, walls: Seq<usize>) -> GameV {
    GameV {
        width,
        height,
        blocks: Seq::new(((width as int) * (height as int)) as nat, |i: int| Block::BLANK),
        snake: init_snake(width, height),
        walls,
        food: None,
        direction: Direction::RIGHT,
        status: Status::PENDING,
    }
}

/// The state after `pause`: only the status changes. `OVER` is terminal:
/// a finished game cannot be paused back to `PENDING`.
pub open spec fn spec_pause(v: GameV) -> GameV {
    if v.status == Status::OVER {
        v
    } else {
        GameV { status: Status::PENDING, ..v }
    }
}

/// The state after `start`: the status becomes `RUNNING` and the cell grid
/// is recomputed. `OVER` is terminal: a finished game cannot be restarted,
/// a new session needs a new game.
pub open spec fn spec_start(v: GameV) -> GameV {
    if v.status == Status::OVER {
        v
    } else {
        rerender(GameV { status: Status::RUNNING, ..v })
    }
}

/// Every snake step keeps the grid dimensions, the walls, the heading and
/// the (not yet recomputed) cell grid, never shortens the body, and either
/// keeps the status or ends the game.
pub proof fn lemma_step_fields(v: GameV, mid: GameV)
    requires
        step_rel(v, mid),
    ensures
        mid.width == v.width,
        mid.height == v.height,
        mid.walls == v.walls,
        mid.blocks == v.blocks,
        mid.direction == v.direction,
        mid.snake.len() >= v.snake.len(),
        mid.status == v.status || mid.status == Status::OVER,
{
    let h = head_of(v);
    let f = v.food->Some_0;
    if h != f {
        match next_head_of(v, h) {
            None => {},
            Some(nh) => {
                if !hits(v, nh) && nh == f && has_blank(v.blocks) {
                    let f2 = choose|f2: usize|
                        is_blank_at(v.blocks, f2) && mid == (GameV {
                            snake: v.snake.push(nh),
                            food: Some(f2),
                            ..v
                        });
                    assert(mid == (GameV { snake: v.snake.push(nh), food: Some(f2), ..v }));
                }
            },
        }
    }
}

/// The label reported for each status.
pub open spec fn status_label(s: Status) -> Seq<char> {
    match s {
        Status::PENDING => "PENDING"@,
        Status::RUNNING => "RUNNING"@,
        Status::OVER => "OVER"@,
    }
}

} // verus!
