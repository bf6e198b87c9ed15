use vstd::prelude::*;
use vstd::string::StringExecFns;

use crate::rng::random_below;
use crate::types::Block;
use crate::types::Direction;
use crate::types::Status;
use crate::view::GameV;
use crate::view::cell_at;
use crate::view::consistent;
use crate::view::food_set;
use crate::view::food_source;
use crate::view::grid_size;
use crate::view::grow_rel;
use crate::view::has_blank;
use crate::view::init_snake;
use crate::view::is_blank_at;
use crate::view::lemma_step_fields;
use crate::view::next_head_of;
use crate::view::render_of;
use crate::view::rerender;
use crate::view::shifted;
use crate::view::spec_new;
use crate::view::spec_pause;
use crate::view::spec_start;
use crate::view::status_label;
use crate::view::step_rel;
use crate::view::tick_rel;
use crate::view::wf;

verus! {

/// A cell index `y * w + x` of a coordinate pair on a `w` by `h` grid lies
/// within the grid.
proof fn lemma_xy_index(x: int, y: int, w: int, h: int)
    requires
        0 <= x < w,
        0 <= y < h,
    ensures
        0 <= y * w + x < w * h,
{
    assert(0 <= y * w + x < w * h) by (nonlinear_arith)
        requires
            0 <= x < w,
            0 <= y < h,
    {}
}

/// Splitting a cell index `i` of a `w` by `h` grid into coordinates stays
/// within the grid.
proof fn lemma_pos_bounds(i: int, w: int, h: int)
    requires
        0 < w,
        0 <= i < w * h,
    ensures
        0 <= i % w < w,
        0 <= i / w < h,
        i == (i / w) * w + i % w,
{
    vstd::arithmetic::div_mod::lemma_fundamental_div_mod(i, w);
    vstd::arithmetic::div_mod::lemma_mod_division_less_than_divisor(i, w);
    let q = i / w;
    let r = i % w;
    assert(w * q == q * w) by (nonlinear_arith);
    assert(q < h) by (nonlinear_arith)
        requires
            0 < w,
            0 <= r,
            w * q + r < w * h,
    {}
}

/// True exactly when `v` holds `x`.
fn vec_has(v: &Vec<usize>, x: usize) -> (b: bool)
    ensures
        b == v@.contains(x),
{
    let mut k: usize = 0;
    while k < v.len()
        invariant
            k <= v@.len(),
            forall|j: int| 0 <= j < k ==> v@[j] != x,
        decreases v@.len() - k,
    {
        if v[k] == x {
            return true;
        }
        k += 1;
    }
    false
}

/// The grid simulation: the snake game's authoritative state together with
/// its transition rules. The derived cell grid is recomputed from the
/// other fields on every running tick and is never authoritative.
pub struct Game {
    width: usize,
    height: usize,
    blocks: Vec<Block>,
    snake: Vec<usize>,
    walls: Vec<usize>,
    food: Option<usize>,
    direction: Direction,
    status: Status,
}

impl View for Game {
    type V = GameV;

    closed spec fn view(&self) -> GameV {
        GameV {
            width: self.width,
            height: self.height,
            blocks: self.blocks@,
            snake: self.snake@,
            walls: self.walls@,
            food: self.food,
            direction: self.direction,
            status: self.status,
        }
    }
}

impl Game {
    /// Builds a fresh game: a four-segment snake centered on the grid and
    /// heading right, the given wall layout, no food, an all-blank cell
    /// grid, and status `PENDING`. The walls are linear cell indices; they
    /// must lie on the grid and keep clear of the initial snake.
    pub fn new(width: usize, height: usize, walls: Vec<usize>) -> (g: Game)
        requires
            4 <= width,
            1 <= height,
            (width as int) * (height as int) <= usize::MAX as int,
            forall|k: int|
                0 <= k < walls@.len() ==> (#[trigger] walls@[k]) < (width as int) * (height as int),
            forall|k: int|
                0 <= k < walls@.len() ==> !init_snake(width, height).contains(#[trigger] walls@[k]),
        ensures
            g@ == spec_new(width, height, walls@),
            wf(g@),
            consistent(g@),
    {
        let cx = width / 2;
        let cy = height / 2;
        proof {
            vstd::arithmetic::div_mod::lemma_fundamental_div_mod(width as int, 2);
            vstd::arithmetic::div_mod::lemma_mod_division_less_than_divisor(width as int, 2);
            vstd::arithmetic::div_mod::lemma_fundamental_div_mod(height as int, 2);
            vstd::arithmetic::div_mod::lemma_mod_division_less_than_divisor(height as int, 2);
            assert(2 <= cx && cx + 2 <= width);
            assert(cy + 1 <= height);
            assert(cy * width + cx + 1 < width * height) by (nonlinear_arith)
                requires
                    cx + 2 <= width,
                    cy + 1 <= height as int,
                    0 <= cy,
                    4 <= width,
            {}
            assert(0 <= cy * width) by (nonlinear_arith)
                requires
                    0 <= cy,
                    0 < width,
            {}
        }
        let c = cx + cy * width;
        let mut snake: Vec<usize> = Vec::new();
        snake.push(c - 2);
        snake.push(c - 1);
        snake.push(c);
        snake.push(c + 1);
        let n = width * height;
        let mut blocks: Vec<Block> = Vec::new();
        let mut i: usize = 0;
        while i < n
            invariant
                i <= n,
                blocks@.len() == i,
                forall|j: int| 0 <= j < i ==> blocks@[j] == Block::BLANK,
            decreases n - i,
        {
            blocks.push(Block::BLANK);
            i += 1;
        }
        let g = Game {
            width,
            height,
            blocks,
            snake,
            walls,
            food: None,
            direction: Direction::RIGHT,
            status: Status::PENDING,
        };
        proof {
            assert(g@.snake =~= init_snake(width, height));
            assert(g@.blocks =~= spec_new(width, height, g@.walls).blocks);
            assert(g@ == spec_new(width, height, g@.walls));
            assert(g@.snake.no_duplicates());
        }
        g
    }

    /// Linear row-major index of the coordinate pair `(x, y)`.
    fn get_index(&self, x: usize, y: usize) -> (r: usize)
        requires
            wf(self@),
            x < self@.width,
            y < self@.height,
        ensures
            r == y * self@.width + x,
            r < grid_size(self@),
    {
        proof {
            lemma_xy_index(x as int, y as int, self@.width as int, self@.height as int);
        }
        y * self.width + x
    }

    /// Coordinate pair of the linear index `i`.
    fn get_pos(&self, i: usize) -> (r: (usize, usize))
        requires
            wf(self@),
            i < grid_size(self@),
        ensures
            r.0 == (i as int) % (self@.width as int),
            r.1 == (i as int) / (self@.width as int),
            r.0 < self@.width,
            r.1 < self@.height,
            i == r.1 * self@.width + r.0,
    {
        proof {
            lemma_pos_bounds(i as int, self@.width as int, self@.height as int);
        }
        (i % self.width, i / self.width)
    }

    /// Index of the cell one step from `h` in the current heading, or
    /// `None` when that step would leave the grid. The unsigned coordinate
    /// underflow a naive edge move would cause is replaced by this explicit
    /// boundary answer, which `update_snake` treats as a collision with an
    /// implicit boundary wall.
    fn head_next_pos(&self, h: usize) -> (r: Option<usize>)
        requires
            wf(self@),
            h < grid_size(self@),
        ensures
            r == next_head_of(self@, h),
            r matches Some(nh) ==> nh < grid_size(self@),
    {
        let (x, y) = self.get_pos(h);
        proof {
            let wd = self@.width as int;
            assert((y as int - 1) * wd == (y as int) * wd - wd) by (nonlinear_arith);
            assert((y as int + 1) * wd == (y as int) * wd + wd) by (nonlinear_arith);
        }
        match self.direction {
            Direction::TOP => if y == 0 {
                None
            } else {
                Some(self.get_index(x, y - 1))
            },
            Direction::BOTTOM => if y + 1 >= self.height {
                None
            } else {
                Some(self.get_index(x, y + 1))
            },
            Direction::LEFT => if x == 0 {
                None
            } else {
                Some(self.get_index(x - 1, y))
            },
            Direction::RIGHT => if x + 1 >= self.width {
                None
            } else {
                Some(self.get_index(x + 1, y))
            },
        }
    }

    /// Display class of cell `i`, read from the authoritative state.
    fn classify(&self, i: usize) -> (b: Block)
        requires
            wf(self@),
            i < grid_size(self@),
        ensures
            b == cell_at(self@, i),
    {
        if vec_has(&self.walls, i) {
            Block::WALL
        } else if vec_has(&self.snake, i) {
            if i == self.snake[0] {
                Block::TAIL
            } else if i == self.snake[self.snake.len() - 1] {
                Block::HEAD
            } else {
                Block::BODY
            }
        } else {
            match self.food {
                Some(f) => if f == i {
                    Block::FOOD
                } else {
                    Block::BLANK
                },
                None => Block::BLANK,
            }
        }
    }

    /// Recomputes the derived cell grid from the authoritative state.
    fn render(&mut self)
        requires
            wf(old(self)@),
        ensures
            final(self)@ == rerender(old(self)@),
            wf(final(self)@),
    {
        let n = self.width * self.height;
        let mut out: Vec<Block> = Vec::new();
        let mut i: usize = 0;
        while i < n
            invariant
                wf(self@),
                self@ == old(self)@,
                n == grid_size(self@),
                i <= n,
                out@.len() == i,
                forall|j: int| 0 <= j < i ==> out@[j] == cell_at(self@, j as usize),
            decreases n - i,
        {
            let b = self.classify(i);
            out.push(b);
            i += 1;
        }
        self.blocks = out;
        proof {
            assert(self@.blocks =~= render_of(old(self)@));
            assert(self@ == rerender(old(self)@));
        }
    }

    /// Draws a new food cell among the cells that were blank at the last
    /// render, or reports that none is left. Which blank cell comes back
    /// is up to the random source; everything downstream holds for every
    /// choice.
    fn gen_food(&mut self) -> (ok: bool)
        requires
            wf(old(self)@),
        ensures
            ok == has_blank(old(self)@.blocks),
            ok ==> exists|f: usize|
                is_blank_at(old(self)@.blocks, f) && final(self)@ == food_set(old(self)@, f),
            !ok ==> final(self)@ == old(self)@,
            wf(final(self)@),
    {
        let mut blank_blocks: Vec<usize> = Vec::new();
        let n = self.blocks.len();
        let mut i: usize = 0;
        while i < n
            invariant
                self@ == old(self)@,
                n == self@.blocks.len(),
                i <= n,
                forall|k: int|
                    0 <= k < blank_blocks@.len() ==> is_blank_at(
                        self@.blocks,
                        #[trigger] blank_blocks@[k],
                    ),
                forall|j: int|
                    0 <= j < i ==> (#[trigger] self@.blocks[j] == Block::BLANK
                        ==> blank_blocks@.contains(j as usize)),
            decreases n - i,
        {
            let b = self.blocks[i];
            let ghost seen = blank_blocks@;
            if b == Block::BLANK {
                blank_blocks.push(i);
            }
            proof {
                assert forall|j: int|
                    0 <= j < i + 1 && #[trigger] self@.blocks[j]
                        == Block::BLANK implies blank_blocks@.contains(j as usize) by {
                    if j < i {
                        let k = choose|k: int| 0 <= k < seen.len() && seen[k] == j as usize;
                        assert(blank_blocks@[k] == j as usize);
                    } else {
                        assert(blank_blocks@[blank_blocks@.len() - 1] == i);
                    }
                }
            }
            i += 1;
        }
        if blank_blocks.len() == 0 {
            proof {
                if has_blank(old(self)@.blocks) {
                    let w = choose|f: usize| is_blank_at(old(self)@.blocks, f);
                    assert(self@.blocks[w as int] == Block::BLANK);
                    assert(blank_blocks@.contains(w));
                }
            }
            false
        } else {
            let r = random_below(blank_blocks.len());
            let f = blank_blocks[r];
            self.food = Some(f);
            proof {
                assert(is_blank_at(old(self)@.blocks, f));
                assert(final(self)@ == food_set(old(self)@, f));
                assert(is_blank_at(old(self)@.blocks, blank_blocks@[0]));
            }
            true
        }
    }

    /// Moves the snake by one step, the cell grid untouched: food under
    /// the head is absorbed as extra growth; a boundary or a wall or body
    /// cell one step ahead ends the game; food one step ahead grows the
    /// body onto it and draws fresh food; and otherwise every segment
    /// shifts forward by one cell.
    fn update_snake(&mut self)
        requires
            wf(old(self)@),
            old(self)@.status == Status::RUNNING,
            old(self)@.food is Some,
        ensures
            step_rel(old(self)@, final(self)@),
            wf(final(self)@),
    {
        let h = self.snake[self.snake.len() - 1];
        let f = self.food.unwrap();
        if h == f {
            self.snake.push(f);
            self.food = None;
        } else {
            match self.head_next_pos(h) {
                None => {
                    self.status = Status::OVER;
                },
                Some(nh) => {
                    let hit_wall = vec_has(&self.walls, nh);
                    let hit_body = vec_has(&self.snake, nh);
                    if hit_wall || hit_body {
                        self.status = Status::OVER;
                    } else if nh == f {
                        self.snake.push(nh);
                        self.food = None;
                        let ghost grown = self@;
                        let ok = self.gen_food();
                        if !ok {
                            self.status = Status::OVER;
                        }
                        proof {
                            if ok {
                                let f2 = choose|f2: usize|
                                    is_blank_at(grown.blocks, f2) && self@ == food_set(grown, f2);
                                assert(is_blank_at(old(self)@.blocks, f2) && self@ == (GameV {
                                    snake: old(self)@.snake.push(nh),
                                    food: Some(f2),
                                    ..old(self)@
                                }));
                                assert(grow_rel(old(self)@, nh, self@));
                            } else {
                                assert(grow_rel(old(self)@, nh, self@));
                            }
                        }
                    } else {
                        let len = self.snake.len();
                        let mut next_snake: Vec<usize> = Vec::new();
                        let mut k: usize = 0;
                        while k < len
                            invariant
                                self@ == old(self)@,
                                len == self@.snake.len(),
                                1 <= len,
                                k <= len,
                                nh < grid_size(self@),
                                next_snake@.len() == k,
                                forall|j: int|
                                    0 <= j < k ==> next_snake@[j] == shifted(self@.snake, nh)[j],
                            decreases len - k,
                        {
                            if k == len - 1 {
                                next_snake.push(nh);
                            } else {
                                let seg = self.snake[k + 1];
                                next_snake.push(seg);
                            }
                            k += 1;
                        }
                        self.snake = next_snake;
                        proof {
                            assert(self@.snake =~= shifted(old(self)@.snake, nh));
                            assert(self@ == (GameV {
                                snake: shifted(old(self)@.snake, nh),
                                ..old(self)@
                            }));
                        }
                    }
                },
            }
        }
    }

    /// Advances the simulation by one step; outside the `RUNNING` state
    /// nothing changes. A running tick first places food if none is set —
    /// when no blank cell is left to place it on, the board is full and
    /// the game ends — then moves the snake and recomputes the cell grid.
    /// The body never shrinks while the game runs.
    pub fn next_tick(&mut self)
        requires
            wf(old(self)@),
        ensures
            tick_rel(old(self)@, final(self)@),
            wf(final(self)@),
            final(self)@.width == old(self)@.width,
            final(self)@.height == old(self)@.height,
            final(self)@.walls == old(self)@.walls,
            old(self)@.status == Status::RUNNING ==> final(self)@.snake.len()
                >= old(self)@.snake.len(),
            old(self)@.status == Status::RUNNING ==> (final(self)@.status == Status::RUNNING
                || final(self)@.status == Status::OVER),
            old(self)@.status != Status::RUNNING ==> final(self)@ == old(self)@,
    {
        match self.status {
            Status::RUNNING => {
                if self.food.is_none() {
                    let ok = self.gen_food();
                    if !ok {
                        self.status = Status::OVER;
                        proof {
                            assert(final(self)@ == (GameV { status: Status::OVER, ..old(self)@ }));
                        }
                        return;
                    }
                }
                let ghost pre = old(self)@;
                let ghost v = self@;
                self.update_snake();
                let ghost mid = self@;
                self.render();
                proof {
                    let f = v.food->Some_0;
                    assert(v == food_set(pre, f));
                    assert(food_source(pre, f));
                    assert(step_rel(food_set(pre, f), mid));
                    assert(final(self)@ == rerender(mid));
                    lemma_step_fields(v, mid);
                }
            },
            _ => {},
        }
    }

    /// Suspends the game: ticks become no-ops until `start` is called
    /// again. This is a reversible pause, not a terminal state; a finished
    /// game, however, stays `OVER`.
    pub fn pause(&mut self)
        ensures
            final(self)@ == spec_pause(old(self)@),
    {
        match self.status {
            Status::OVER => {},
            _ => {
                self.status = Status::PENDING;
            },
        }
    }

    /// Starts (or resumes) the game and renders the cell grid. A finished
    /// game stays `OVER`: a new session needs a new `Game`.
    pub fn start(&mut self)
        requires
            wf(old(self)@),
        ensures
            final(self)@ == spec_start(old(self)@),
            wf(final(self)@),
    {
        match self.status {
            Status::OVER => {},
            _ => {
                self.status = Status::RUNNING;
                self.render();
            },
        }
    }

    /// Sets the heading unconditionally; reversing into the body is legal
    /// input and resolves as a self-collision on the next tick.
    fn set_dir(&mut self, next_direction: Direction)
        ensures
            final(self)@ == (GameV { direction: next_direction, ..old(self)@ }),
    {
        self.direction = next_direction;
    }

    /// Requests upward travel from the next tick on.
    pub fn set_dir_top(&mut self)
        ensures
            final(self)@ == (GameV { direction: Direction::TOP, ..old(self)@ }),
    {
        self.set_dir(Direction::TOP);
    }

    /// Requests rightward travel from the next tick on.
    pub fn set_dir_right(&mut self)
        ensures
            final(self)@ == (GameV { direction: Direction::RIGHT, ..old(self)@ }),
    {
        self.set_dir(Direction::RIGHT);
    }

    /// Requests downward travel from the next tick on.
    pub fn set_dir_bottom(&mut self)
        ensures
            final(self)@ == (GameV { direction: Direction::BOTTOM, ..old(self)@ }),
    {
        self.set_dir(Direction::BOTTOM);
    }

    /// Requests leftward travel from the next tick on.
    pub fn set_dir_left(&mut self)
        ensures
            final(self)@ == (GameV { direction: Direction::LEFT, ..old(self)@ }),
    {
        self.set_dir(Direction::LEFT);
    }

    /// Read-only snapshot of the derived cell grid, row-major.
    pub fn blocks(&self) -> (r: &Vec<Block>)
        ensures
            r@ == self@.blocks,
    {
        &self.blocks
    }

    /// Read-only view of the snake body, tail first, head last.
    pub fn snake(&self) -> (r: &Vec<usize>)
        ensures
            r@ == self@.snake,
    {
        &self.snake
    }

    /// The current status label: `"PENDING"`, `"RUNNING"` or `"OVER"`.
    pub fn status(&self) -> (r: String)
        ensures
            r@ == status_label(self@.status),
    {
        match self.status {
            Status::OVER => String::from_str("OVER"),
            Status::RUNNING => String::from_str("RUNNING"),
            Status::PENDING => String::from_str("PENDING"),
        }
    }
}

} // verus!
