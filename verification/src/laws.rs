use vstd::prelude::*;

use crate::types::Block;
use crate::types::Status;
use crate::view::GameV;
use crate::view::cell_at;
use crate::view::consistent;
use crate::view::food_set;
use crate::view::food_source;
use crate::view::grid_size;
use crate::view::has_blank;
use crate::view::head_of;
use crate::view::hits;
use crate::view::is_blank_at;
use crate::view::lemma_step_fields;
use crate::view::next_head_of;
use crate::view::render_of;
use crate::view::rerender;
use crate::view::shifted;
use crate::view::spec_pause;
use crate::view::spec_start;
use crate::view::step_rel;
use crate::view::tick_rel;
use crate::view::wf;

verus! {

/// Number of cells of `s` that hold the class `b`.
pub open spec fn count_block(s: Seq<Block>, b: Block) -> nat
    decreases s.len(),
{
    if s.len() == 0 {
        0
    } else {
        count_block(s.drop_last(), b) + (if s.last() == b {
            1nat
        } else {
            0nat
        })
    }
}

/// Number of grid indices below `j` that the sequence `xs` holds.
spec fn mem_count(xs: Seq<usize>, j: int) -> nat
    decreases j,
{
    if j <= 0 {
        0
    } else {
        mem_count(xs, j - 1) + (if xs.contains((j - 1) as usize) {
            1nat
        } else {
            0nat
        })
    }
}

/// The distinct values of `xs` that lie below `j`.
spec fn below_set(xs: Seq<usize>, j: int) -> Set<usize> {
    Set::new(|u: usize| xs.contains(u) && (u as int) < j)
}

/// One rendered food cell below `j`, when food is set there.
spec fn food_count_upto(v: GameV, j: int) -> int {
    if v.food matches Some(f) && (f as int) < j {
        1int
    } else {
        0int
    }
}

proof fn lemma_below_set(xs: Seq<usize>, j: int)
    requires
        0 <= j <= usize::MAX as int,
    ensures
        below_set(xs, j).finite(),
        below_set(xs, j).len() == mem_count(xs, j),
    decreases j,
{
    broadcast use vstd::set::group_set_axioms;

    if j == 0 {
        assert(below_set(xs, 0) =~= Set::<usize>::empty());
    } else {
        lemma_below_set(xs, j - 1);
        let u = (j - 1) as usize;
        if xs.contains(u) {
            assert(below_set(xs, j) =~= below_set(xs, j - 1).insert(u));
            assert(!below_set(xs, j - 1).contains(u));
        } else {
            assert(below_set(xs, j) =~= below_set(xs, j - 1));
        }
    }
}

/// Counting the grid indices below `bound` held by `xs` counts each
/// distinct value of `xs` once, provided all of them lie below `bound`.
proof fn lemma_seq_set_card(xs: Seq<usize>, bound: int)
    requires
        0 <= bound <= usize::MAX as int,
        forall|k: int| 0 <= k < xs.len() ==> (#[trigger] xs[k]) < bound,
    ensures
        mem_count(xs, bound) == xs.to_set().len(),
{
    lemma_below_set(xs, bound);
    assert(below_set(xs, bound) =~= xs.to_set()) by {
        assert forall|u: usize| xs.to_set().contains(u) implies below_set(xs, bound).contains(
            u,
        ) by {
            let k = choose|k: int| 0 <= k < xs.len() && xs[k] == u;
            assert(xs[k] < bound);
        }
    }
}

proof fn lemma_counts_upto(v: GameV, j: int)
    requires
        wf(v),
        consistent(v),
        0 <= j <= grid_size(v),
    ensures
        count_block(render_of(v).take(j), Block::WALL) == mem_count(v.walls, j),
        count_block(render_of(v).take(j), Block::HEAD) + count_block(
            render_of(v).take(j),
            Block::TAIL,
        ) + count_block(render_of(v).take(j), Block::BODY) == mem_count(v.snake, j),
        count_block(render_of(v).take(j), Block::FOOD) == food_count_upto(v, j),
        count_block(render_of(v).take(j), Block::BLANK) == j - mem_count(v.walls, j) - mem_count(
            v.snake,
            j,
        ) - food_count_upto(v, j),
    decreases j,
{
    let s = render_of(v);
    if j == 0 {
        assert(s.take(0) =~= Seq::<Block>::empty());
    } else {
        lemma_counts_upto(v, j - 1);
        let t = s.take(j);
        let u = (j - 1) as usize;
        assert(t.drop_last() =~= s.take(j - 1));
        assert(t.last() == cell_at(v, u));
        if v.walls.contains(u) {
            if v.snake.contains(u) {
                let k = choose|k: int| 0 <= k < v.snake.len() && v.snake[k] == u;
                assert(!v.walls.contains(v.snake[k]));
            }
            assert(v.food != Some(u));
        } else if v.snake.contains(u) {
            assert(v.food != Some(u));
        }
    }
}

/// Cell-count law of the rendered grid: one `WALL` cell for each distinct
/// wall index, one `HEAD`/`TAIL`/`BODY` cell for each body segment, one
/// `FOOD` cell exactly when food is set, and blanks in the rest — for
/// every well-formed state whose body does not overlap itself or the
/// walls and whose food lies on a free cell.
pub proof fn lemma_render_counts(v: GameV)
    requires
        wf(v),
        consistent(v),
    ensures
        count_block(render_of(v), Block::WALL) == v.walls.to_set().len(),
        count_block(render_of(v), Block::HEAD) + count_block(render_of(v), Block::TAIL)
            + count_block(render_of(v), Block::BODY) == v.snake.len(),
        count_block(render_of(v), Block::FOOD) == (if v.food is Some {
            1int
        } else {
            0int
        }),
        count_block(render_of(v), Block::BLANK) == grid_size(v) - v.walls.to_set().len()
            - v.snake.len() - (if v.food is Some {
            1int
        } else {
            0int
        }),
{
    let n = grid_size(v);
    lemma_counts_upto(v, n);
    assert(render_of(v).take(n) =~= render_of(v));
    lemma_seq_set_card(v.walls, n);
    lemma_seq_set_card(v.snake, n);
    v.snake.unique_seq_to_set();
}

/// After a render, the stored cell grid is exactly the render of the
/// stored state: rendering reads nothing from the grid it replaces.
pub proof fn lemma_rerender_fixed(v: GameV)
    ensures
        rerender(v).blocks == render_of(rerender(v)),
{
    assert(render_of(rerender(v)) =~= render_of(v));
}

/// Length law: a tick never shortens the body, whatever the state.
pub proof fn lemma_tick_len_nondecreasing(pre: GameV, post: GameV)
    requires
        tick_rel(pre, post),
    ensures
        post.snake.len() >= pre.snake.len(),
{
    if pre.status == Status::RUNNING && !(pre.food is None && !has_blank(pre.blocks)) {
        let (f, mid) = choose|f: usize, mid: GameV|
            food_source(pre, f) && #[trigger] step_rel(food_set(pre, f), mid) && post == rerender(
                mid,
            );
        lemma_step_fields(food_set(pre, f), mid);
    }
}

/// Pause/start law: pausing and then starting again, with no tick in
/// between, leaves the body, the food, the heading, the dimensions and
/// the walls unchanged.
pub proof fn lemma_pause_start_stable(v: GameV)
    ensures
        spec_start(spec_pause(v)).snake == v.snake,
        spec_start(spec_pause(v)).food == v.food,
        spec_start(spec_pause(v)).direction == v.direction,
        spec_start(spec_pause(v)).width == v.width,
        spec_start(spec_pause(v)).height == v.height,
        spec_start(spec_pause(v)).walls == v.walls,
{
}

proof fn lemma_push_no_dup(s: Seq<usize>, x: usize)
    requires
        s.no_duplicates(),
        !s.contains(x),
    ensures
        s.push(x).no_duplicates(),
{
    let t = s.push(x);
    assert forall|p: int, q: int|
        0 <= p < t.len() && 0 <= q < t.len() && p != q implies t[p] != t[q] by {
        if p < s.len() && q < s.len() {
        } else if p < s.len() {
            assert(s.contains(s[p]));
        } else if q < s.len() {
            assert(s.contains(s[q]));
        }
    }
}

proof fn lemma_shifted_no_dup(s: Seq<usize>, x: usize)
    requires
        s.no_duplicates(),
        !s.contains(x),
        s.len() >= 1,
    ensures
        shifted(s, x).no_duplicates(),
        forall|k: int|
            0 <= k < shifted(s, x).len() ==> s.contains(#[trigger] shifted(s, x)[k]) || shifted(
                s,
                x,
            )[k] == x,
{
    let t = shifted(s, x);
    assert forall|p: int, q: int|
        0 <= p < t.len() && 0 <= q < t.len() && p != q implies t[p] != t[q] by {
        if p < s.len() - 1 && q < s.len() - 1 {
            assert(t[p] == s[p + 1] && t[q] == s[q + 1]);
        } else if p < s.len() - 1 {
            assert(t[p] == s[p + 1] && s.contains(s[p + 1]) && t[q] == x);
        } else if q < s.len() - 1 {
            assert(t[q] == s[q + 1] && s.contains(s[q + 1]) && t[p] == x);
        }
    }
    assert forall|k: int| 0 <= k < t.len() implies s.contains(#[trigger] t[k]) || t[k] == x by {
        if k < s.len() - 1 {
            assert(t[k] == s[k + 1] && s.contains(s[k + 1]));
        }
    }
}

/// A freshly placed food cell is fresh: when a tick that starts from a
/// consistent state with rendered, already-placed food grows the body,
/// the body grows by exactly one segment and the new food index — when
/// the board is not yet full — lies neither on a wall nor on the body.
pub proof fn lemma_grow_tick_food_fresh(pre: GameV, post: GameV)
    requires
        wf(pre),
        consistent(pre),
        pre.status == Status::RUNNING,
        pre.blocks == render_of(pre),
        pre.food is Some,
        tick_rel(pre, post),
        post.snake.len() != pre.snake.len(),
    ensures
        post.snake.len() == pre.snake.len() + 1,
        post.food matches Some(f2) ==> !post.walls.contains(f2) && !post.snake.contains(f2),
{
    let (f, mid) = choose|f: usize, mid: GameV|
        food_source(pre, f) && #[trigger] step_rel(food_set(pre, f), mid) && post == rerender(mid);
    let v = food_set(pre, f);
    assert(v == pre);
    let h = head_of(v);
    assert(v.snake.contains(h));
    assert(h != f);
    match next_head_of(v, h) {
        None => {},
        Some(nh) => {
            if nh == f {
                if has_blank(v.blocks) {
                    let f2 = choose|f2: usize|
                        is_blank_at(v.blocks, f2) && mid == (GameV {
                            snake: v.snake.push(nh),
                            food: Some(f2),
                            ..v
                        });
                    assert(mid == (GameV { snake: v.snake.push(nh), food: Some(f2), ..v }));
                    assert(render_of(pre)[f2 as int] == cell_at(pre, f2));
                    assert(cell_at(pre, f2) == Block::BLANK);
                    assert(!pre.walls.contains(f2) && !pre.snake.contains(f2) && pre.food != Some(
                        f2,
                    ));
                    assert forall|k: int|
                        0 <= k < mid.snake.len() implies #[trigger] mid.snake[k] != f2 by {
                        if k < v.snake.len() {
                            assert(v.snake.contains(v.snake[k]));
                        }
                    }
                    assert(!mid.snake.contains(f2));
                }
            }
        },
    }
}

/// Consistency is preserved across a tick: starting from a consistent
/// state whose cell grid is its own render, and whose food — when the
/// tick grows the body — was already placed before the tick, the state
/// after the tick is consistent again. (A grow tick that placed its food
/// in the same tick draws the replacement from the grid rendered before
/// either event, which may land on the new head; such a state is reached
/// again only through that coincidence.)
pub proof fn lemma_tick_preserves_consistent(pre: GameV, post: GameV)
    requires
        wf(pre),
        consistent(pre),
        pre.blocks == render_of(pre),
        tick_rel(pre, post),
        pre.food is Some || post.snake.len() == pre.snake.len(),
    ensures
        consistent(post),
{
    if pre.status != Status::RUNNING {
        assert(post == pre);
    } else if pre.food is None && !has_blank(pre.blocks) {
        assert(post == (GameV { status: Status::OVER, ..pre }));
    } else {
        let (f, mid) = choose|f: usize, mid: GameV|
            food_source(pre, f) && #[trigger] step_rel(food_set(pre, f), mid) && post == rerender(
                mid,
            );
        let v = food_set(pre, f);
        if pre.food is None {
            assert(is_blank_at(pre.blocks, f));
            assert(render_of(pre)[f as int] == cell_at(pre, f));
            assert(!pre.walls.contains(f) && !pre.snake.contains(f));
        }
        assert(consistent(v));
        let h = head_of(v);
        assert(v.snake.contains(h));
        assert(h != f);
        match next_head_of(v, h) {
            None => {
                assert(mid == (GameV { status: Status::OVER, ..v }));
            },
            Some(nh) => {
                if nh == f {
                    lemma_push_no_dup(v.snake, nh);
                    if has_blank(v.blocks) {
                        let f2 = choose|f2: usize|
                            is_blank_at(v.blocks, f2) && mid == (GameV {
                                snake: v.snake.push(nh),
                                food: Some(f2),
                                ..v
                            });
                        assert(mid == (GameV { snake: v.snake.push(nh), food: Some(f2), ..v }));
                        assert(render_of(pre)[f2 as int] == cell_at(pre, f2));
                        assert(cell_at(pre, f2) == Block::BLANK);
                        assert(!pre.walls.contains(f2) && !pre.snake.contains(f2) && pre.food
                            != Some(f2));
                        assert(pre.food is Some);
                        assert forall|k: int|
                            0 <= k < mid.snake.len() implies #[trigger] mid.snake[k] != f2 by {
                            if k < v.snake.len() {
                                assert(v.snake.contains(v.snake[k]));
                            }
                        }
                        assert(!mid.snake.contains(f2));
                        assert forall|k: int|
                            0 <= k < mid.snake.len() implies !v.walls.contains(
                            #[trigger] mid.snake[k],
                        ) by {
                            if k < v.snake.len() {
                                assert(v.snake.contains(v.snake[k]));
                            }
                        }
                    } else {
                        assert(mid == (GameV {
                            snake: v.snake.push(nh),
                            food: None,
                            status: Status::OVER,
                            ..v
                        }));
                        assert forall|k: int|
                            0 <= k < mid.snake.len() implies !v.walls.contains(
                            #[trigger] mid.snake[k],
                        ) by {
                            if k < v.snake.len() {
                                assert(v.snake.contains(v.snake[k]));
                            }
                        }
                    }
                } else if hits(v, nh) {
                    assert(mid == (GameV { status: Status::OVER, ..v }));
                } else {
                    assert(mid == (GameV { snake: shifted(v.snake, nh), ..v }));
                    lemma_shifted_no_dup(v.snake, nh);
                    assert forall|k: int|
                        0 <= k < mid.snake.len() implies !v.walls.contains(
                        #[trigger] mid.snake[k],
                    ) && mid.snake[k] != f by {
                        assert(v.snake.contains(mid.snake[k]) || mid.snake[k] == nh);
                        if v.snake.contains(mid.snake[k]) {
                            let kk = choose|kk: int|
                                0 <= kk < v.snake.len() && v.snake[kk] == mid.snake[k];
                            assert(!v.walls.contains(v.snake[kk]));
                        }
                    }
                    assert(!mid.snake.contains(f));
                }
            },
        }
        assert(consistent(mid));
        assert(post.snake == mid.snake && post.walls == mid.walls && post.food == mid.food);
    }
}

} // verus!
