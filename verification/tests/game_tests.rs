use snake_core::game::Game;
use snake_core::types::Block;

fn count(blocks: &Vec<Block>, b: Block) -> usize {
    blocks.iter().filter(|x| **x == b).count()
}

fn snake_cells(blocks: &Vec<Block>) -> usize {
    count(blocks, Block::HEAD) + count(blocks, Block::TAIL) + count(blocks, Block::BODY)
}

/// Every cell of the grid except the given free cells and the initial
/// snake cells, as a wall list.
fn walls_except(width: usize, height: usize, free: &[usize], snake: &[usize]) -> Vec<usize> {
    let mut walls = Vec::new();
    for i in 0..width * height {
        if !free.contains(&i) && !snake.contains(&i) {
            walls.push(i);
        }
    }
    walls
}

#[test]
fn new_centers_a_four_segment_snake() {
    let g = Game::new(10, 10, Vec::new());
    assert_eq!(g.snake().as_slice(), &[53, 54, 55, 56]);
    assert_eq!(g.status(), "PENDING");
    assert_eq!(g.blocks().len(), 100);
    assert_eq!(count(g.blocks(), Block::BLANK), 100);
}

#[test]
fn start_renders_the_grid() {
    let mut g = Game::new(10, 10, Vec::new());
    g.start();
    assert_eq!(g.status(), "RUNNING");
    let blocks = g.blocks();
    assert_eq!(blocks[53], Block::TAIL);
    assert_eq!(blocks[54], Block::BODY);
    assert_eq!(blocks[55], Block::BODY);
    assert_eq!(blocks[56], Block::HEAD);
    assert_eq!(count(blocks, Block::BLANK), 96);
    assert_eq!(count(blocks, Block::FOOD), 0);
}

#[test]
fn walls_render_once_per_distinct_index() {
    // The wall list may repeat an index; the grid holds one WALL cell per
    // distinct index.
    let mut g = Game::new(10, 10, vec![0, 99, 0]);
    g.start();
    let blocks = g.blocks();
    assert_eq!(blocks[0], Block::WALL);
    assert_eq!(blocks[99], Block::WALL);
    assert_eq!(count(blocks, Block::WALL), 2);
    assert_eq!(snake_cells(blocks), 4);
    assert_eq!(count(blocks, Block::FOOD), 0);
    assert_eq!(count(blocks, Block::BLANK), 94);
}

#[test]
fn plain_tick_shifts_the_body_right() {
    // Food lands on a random blank cell during the first tick. On the rare
    // attempt where it lands directly in the snake's path the tick grows the
    // body instead of shifting it; retry with a fresh game until the plain
    // move shows.
    let mut verified = false;
    for _ in 0..20 {
        let mut g = Game::new(10, 10, Vec::new());
        g.start();
        g.next_tick();
        if g.snake().len() == 4 {
            assert_eq!(g.snake().as_slice(), &[54, 55, 56, 57]);
            assert_eq!(g.status(), "RUNNING");
            assert_eq!(snake_cells(g.blocks()), 4);
            assert_eq!(count(g.blocks(), Block::FOOD), 1);
            verified = true;
            break;
        }
    }
    assert!(verified);
}

#[test]
fn tick_moves_down_after_direction_change() {
    let mut verified = false;
    for _ in 0..20 {
        let mut g = Game::new(10, 10, Vec::new());
        g.start();
        g.set_dir_bottom();
        g.next_tick();
        if g.snake().len() == 4 {
            assert_eq!(g.snake().as_slice(), &[54, 55, 56, 66]);
            assert_eq!(g.status(), "RUNNING");
            verified = true;
            break;
        }
    }
    assert!(verified);
}

#[test]
fn tick_moves_up_after_direction_change() {
    let mut verified = false;
    for _ in 0..20 {
        let mut g = Game::new(10, 10, Vec::new());
        g.start();
        g.set_dir_top();
        g.next_tick();
        if g.snake().len() == 4 {
            assert_eq!(g.snake().as_slice(), &[54, 55, 56, 46]);
            assert_eq!(g.status(), "RUNNING");
            verified = true;
            break;
        }
    }
    assert!(verified);
}

#[test]
fn reversing_into_the_body_ends_the_game() {
    // Reversing is legal input; the next tick resolves it as a
    // self-collision.
    let mut g = Game::new(10, 10, Vec::new());
    g.start();
    g.set_dir_left();
    g.next_tick();
    assert_eq!(g.status(), "OVER");
    assert_eq!(g.snake().as_slice(), &[53, 54, 55, 56]);
    // OVER is terminal: neither pause nor start leaves it.
    g.pause();
    assert_eq!(g.status(), "OVER");
    g.start();
    assert_eq!(g.status(), "OVER");
    g.next_tick();
    assert_eq!(g.status(), "OVER");
    assert_eq!(g.snake().as_slice(), &[53, 54, 55, 56]);
}

#[test]
fn leaving_the_grid_ends_the_game() {
    // 5x5 grid, snake at [10, 11, 12, 13] in the middle row. Heading down,
    // the head reaches the bottom row after two plain moves; the next move
    // would leave the grid and must end the game rather than wrap or crash.
    // Food may intervene with growth ticks, so allow a generous tick budget.
    let mut g = Game::new(5, 5, Vec::new());
    g.start();
    g.set_dir_bottom();
    let mut ticks = 0;
    while g.status() == "RUNNING" && ticks < 100 {
        g.next_tick();
        ticks += 1;
    }
    assert_eq!(g.status(), "OVER");
}

#[test]
fn pause_then_start_changes_nothing_but_status() {
    let mut g = Game::new(10, 10, vec![0, 1]);
    g.start();
    g.next_tick();
    let snake_before = g.snake().clone();
    let blocks_before = g.blocks().clone();
    g.pause();
    assert_eq!(g.status(), "PENDING");
    assert_eq!(g.snake(), &snake_before);
    assert_eq!(g.blocks(), &blocks_before);
    g.start();
    assert_eq!(g.status(), "RUNNING");
    assert_eq!(g.snake(), &snake_before);
    assert_eq!(g.blocks(), &blocks_before);
    // A paused game ignores ticks entirely.
    g.pause();
    g.next_tick();
    assert_eq!(g.status(), "PENDING");
    assert_eq!(g.snake(), &snake_before);
}

#[test]
fn growth_adds_one_segment_and_fresh_food() {
    // 9x3 grid, snake [11, 12, 13, 14] in the middle row, exactly the two
    // cells 15 and 16 left free. The first tick places food on one of them.
    // When it lands on 16, the snake shifts once, then grows onto it; the
    // replacement food is drawn from the grid rendered before the move,
    // whose only blank is the freed tail cell 11 - off the walls and off
    // the grown body. When it lands on 15 instead the growth happens on
    // the very tick that placed the food; retry for the clean case.
    let snake = [11, 12, 13, 14];
    let mut verified = false;
    for _ in 0..40 {
        let walls = walls_except(9, 3, &[15, 16], &snake);
        let mut g = Game::new(9, 3, walls);
        g.start();
        g.next_tick();
        if g.snake().len() == 4 && g.blocks()[16] == Block::FOOD {
            assert_eq!(g.snake().as_slice(), &[12, 13, 14, 15]);
            g.next_tick();
            assert_eq!(g.snake().as_slice(), &[12, 13, 14, 15, 16]);
            assert_eq!(g.status(), "RUNNING");
            assert_eq!(g.blocks()[11], Block::FOOD);
            assert_eq!(count(g.blocks(), Block::FOOD), 1);
            verified = true;
            break;
        }
    }
    assert!(verified);
}

#[test]
fn forced_growth_absorption_and_full_board() {
    // 8x3 grid, snake [10, 11, 12, 13] in the middle row, exactly one free
    // cell directly ahead of the head. Food placement is forced onto it, so
    // each tick is deterministic. The first tick grows onto the food and
    // redraws food from the stale pre-move grid, whose only blank is the
    // cell the head now occupies. The second tick finds the food under the
    // head and absorbs it as extra growth. The third tick has no blank cell
    // left to place food on: the board is full and the game ends.
    let snake = [10, 11, 12, 13];
    let walls = walls_except(8, 3, &[14], &snake);
    let mut g = Game::new(8, 3, walls);
    g.start();
    assert_eq!(count(g.blocks(), Block::BLANK), 1);

    g.next_tick();
    assert_eq!(g.snake().as_slice(), &[10, 11, 12, 13, 14]);
    assert_eq!(g.status(), "RUNNING");
    // The redrawn food sits under the new head, so no FOOD cell renders.
    assert_eq!(count(g.blocks(), Block::FOOD), 0);

    g.next_tick();
    assert_eq!(g.snake().as_slice(), &[10, 11, 12, 13, 14, 14]);
    assert_eq!(g.status(), "RUNNING");

    g.next_tick();
    assert_eq!(g.status(), "OVER");
    assert_eq!(g.snake().len(), 6);
}

#[test]
fn snake_length_never_decreases_while_running() {
    let mut g = Game::new(10, 10, Vec::new());
    g.start();
    let mut last_len = g.snake().len();
    let mut ticks = 0;
    while g.status() == "RUNNING" && ticks < 200 {
        g.next_tick();
        assert!(g.snake().len() >= last_len);
        last_len = g.snake().len();
        g.set_dir_bottom();
        ticks += 1;
    }
}

#[test]
fn status_labels() {
    let mut g = Game::new(10, 10, Vec::new());
    assert_eq!(g.status(), "PENDING");
    g.start();
    assert_eq!(g.status(), "RUNNING");
    g.pause();
    assert_eq!(g.status(), "PENDING");
}
