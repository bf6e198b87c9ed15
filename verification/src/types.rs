use vstd::prelude::*;

verus! {

/// Display classification of one grid cell. The cell grid is derived data,
/// recomputed from the authoritative state on every tick; it is never
/// authoritative itself.
#[derive(Clone, Copy, Debug, PartialEq, Eq, Structural)]
pub enum Block {
    HEAD,
    TAIL,
    BODY,
    FOOD,
    WALL,
    BLANK,
}

/// Direction of travel of the snake's head, changed only by explicit
/// driver request.
#[derive(Clone, Copy, Debug, PartialEq, Eq, Structural)]
pub enum Direction {
    TOP,
    RIGHT,
    BOTTOM,
    LEFT,
}

/// Run status of the simulation. `PENDING` is the initial and paused state,
/// in which ticks are no-ops; `OVER` is terminal.
#[derive(Clone, Copy, Debug, PartialEq, Eq, Structural)]
pub enum Status {
    PENDING,
    RUNNING,
    OVER,
}

} // verus!
