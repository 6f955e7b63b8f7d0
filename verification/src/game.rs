use vstd::prelude::*;
use vstd::arithmetic::div_mod::lemma_fundamental_div_mod_converse;
use vstd::set_lib::lemma_int_range;
use vstd::set_lib::lemma_len_subset;
use vstd::set_lib::set_int_range;
use crate::rng::random_in_range;

verus! {

/// A cell of the board, addressed by column `x` and row `y`.
#[derive(Clone, Copy, PartialEq, Eq, Structural, Debug)]
pub struct Point {
    pub x: i32,
    pub y: i32,
}

/// One of the four movement directions of the snake.
#[derive(Clone, Copy, PartialEq, Eq, Structural, Debug)]
pub enum Direction {
    Up,
    Down,
    Left,
    Right,
}

/// The two opposite pairs: up/down and left/right. A snake may never turn
/// onto its opposite in a single change, which would reverse it onto itself.
pub open spec fn is_opposite(a: Direction, b: Direction) -> bool {
    ||| (a is Up && b is Down)
    ||| (a is Down && b is Up)
    ||| (a is Left && b is Right)
    ||| (a is Right && b is Left)
}

/// Strictly inside the walls: the playable cells. The walls are the cells
/// with x in {0, width-1} or y in {0, height-1} (row 0 also carries the
/// score text).
pub open spec fn in_interior(p: Point, width: int, height: int) -> bool {
    1 <= p.x < width - 1 && 1 <= p.y < height - 1
}

/// The cell the head reaches by moving one step in direction `d`.
pub open spec fn step(p: Point, d: Direction) -> Point {
    match d {
        Direction::Up => Point { x: p.x, y: (p.y - 1) as i32 },
        Direction::Down => Point { x: p.x, y: (p.y + 1) as i32 },
        Direction::Left => Point { x: (p.x - 1) as i32, y: p.y },
        Direction::Right => Point { x: (p.x + 1) as i32, y: p.y },
    }
}

/// How many cells the interior holds; the snake can never be longer.
pub open spec fn interior_cells(width: int, height: int) -> int {
    (width - 2) * (height - 2)
}

/// The whole state of one running game.
pub struct Game {
    /// Body cells, head first, tail last. Never empty, never a duplicate cell.
    pub snake: Vec<Point>,
    /// Where the head moves on the next tick.
    pub dir: Direction,
    /// The cell holding the food, always strictly inside the walls.
    pub food: Point,
    pub width: i32,
    pub height: i32,
    /// Once true, ticks no longer change anything.
    pub game_over: bool,
    /// Ten points per food eaten, so always ten times the body growth.
    pub score: usize,
}

/// Whether the body occupies cell `p`.
pub fn contains_point(v: &Vec<Point>, p: Point) -> (r: bool)
    ensures
        r == v@.contains(p),
{
    let mut i: usize = 0;
    while i < v.len()
        invariant
            0 <= i <= v@.len(),
            forall|j: int| 0 <= j < i ==> v@[j] != p,
        decreases v@.len() - i,
    {
        if v[i] == p {
            return true;
        }
        i = i + 1;
    }
    false
}

impl Game {
    /// The state invariant: sane dimensions, a non-empty body of distinct
    /// interior cells, food inside the walls, the score in step with the
    /// body's growth, and enough headroom that the score can never overflow
    /// (ten points per interior cell at most).
    pub open spec fn well_formed(self) -> bool {
        &&& 3 <= self.width
        &&& 3 <= self.height
        &&& 10 * interior_cells(self.width as int, self.height as int) <= usize::MAX as int
        &&& 1 <= self.snake@.len() <= interior_cells(self.width as int, self.height as int)
        &&& self.snake@.no_duplicates()
        &&& (forall|i: int|
            0 <= i < self.snake@.len() ==> in_interior(
                #[trigger] self.snake@[i],
                self.width as int,
                self.height as int,
            ))
        &&& in_interior(self.food, self.width as int, self.height as int)
        &&& self.score == 10 * (self.snake@.len() - 1)
    }

    /// Places a single-segment snake at the exact center of the board,
    /// direction Right, score 0, and spawns the first food. The dimensions
    /// must leave a non-empty interior, and small enough that the score
    /// cannot outgrow a `usize`.
    pub fn new(width: i32, height: i32) -> (g: Game)
        requires
            3 <= width,
            3 <= height,
            10 * interior_cells(width as int, height as int) <= usize::MAX as int,
        ensures
            g.well_formed(),
            g.width == width,
            g.height == height,
            g.snake@.len() == 1,
            g.snake@[0].x == width as int / 2,
            g.snake@[0].y == height as int / 2,
            g.dir == Direction::Right,
            g.score == 0,
            !g.game_over,
            in_interior(g.food, width as int, height as int),
    {
        let head = Point { x: width / 2, y: height / 2 };
        let g = Game {
            snake: vec![head],
            dir: Direction::Right,
            food: Game::spawn_food(width, height),
            width,
            height,
            game_over: false,
            score: 0,
        };
        proof {
            assert(1 <= interior_cells(width as int, height as int)) by (nonlinear_arith)
                requires
                    3 <= width,
                    3 <= height,
            ;
            assert(in_interior(head, width as int, height as int));
        }
        g
    }

    /// A uniformly random cell strictly inside the walls, drawn afresh each
    /// call. No check against the snake body is made: a rare overlap is
    /// accepted to keep spawning constant-time.
    pub fn spawn_food(width: i32, height: i32) -> (p: Point)
        requires
            3 <= width,
            3 <= height,
        ensures
            in_interior(p, width as int, height as int),
    {
        Point { x: random_in_range(1, width - 1), y: random_in_range(1, height - 1) }
    }

    /// Sets the direction, unless the request is the exact opposite of the
    /// current one, which is silently ignored. So the direction after the
    /// call is never the opposite of the one before, however often this is
    /// called.
    pub fn change_direction(&mut self, dir: Direction)
        ensures
            final(self).dir == (if is_opposite(old(self).dir, dir) {
                old(self).dir
            } else {
                dir
            }),
            !is_opposite(old(self).dir, final(self).dir),
            final(self).snake == old(self).snake,
            final(self).food == old(self).food,
            final(self).width == old(self).width,
            final(self).height == old(self).height,
            final(self).game_over == old(self).game_over,
            final(self).score == old(self).score,
            old(self).well_formed() ==> final(self).well_formed(),
    {
        match (self.dir, dir) {
            (Direction::Up, Direction::Down) => {},
            (Direction::Down, Direction::Up) => {},
            (Direction::Left, Direction::Right) => {},
            (Direction::Right, Direction::Left) => {},
            _ => {
                self.dir = dir;
            },
        }
    }

    /// Advances the simulation by exactly one tick.
    ///
    /// A tick after game over changes nothing. Otherwise the head moves one
    /// cell in the current direction; hitting a wall or any current body
    /// cell (the tail included, although it would be vacated this very tick:
    /// a deliberate compatibility choice) only sets `game_over`. On a safe
    /// move the new head is prepended; landing on the food keeps the tail
    /// (net growth one) and adds ten points with a fresh random food, any
    /// other move drops the tail (net length unchanged).
    pub fn update(&mut self)
        requires
            old(self).well_formed(),
        ensures
            final(self).well_formed(),
            final(self).width == old(self).width,
            final(self).height == old(self).height,
            final(self).dir == old(self).dir,
            old(self).game_over ==> *final(self) == *old(self),
            !old(self).game_over ==> ({
                let g0 = *old(self);
                let g1 = *final(self);
                let nh = step(g0.snake@[0], g0.dir);
                let w = g0.width as int;
                let h = g0.height as int;
                &&& (g1.game_over <==> !in_interior(nh, w, h) || g0.snake@.contains(nh))
                &&& (g1.game_over ==> g1.snake == g0.snake && g1.food == g0.food && g1.score
                    == g0.score)
                &&& (!g1.game_over ==> g1.snake@.len() == g0.snake@.len() + (if nh == g0.food {
                    1int
                } else {
                    0int
                }))
                &&& (!g1.game_over && nh == g0.food ==> g1.snake@ == seq![nh] + g0.snake@
                    && g1.score == g0.score + 10 && in_interior(g1.food, w, h))
                &&& (!g1.game_over && nh != g0.food ==> g1.snake@ == seq![nh]
                    + g0.snake@.drop_last() && g1.score == g0.score && g1.food == g0.food)
            }),
    {
        if self.game_over {
            return ;
        }
        let ghost g0 = *self;
        assert(in_interior(self.snake@[0], self.width as int, self.height as int));
        let head = self.snake[0];
        let new_head = match self.dir {
            Direction::Up => Point { x: head.x, y: head.y - 1 },
            Direction::Down => Point { x: head.x, y: head.y + 1 },
            Direction::Left => Point { x: head.x - 1, y: head.y },
            Direction::Right => Point { x: head.x + 1, y: head.y },
        };
        assert(new_head == step(g0.snake@[0], g0.dir));
        if new_head.x < 1 || new_head.x >= self.width - 1 || new_head.y < 1 || new_head.y
            >= self.height - 1 || contains_point(&self.snake, new_head) {
            self.game_over = true;
            return ;
        }
        let ghost grown = seq![new_head] + g0.snake@;
        proof {
            assert forall|i: int, j: int|
                0 <= i < grown.len() && 0 <= j < grown.len() && i != j implies grown[i]
                != grown[j] by {
                if i == 0 {
                    assert(g0.snake@.contains(grown[j])) by {
                        assert(grown[j] == g0.snake@[j - 1]);
                    }
                } else if j == 0 {
                    assert(g0.snake@.contains(grown[i])) by {
                        assert(grown[i] == g0.snake@[i - 1]);
                    }
                }
            }
            lemma_snake_len_bound(grown, self.width as int, self.height as int);
        }
        self.snake.insert(0, new_head);
        assert(self.snake@ =~= grown);
        if new_head == self.food {
            proof {
                assert(self.score + 10 <= 10 * interior_cells(
                    self.width as int,
                    self.height as int,
                )) by (nonlinear_arith)
                    requires
                        self.score == 10 * (self.snake@.len() - 2),
                        self.snake@.len() <= interior_cells(self.width as int, self.height as int),
                ;
            }
            self.score = self.score + 10;
            self.food = Game::spawn_food(self.width, self.height);
        } else {
            self.snake.pop();
            assert(self.snake@ =~= seq![new_head] + g0.snake@.drop_last());
        }
    }
}

/// Encodes an interior cell as a number below `interior_cells`, row by row.
spec fn cell_id(p: Point, width: int) -> int {
    (p.y - 1) * (width - 2) + (p.x - 1)
}

proof fn lemma_cell_id_bounds(p: Point, width: int, height: int)
    requires
        3 <= width,
        3 <= height,
        in_interior(p, width, height),
    ensures
        0 <= cell_id(p, width) < interior_cells(width, height),
{
    assert(0 <= (p.y - 1) * (width - 2) + (p.x - 1) < (width - 2) * (height - 2))
        by (nonlinear_arith)
        requires
            0 <= p.x - 1 < width - 2,
            0 <= p.y - 1 < height - 2,
    ;
}

proof fn lemma_cell_id_injective(p: Point, q: Point, width: int, height: int)
    requires
        3 <= width,
        3 <= height,
        in_interior(p, width, height),
        in_interior(q, width, height),
        cell_id(p, width) == cell_id(q, width),
    ensures
        p == q,
{
    lemma_fundamental_div_mod_converse(cell_id(p, width), width - 2, p.y - 1, p.x - 1);
    lemma_fundamental_div_mod_converse(cell_id(q, width), width - 2, q.y - 1, q.x - 1);
}

/// A body of distinct interior cells can hold at most one segment per
/// interior cell, which is what keeps the score far from overflowing.
pub proof fn lemma_snake_len_bound(s: Seq<Point>, width: int, height: int)
    requires
        3 <= width,
        3 <= height,
        s.no_duplicates(),
        forall|i: int| 0 <= i < s.len() ==> in_interior(#[trigger] s[i], width, height),
    ensures
        s.len() <= interior_cells(width, height),
{
    let ids = Seq::new(s.len(), |i: int| cell_id(s[i], width));
    assert forall|i: int, j: int|
        0 <= i < ids.len() && 0 <= j < ids.len() && i != j implies ids[i] != ids[j] by {
        if ids[i] == ids[j] {
            lemma_cell_id_injective(s[i], s[j], width, height);
        }
    }
    ids.unique_seq_to_set();
    let range = set_int_range(0, interior_cells(width, height));
    assert(0 <= interior_cells(width, height)) by (nonlinear_arith)
        requires
            3 <= width,
            3 <= height,
    ;
    lemma_int_range(0, interior_cells(width, height));
    assert forall|k: int| ids.to_set().contains(k) implies range.contains(k) by {
        let i = choose|i: int| 0 <= i < ids.len() && ids[i] == k;
        lemma_cell_id_bounds(s[i], width, height);
    }
    lemma_len_subset(ids.to_set(), range);
}

} // verus!
