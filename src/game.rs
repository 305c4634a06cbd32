//! The state of one game: the snake, its food, its heading and score, and the
//! clock that turns elapsed time into grid steps.

use crate::grid::{in_grid, next_cell, next_head};
use rand::rngs::StdRng;
use rand::Rng;
use vstd::prelude::*;

verus! {

/// rand's seedable standard generator, carried through the game unopened.
#[verifier::external_type_specification]
#[verifier::external_body]
pub struct ExStdRng(StdRng);

/// Relies on rand's `Rng::random_range`: an index drawn from `0..n`. It
/// panics on an empty range, which `requires` leaves out.
#[verifier::external_body]
fn random_below(rng: &mut StdRng, n: usize) -> (r: usize)
    requires
        n > 0,
    ensures
        r < n,
{
    rng.random_range(0..n)
}

/// Column of the snake's single cell at the start of a game.
pub const START_X: i32 = 10;

/// Row of the snake's single cell at the start of a game.
pub const START_Y: i32 = 10;

/// Column of the food at the start of a game.
pub const FOOD_X: i32 = 15;

/// Row of the food at the start of a game.
pub const FOOD_Y: i32 = 15;

/// Time between two grid steps, in microseconds.
pub const MOVE_INTERVAL_US: u64 = 75_000;

/// A direction the player can steer the snake in.
#[derive(Clone, Copy, Debug, PartialEq, Eq)]
pub enum Heading {
    Up,
    Down,
    Left,
    Right,
}

/// The unit step that a heading stands for; rows grow downwards.
pub open spec fn heading_vector(h: Heading) -> (i32, i32) {
    match h {
        Heading::Up => (0i32, -1i32),
        Heading::Down => (0i32, 1i32),
        Heading::Left => (-1i32, 0i32),
        Heading::Right => (1i32, 0i32),
    }
}

/// A key press as the game sees it.
#[derive(Clone, Copy, Debug, PartialEq, Eq)]
pub enum Key {
    Up,
    Down,
    Left,
    Right,
    Restart,
    Other,
}

/// Whether food may be placed on `cell`: any column, any row but the first.
pub open spec fn in_food_region(cell: (i32, i32), width: int, height: int) -> bool {
    0 <= cell.0 < width && 1 <= cell.1 < height
}

/// One game of snake on a grid whose edges meet.
///
/// The head of the snake is the last cell of `snake`, its tail the first.
/// `dir` is `(0, 0)` until the player first picks a heading. `move_timer`
/// and `move_interval` count microseconds. `rng` is the source that new
/// food cells are drawn from.
pub struct SnakeGame {
    pub snake: Vec<(i32, i32)>,
    pub apple: (i32, i32),
    pub dir: (i32, i32),
    pub grid_size: i32,
    pub grid_count_x: i32,
    pub grid_count_y: i32,
    pub score: u64,
    pub game_over: bool,
    pub move_timer: u64,
    pub move_interval: u64,
    pub rng: StdRng,
}

/// The cell at position `i` of the food region, read row by row starting
/// from the second row.
pub open spec fn food_region_cell(i: int, width: int) -> (i32, i32) {
    ((i % width) as i32, (i / width + 1) as i32)
}

/// The cells of the food region, row by row.
pub open spec fn food_region(width: int, height: int) -> Seq<(i32, i32)> {
    Seq::new((width * (height - 1)) as nat, |i: int| food_region_cell(i, width))
}

/// Whether food may go to a cell: in the food region and not occupied.
pub open spec fn is_free_food_cell(occupied: Seq<(i32, i32)>, width: int, height: int) -> spec_fn((i32, i32)) -> bool {
    |c: (i32, i32)| in_food_region(c, width, height) && !occupied.contains(c)
}

/// The free cells of the food region, in row order.
pub open spec fn free_food_cells(occupied: Seq<(i32, i32)>, width: int, height: int) -> Seq<(i32, i32)> {
    food_region(width, height).filter(is_free_food_cell(occupied, width, height))
}

/// The free cells of the food region when `cells` and `extra` are occupied.
fn list_free_food_cells(cells: &Vec<(i32, i32)>, extra: (i32, i32), width: i32, height: i32) -> (r: Vec<(i32, i32)>)
    requires
        width >= 1,
        height >= 2,
    ensures
        r@ == free_food_cells(cells@.push(extra), width as int, height as int),
{
    let ghost occupied = cells@.push(extra);
    let ghost region = food_region(width as int, height as int);
    let ghost pred = is_free_food_cell(occupied, width as int, height as int);
    let w: u64 = width as u64;
    assert(w * (height as u64 - 1) <= 0x8000_0000u64 * 0x8000_0000u64) by (nonlinear_arith)
        requires 1 <= w < 0x8000_0000, 1 <= height - 1 < 0x8000_0000;
    let n: u64 = w * (height as u64 - 1);
    let mut free: Vec<(i32, i32)> = Vec::new();
    let mut i: u64 = 0;
    while i < n
        invariant
            i <= n,
            n == width * (height - 1),
            w == width,
            width >= 1,
            height >= 2,
            region.len() == n,
            region == food_region(width as int, height as int),
            occupied == cells@.push(extra),
            pred == is_free_food_cell(occupied, width as int, height as int),
            free@ == region.subrange(0, i as int).filter(pred),
        decreases n - i,
    {
        assert(i / w < height - 1) by (nonlinear_arith)
            requires i < w * (height - 1), w >= 1;
        let c: (i32, i32) = ((i % w) as i32, (i / w + 1) as i32);
        assert(c == region[i as int]);
        let taken = occupies(cells, c) || (c.0 == extra.0 && c.1 == extra.1);
        proof {
            assert(occupied.contains(c) == taken) by {
                if cells@.contains(c) {
                    let k = choose|k: int| 0 <= k < cells@.len() && cells@[k] == c;
                    assert(occupied[k] == c);
                }
                if c == extra {
                    assert(occupied[cells@.len() as int] == c);
                }
                if occupied.contains(c) {
                    let k = choose|k: int| 0 <= k < occupied.len() && occupied[k] == c;
                    if k < cells@.len() {
                        assert(cells@[k] == c);
                    }
                }
            }
            assert(in_food_region(c, width as int, height as int));
            assert(region.subrange(0, i as int + 1).drop_last() =~= region.subrange(0, i as int));
            reveal_with_fuel(Seq::filter, 1);
        }
        if !taken {
            free.push(c);
        }
        i = i + 1;
    }
    assert(region.subrange(0, n as int) =~= region);
    free
}

/// Whether `cells` holds `cell`.
fn occupies(cells: &Vec<(i32, i32)>, cell: (i32, i32)) -> (r: bool)
    ensures
        r == cells@.contains(cell),
{
    let mut i: usize = 0;
    while i < cells.len()
        invariant
            0 <= i <= cells@.len(),
            forall|j: int| 0 <= j < i ==> cells@[j] != cell,
        decreases cells@.len() - i,
    {
        let c = cells[i];
        if c.0 == cell.0 && c.1 == cell.1 {
            assert(cells@[i as int] == cell);
            return true;
        }
        i = i + 1;
    }
    false
}

/// Adding a cell that is on the grid and not yet in the snake, and then
/// perhaps dropping the tail, keeps the snake's cells on the grid and
/// distinct.
proof fn lemma_push_keeps_cells_valid(cells: Seq<(i32, i32)>, cell: (i32, i32), width: int, height: int)
    requires
        forall|i: int| 0 <= i < cells.len() ==> #[trigger] in_grid(cells[i], width, height),
        cells.no_duplicates(),
        !cells.contains(cell),
        in_grid(cell, width, height),
    ensures
        forall|i: int| 0 <= i < cells.push(cell).len() ==> #[trigger] in_grid(cells.push(cell)[i], width, height),
        cells.push(cell).no_duplicates(),
        forall|i: int|
            0 <= i < cells.push(cell).drop_first().len() ==> #[trigger] in_grid(
                cells.push(cell).drop_first()[i],
                width,
                height,
            ),
        cells.push(cell).drop_first().no_duplicates(),
{
    let p = cells.push(cell);
    assert forall|i: int, j: int| 0 <= i < p.len() && 0 <= j < p.len() && i != j implies p[i] != p[j] by {
        if i < cells.len() && j < cells.len() {
        } else if i < cells.len() {
            assert(cells[i] == p[i]);
        } else {
            assert(cells[j] == p[j]);
        }
    }
    assert forall|i: int| 0 <= i < p.len() implies #[trigger] in_grid(p[i], width, height) by {
        if i < cells.len() {
            assert(p[i] == cells[i]);
        }
    }
}

impl SnakeGame {
    /// The state is one that the game's rules can work on: a grid with at
    /// least one column and two rows (food never goes to the first row), a
    /// snake of at least one cell, a score below its length (each point grew
    /// it by one), and a clock that has not yet reached the interval.
    pub open spec fn wf(&self) -> bool {
        &&& self.grid_count_x >= 1
        &&& self.grid_count_y >= 2
        &&& self.snake@.len() >= 1
        &&& (self.score as int) < self.snake@.len()
        &&& self.move_timer < self.move_interval
    }

    /// Every cell of the snake lies on the grid and no two of its cells are
    /// the same.
    pub open spec fn cells_valid(&self) -> bool {
        &&& forall|i: int|
            0 <= i < self.snake@.len() ==> #[trigger] in_grid(
                self.snake@[i],
                self.grid_count_x as int,
                self.grid_count_y as int,
            )
        &&& self.snake@.no_duplicates()
    }

    /// The configuration that a game starts from.
    pub open spec fn fresh(&self) -> bool {
        &&& self.snake@ == seq![(START_X, START_Y)]
        &&& self.apple == (FOOD_X, FOOD_Y)
        &&& self.dir == (0i32, 0i32)
        &&& self.score == 0
        &&& !self.game_over
        &&& self.move_timer == 0
    }

    /// `next` keeps this game's grid, cell size and move interval, which no
    /// operation of the game changes.
    pub open spec fn same_setup(&self, next: &SnakeGame) -> bool {
        &&& next.grid_size == self.grid_size
        &&& next.grid_count_x == self.grid_count_x
        &&& next.grid_count_y == self.grid_count_y
        &&& next.move_interval == self.move_interval
    }

    /// The head of the snake.
    pub open spec fn head(&self) -> (i32, i32) {
        self.snake@.last()
    }

    /// Whether the player has picked a heading yet.
    pub open spec fn moving(&self) -> bool {
        self.dir != (0i32, 0i32)
    }

    /// The cell the head moves to on the next step.
    pub open spec fn target(&self) -> (i32, i32) {
        let c = next_cell(self.head(), self.dir, self.grid_count_x as int, self.grid_count_y as int);
        (c.0 as i32, c.1 as i32)
    }

    /// Whether the next step runs the head into the snake.
    pub open spec fn collides(&self) -> bool {
        self.moving() && self.snake@.contains(self.target())
    }

    /// Whether the next step moves the head onto the food.
    pub open spec fn eats(&self) -> bool {
        self.moving() && !self.collides() && self.target() == self.apple
    }

    /// The snake after the next step: unchanged when it stands still or
    /// collides; one cell longer when it eats; else moved by one cell.
    pub open spec fn stepped_snake(&self) -> Seq<(i32, i32)> {
        if !self.moving() || self.collides() {
            self.snake@
        } else if self.eats() {
            self.snake@.push(self.target())
        } else {
            self.snake@.push(self.target()).drop_first()
        }
    }

    /// `next` is this state after one grid step, whatever cell the food went
    /// to if it was eaten.
    pub open spec fn steps_to(&self, next: &SnakeGame) -> bool {
        &&& next.snake@ == self.stepped_snake()
        &&& next.score == self.score + if self.eats() { 1int } else { 0int }
        &&& next.game_over == (self.game_over || self.collides())
        &&& !self.eats() ==> next.apple == self.apple
        &&& next.dir == self.dir
        &&& self.same_setup(next)
    }

    /// Where `next` put the food that this state's step eats: on one of the
    /// free cells of the food region if there is one, and off the snake; else
    /// where it was.
    pub open spec fn food_after_eating(&self, next: &SnakeGame) -> bool {
        let free = free_food_cells(
            self.snake@.push(self.target()),
            self.grid_count_x as int,
            self.grid_count_y as int,
        );
        &&& free.len() > 0 ==> {
            &&& free.contains(next.apple)
            &&& in_food_region(next.apple, self.grid_count_x as int, self.grid_count_y as int)
            &&& !next.snake@.contains(next.apple)
        }
        &&& free.len() == 0 ==> next.apple == self.apple
    }

    /// A game on a grid of `grid_count_x` columns and `grid_count_y` rows of
    /// `grid_size`-pixel cells, drawing food cells from `rng`. `None` where
    /// the start cell of the snake or of the food lies off the grid.
    pub fn new(grid_count_x: i32, grid_count_y: i32, grid_size: i32, rng: StdRng) -> (r: Option<SnakeGame>)
        ensures
            r is Some <==> (grid_count_x > FOOD_X && grid_count_y > FOOD_Y),
            r matches Some(g) ==> {
                &&& g.fresh()
                &&& g.move_interval == MOVE_INTERVAL_US
                &&& g.wf()
                &&& g.cells_valid()
                &&& g.grid_count_x == grid_count_x
                &&& g.grid_count_y == grid_count_y
                &&& g.grid_size == grid_size
            },
    {
        if grid_count_x <= FOOD_X || grid_count_y <= FOOD_Y {
            return None;
        }
        let mut snake: Vec<(i32, i32)> = Vec::new();
        snake.push((START_X, START_Y));
        assert(snake@ =~= seq![(START_X, START_Y)]);
        Some(SnakeGame {
            snake,
            apple: (FOOD_X, FOOD_Y),
            dir: (0, 0),
            grid_size,
            grid_count_x,
            grid_count_y,
            score: 0,
            game_over: false,
            move_timer: 0,
            move_interval: MOVE_INTERVAL_US,
            rng,
        })
    }

    /// The cell the head moves to on the next step.
    fn target_cell(&self) -> (r: (i32, i32))
        requires
            self.wf(),
        ensures
            r == self.target(),
    {
        let head = self.snake[self.snake.len() - 1];
        next_head(head, self.dir, self.grid_count_x, self.grid_count_y)
    }

    /// Whether the next step moves the head onto the food.
    fn will_eat(&self) -> (r: bool)
        requires
            self.wf(),
        ensures
            r == self.eats(),
    {
        if self.dir.0 == 0 && self.dir.1 == 0 {
            return false;
        }
        let t = self.target_cell();
        !occupies(&self.snake, t) && t.0 == self.apple.0 && t.1 == self.apple.1
    }

    /// One grid step, with `respawn` as the food cell that replaces eaten
    /// food. The head moves one cell along the heading, wrapping at the
    /// edges; running into the snake ends the game and leaves the snake as
    /// it was; eating the food grows the snake by one cell and scores a
    /// point; any other move drops the tail cell.
    pub fn step_with(&mut self, respawn: (i32, i32))
        requires
            old(self).wf(),
        ensures
            final(self).wf(),
            old(self).steps_to(final(self)),
            old(self).eats() ==> final(self).apple == respawn,
            final(self).move_timer == old(self).move_timer,
            old(self).cells_valid() ==> final(self).cells_valid(),
    {
        if self.dir.0 == 0 && self.dir.1 == 0 {
            return;
        }
        let new_head = self.target_cell();
        if occupies(&self.snake, new_head) {
            self.game_over = true;
            return;
        }
        self.snake.push(new_head);
        proof {
            if old(self).cells_valid() {
                lemma_push_keeps_cells_valid(old(self).snake@, new_head, self.grid_count_x as int, self.grid_count_y as int);
            }
        }
        if new_head.0 != self.apple.0 || new_head.1 != self.apple.1 {
            self.snake.remove(0);
            assert(self.snake@ =~= old(self).snake@.push(new_head).drop_first());
        } else {
            let len = self.snake.len();
            assert(self.score < len);
            self.score = self.score + 1;
            self.apple = respawn;
        }
    }

    /// One grid step, drawing the new food cell from `rng` when the food is
    /// eaten.
    fn move_snake(&mut self)
        requires
            old(self).wf(),
        ensures
            final(self).wf(),
            old(self).steps_to(final(self)),
            old(self).eats() ==> old(self).food_after_eating(final(self)),
            final(self).move_timer == old(self).move_timer,
            old(self).cells_valid() ==> final(self).cells_valid(),
    {
        let mut respawn = self.apple;
        if self.will_eat() {
            let t = self.target_cell();
            let free = list_free_food_cells(&self.snake, t, self.grid_count_x, self.grid_count_y);
            if free.len() > 0 {
                let k = random_below(&mut self.rng, free.len());
                respawn = free[k];
                proof {
                    let pred = is_free_food_cell(
                        self.snake@.push(t),
                        self.grid_count_x as int,
                        self.grid_count_y as int,
                    );
                    food_region(self.grid_count_x as int, self.grid_count_y as int).lemma_filter_pred(pred, k as int);
                }
            }
        }
        self.step_with(respawn);
    }

    /// Lets `elapsed` microseconds pass. A finished game stays as it is.
    /// Otherwise the time is added to the clock; once the clock reaches the
    /// move interval it is set back to zero and the game takes one grid step.
    pub fn advance(&mut self, elapsed: u64)
        requires
            old(self).wf(),
        ensures
            final(self).wf(),
            old(self).game_over ==> *final(self) == *old(self),
            elapsed == 0 ==> *final(self) == *old(self),
            final(self).score >= old(self).score,
            old(self).cells_valid() ==> final(self).cells_valid(),
            !old(self).game_over && old(self).move_timer + elapsed < old(self).move_interval ==> {
                &&& final(self).move_timer == old(self).move_timer + elapsed
                &&& final(self).snake@ == old(self).snake@
                &&& final(self).apple == old(self).apple
                &&& final(self).score == old(self).score
                &&& final(self).dir == old(self).dir
                &&& !final(self).game_over
            },
            !old(self).game_over && old(self).move_timer + elapsed >= old(self).move_interval ==> {
                &&& final(self).move_timer == 0
                &&& old(self).steps_to(final(self))
                &&& old(self).eats() ==> old(self).food_after_eating(final(self))
            },
            old(self).same_setup(final(self)),
    {
        if self.game_over {
            return;
        }
        if elapsed < self.move_interval - self.move_timer {
            self.move_timer = self.move_timer + elapsed;
            return;
        }
        self.move_snake();
        self.move_timer = 0;
    }

    /// Turns the snake towards `heading`, whatever it was heading before.
    pub fn set_heading(&mut self, heading: Heading)
        ensures
            final(self).dir == heading_vector(heading),
            final(self).snake@ == old(self).snake@,
            final(self).apple == old(self).apple,
            final(self).score == old(self).score,
            final(self).game_over == old(self).game_over,
            final(self).move_timer == old(self).move_timer,
            old(self).same_setup(final(self)),
    {
        self.dir = match heading {
            Heading::Up => (0, -1),
            Heading::Down => (0, 1),
            Heading::Left => (-1, 0),
            Heading::Right => (1, 0),
        };
    }

    /// Whether the snake has run into itself.
    pub fn is_over(&self) -> (r: bool)
        ensures
            r == self.game_over,
    {
        self.game_over
    }

    /// Puts the game back to its start configuration on the same grid.
    pub fn reset(&mut self)
        ensures
            final(self).fresh(),
            old(self).same_setup(final(self)),
            old(self).grid_count_x > FOOD_X && old(self).grid_count_y > FOOD_Y && old(self).move_interval > 0
                ==> final(self).wf(),
            old(self).grid_count_x > FOOD_X && old(self).grid_count_y > FOOD_Y ==> final(self).cells_valid(),
    {
        let mut snake: Vec<(i32, i32)> = Vec::new();
        snake.push((START_X, START_Y));
        assert(snake@ =~= seq![(START_X, START_Y)]);
        self.snake = snake;
        self.apple = (FOOD_X, FOOD_Y);
        self.dir = (0, 0);
        self.score = 0;
        self.game_over = false;
        self.move_timer = 0;
    }

    /// Handles a key press. While the game runs, an arrow key sets the
    /// heading; once it is over, the restart key starts it afresh. Every
    /// other key leaves the game as it is.
    pub fn key_down(&mut self, key: Key)
        ensures
            old(self).game_over && key == Key::Restart ==> final(self).fresh(),
            !old(self).game_over && key == Key::Up ==> final(self).dir == heading_vector(Heading::Up),
            !old(self).game_over && key == Key::Down ==> final(self).dir == heading_vector(Heading::Down),
            !old(self).game_over && key == Key::Left ==> final(self).dir == heading_vector(Heading::Left),
            !old(self).game_over && key == Key::Right ==> final(self).dir == heading_vector(Heading::Right),
            old(self).game_over && key != Key::Restart ==> *final(self) == *old(self),
            !old(self).game_over && (key == Key::Restart || key == Key::Other) ==> *final(self) == *old(self),
            !old(self).game_over ==> {
                &&& final(self).snake@ == old(self).snake@
                &&& final(self).apple == old(self).apple
                &&& final(self).score == old(self).score
                &&& final(self).game_over == old(self).game_over
                &&& final(self).move_timer == old(self).move_timer
            },
            old(self).same_setup(final(self)),
    {
        if self.game_over {
            if let Key::Restart = key {
                self.reset();
            }
            return;
        }
        match key {
            Key::Up => self.set_heading(Heading::Up),
            Key::Down => self.set_heading(Heading::Down),
            Key::Left => self.set_heading(Heading::Left),
            Key::Right => self.set_heading(Heading::Right),
            Key::Restart | Key::Other => {},
        }
    }
}

/// Each grid step lengthens the snake by exactly one cell when it eats the
/// food and leaves its length unchanged otherwise.
pub proof fn lemma_step_length(before: SnakeGame, after: SnakeGame)
    requires
        before.wf(),
        before.steps_to(&after),
    ensures
        after.snake@.len() == before.snake@.len() + if before.eats() { 1int } else { 0int },
{
}

/// The score never falls: a grid step raises it by exactly one when the
/// food is eaten and leaves it unchanged otherwise.
pub proof fn lemma_step_score(before: SnakeGame, after: SnakeGame)
    requires
        before.steps_to(&after),
    ensures
        after.score >= before.score,
        after.score == before.score + 1 <==> before.eats(),
        after.score == before.score <==> !before.eats(),
{
}

/// Keeping the setup carries over any number of operations.
pub proof fn lemma_same_setup_chain(a: SnakeGame, b: SnakeGame, c: SnakeGame)
    requires
        a.same_setup(&b),
        b.same_setup(&c),
    ensures
        a.same_setup(&c),
{
}

/// A reset game equals a new one: once any sequence of operations has kept
/// the setup of a game fresh from `new`, a reset leaves every field as `new`
/// made it.
pub proof fn lemma_reset_matches_new(created: SnakeGame, played: SnakeGame, reset: SnakeGame)
    requires
        created.fresh(),
        created.same_setup(&played),
        reset.fresh(),
        played.same_setup(&reset),
    ensures
        reset.snake@ == created.snake@,
        reset.apple == created.apple,
        reset.dir == created.dir,
        reset.score == created.score,
        reset.game_over == created.game_over,
        reset.move_timer == created.move_timer,
        reset.grid_size == created.grid_size,
        reset.grid_count_x == created.grid_count_x,
        reset.grid_count_y == created.grid_count_y,
        reset.move_interval == created.move_interval,
{
}

} // verus!
