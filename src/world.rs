use vstd::prelude::*;
use vstd::set_lib::{lemma_int_range, lemma_len_subset, set_int_range};
use crate::grid::{lemma_neighbor_in_grid, neighbor, neighbor_index, Direction};

verus! {

/// Number of segments of a freshly spawned snake.
pub const SNAKE_INIT_SIZE: usize = 3;

/// One body segment of the snake: the index of the cell it occupies.
#[derive(Clone, Copy, Debug, PartialEq, Eq, Structural)]
pub struct SnakeCell(pub usize);

/// Where a game stands once it has been started.
#[derive(Clone, Copy, Debug, PartialEq, Eq, Structural)]
pub enum GameStatus {
    WON,
    LOSE,
    PLAYED,
}

/// The snake: its segments, head first, and its heading.
pub struct Snake {
    body: Vec<SnakeCell>,
    direction: Direction,
}

/// Every pair of positions of `s` holds different cells.
pub open spec fn pairwise_distinct(s: Seq<SnakeCell>) -> bool {
    forall|i: int, j: int| 0 <= i < j < s.len() ==> s[i] != s[j]
}

/// The body after one step of follow-the-leader movement: `head` in front,
/// each other segment where its predecessor was, the last one dropped.
pub open spec fn advanced(body: Seq<SnakeCell>, head: SnakeCell) -> Seq<SnakeCell> {
    seq![head] + body.take(body.len() - 1)
}

/// The status changes only from unset to `PLAYED`, or from `PLAYED` to `WON`
/// or `LOSE`.
pub open spec fn status_step_ok(before: Option<GameStatus>, after: Option<GameStatus>) -> bool {
    ||| after == before
    ||| before is None && after == Some(GameStatus::PLAYED)
    ||| before == Some(GameStatus::PLAYED) && after == Some(GameStatus::WON)
    ||| before == Some(GameStatus::PLAYED) && after == Some(GameStatus::LOSE)
}

/// A game that is won or lost stays so: no allowed step leaves `WON` or
/// `LOSE`.
pub proof fn lemma_finished_game_stays(before: Option<GameStatus>, after: Option<GameStatus>)
    requires
        before == Some(GameStatus::WON) || before == Some(GameStatus::LOSE),
        status_step_ok(before, after),
    ensures
        after == before,
{
}

/// The text that describes a status.
pub open spec fn status_info(status: Option<GameStatus>) -> Seq<char> {
    match status {
        Some(GameStatus::WON) => "Won!"@,
        Some(GameStatus::PLAYED) => "You're playing!"@,
        Some(GameStatus::LOSE) => "You're Lose!"@,
        None => "None!"@,
    }
}

/// The state of one game.
pub struct World {
    width: usize,
    size: usize,
    snake: Snake,
    reward_cell: Option<usize>,
    next_cell: Option<SnakeCell>,
    status: Option<GameStatus>,
    reward_pending: bool,
}

/// The mathematical state of a game.
pub struct WorldView {
    pub width: nat,
    /// Number of cells, `width * width`.
    pub size: nat,
    /// The snake's segments, head first.
    pub body: Seq<SnakeCell>,
    pub direction: Direction,
    pub reward_cell: Option<usize>,
    /// The head's next cell, worked out when the heading last changed.
    pub next_cell: Option<SnakeCell>,
    pub status: Option<GameStatus>,
    /// A reward cell has to be placed before the game goes on.
    pub reward_pending: bool,
}

impl View for World {
    type V = WorldView;

    closed spec fn view(&self) -> WorldView {
        WorldView {
            width: self.width as nat,
            size: self.size as nat,
            body: self.snake.body@,
            direction: self.snake.direction,
            reward_cell: self.reward_cell,
            next_cell: self.next_cell,
            status: self.status,
            reward_pending: self.reward_pending,
        }
    }
}

impl WorldView {
    /// The invariant of a game.
    pub open spec fn wf(self) -> bool {
        &&& 0 < self.width
        &&& self.size == self.width * self.width
        &&& self.size <= usize::MAX
        &&& SNAKE_INIT_SIZE <= self.body.len() <= self.size
        &&& forall|k: int| 0 <= k < self.body.len() ==> (#[trigger] self.body[k]).0 < self.size
        &&& (self.reward_cell matches Some(r) ==> r < self.size && !self.body.contains(SnakeCell(r)))
        &&& (self.reward_pending ==> self.reward_cell is None)
        &&& (self.next_cell matches Some(c) ==> c == self.next_head())
    }

    /// Some cell of the grid holds no segment.
    pub open spec fn has_free_cell(self) -> bool {
        exists|c: usize| c < self.size && !(#[trigger] self.body.contains(SnakeCell(c)))
    }

    /// The cell one step from the head in the current heading.
    pub open spec fn step_from_head(self, direction: Direction) -> SnakeCell {
        SnakeCell(neighbor(self.width as int, self.body[0].0 as int, direction) as usize)
    }

    /// The cell that the head moves to on the next tick.
    pub open spec fn next_head(self) -> SnakeCell {
        self.step_from_head(self.direction)
    }

    /// The body moved one step, before any growth.
    pub open spec fn moved_body(self) -> Seq<SnakeCell> {
        advanced(self.body, self.next_head())
    }

    /// The moved head lands on a segment other than itself.
    pub open spec fn collides(self) -> bool {
        self.moved_body().subrange(1, self.body.len() as int).contains(self.next_head())
    }

    /// The moved head lands on the reward cell.
    pub open spec fn eats(self) -> bool {
        self.reward_cell == Some(self.next_head().0)
    }

    /// The reward is eaten while the grid still has room to grow.
    pub open spec fn grows(self) -> bool {
        self.eats() && self.body.len() < self.size
    }

    /// The status after a tick.
    pub open spec fn tick_status(self) -> Option<GameStatus> {
        if self.status == Some(GameStatus::PLAYED) {
            if self.collides() {
                Some(GameStatus::LOSE)
            } else if self.eats() && !self.grows() {
                Some(GameStatus::WON)
            } else {
                self.status
            }
        } else {
            self.status
        }
    }

    /// The game after one tick.
    pub open spec fn ticked(self) -> WorldView {
        let moved = self.moved_body();
        WorldView {
            width: self.width,
            size: self.size,
            body: if self.grows() { moved.push(moved[1]) } else { moved },
            direction: self.direction,
            reward_cell: if self.eats() { None } else { self.reward_cell },
            next_cell: None,
            status: self.tick_status(),
            reward_pending: self.reward_pending || self.grows(),
        }
    }

    /// The game after asking for `direction`: unchanged where the step would
    /// lead back onto the segment behind the head.
    pub open spec fn turned(self, direction: Direction) -> WorldView {
        let c = self.step_from_head(direction);
        if c == self.body[1] {
            self
        } else {
            WorldView { direction: direction, next_cell: Some(c), ..self }
        }
    }

    /// A game just set up on a `width × width` grid with the snake's head at
    /// `snake_index`: three segments heading down, no status, no pending
    /// turn, and a reward cell due.
    pub open spec fn is_fresh(self, width: usize, snake_index: usize) -> bool {
        &&& self.width == width
        &&& self.size == width * width
        &&& self.body == seq![
            SnakeCell(snake_index),
            SnakeCell((snake_index - 1) as usize),
            SnakeCell((snake_index - 2) as usize),
        ]
        &&& self.direction == Direction::DOWN
        &&& self.reward_cell is None
        &&& self.reward_pending
        &&& self.next_cell is None
        &&& self.status is None
    }

    /// `candidate` can take the reward that is due.
    pub open spec fn reward_fits(self, candidate: usize) -> bool {
        self.reward_pending && candidate < self.size && !self.body.contains(SnakeCell(candidate))
    }
}

impl Snake {
    /// The segments, head first.
    pub closed spec fn cells(&self) -> Seq<SnakeCell> {
        self.body@
    }

    /// The heading.
    pub closed spec fn heading(&self) -> Direction {
        self.direction
    }

    /// A snake of `size` segments that runs from `spawn_index` down through
    /// the cells just before it, heading down.
    pub fn new(spawn_index: usize, size: usize) -> (s: Snake)
        requires
            size <= spawn_index + 1,
        ensures
            s.cells().len() == size,
            forall|k: int| 0 <= k < size ==> #[trigger] s.cells()[k] == SnakeCell((spawn_index - k) as usize),
            s.heading() == Direction::DOWN,
    {
        let mut body: Vec<SnakeCell> = Vec::new();
        let mut i: usize = 0;
        while i < size
            invariant
                i <= size,
                size <= spawn_index + 1,
                body@.len() == i,
                forall|k: int| 0 <= k < i ==> #[trigger] body@[k] == SnakeCell((spawn_index - k) as usize),
            decreases size - i,
        {
            body.push(SnakeCell(spawn_index - i));
            i += 1;
        }
        Snake { body, direction: Direction::DOWN }
    }
}

/// Moves every segment onto its predecessor's cell and puts `head` in front.
fn shift_body(body: &mut Vec<SnakeCell>, head: SnakeCell)
    requires
        old(body)@.len() >= 1,
    ensures
        final(body)@ == advanced(old(body)@, head),
{
    let len = body.len();
    let mut i: usize = len - 1;
    while i > 0
        invariant
            i < len,
            body@.len() == len,
            forall|k: int| 0 <= k <= i ==> #[trigger] body@[k] == old(body)@[k],
            forall|k: int| i < k < len ==> #[trigger] body@[k] == old(body)@[k - 1],
        decreases i,
    {
        let prev = body[i - 1];
        body.set(i, prev);
        i -= 1;
    }
    body.set(0, head);
    assert(body@ =~= advanced(old(body)@, head));
}

/// Whether `cell` stands in `cells` at a position `from` or later.
fn contains_from(cells: &Vec<SnakeCell>, from: usize, cell: SnakeCell) -> (r: bool)
    requires
        from <= cells@.len(),
    ensures
        r == cells@.subrange(from as int, cells@.len() as int).contains(cell),
{
    let mut i: usize = from;
    while i < cells.len()
        invariant
            from <= i <= cells@.len(),
            forall|k: int| from <= k < i ==> #[trigger] cells@[k] != cell,
        decreases cells@.len() - i,
    {
        if cells[i] == cell {
            assert(cells@.subrange(from as int, cells@.len() as int)[i - from] == cell);
            return true;
        }
        i += 1;
    }
    assert forall|k: int| 0 <= k < cells@.len() - from
        implies #[trigger] cells@.subrange(from as int, cells@.len() as int)[k] != cell by {
        assert(cells@[k + from] != cell);
    }
    false
}

/// A body shorter than the grid leaves a cell free.
proof fn lemma_free_cell(body: Seq<SnakeCell>, size: nat)
    requires
        body.len() < size,
        size <= usize::MAX,
    ensures
        exists|c: usize| c < size && !(#[trigger] body.contains(SnakeCell(c))),
{
    let cells = body.map_values(|x: SnakeCell| x.0 as int);
    let taken = cells.to_set();
    let all = set_int_range(0, size as int);
    cells.lemma_cardinality_of_set();
    lemma_int_range(0, size as int);
    if forall|c: usize| c < size ==> #[trigger] body.contains(SnakeCell(c)) {
        assert forall|x: int| all.contains(x) implies taken.contains(x) by {
            assert(body.contains(SnakeCell(x as usize)));
            let k = choose|k: int| 0 <= k < body.len() && body[k] == SnakeCell(x as usize);
            assert(cells[k] == x);
        }
        lemma_len_subset(all, taken);
        assert(false);
    }
}

/// A snake that grows leaves a cell free for the next reward.
proof fn lemma_growth_leaves_free_cell(v: WorldView)
    requires
        v.wf(),
        v.grows(),
    ensures
        v.ticked().has_free_cell(),
{
    let moved = v.moved_body();
    let t = v.ticked();
    lemma_free_cell(moved, v.size);
    let c = choose|c: usize| c < v.size && !(#[trigger] moved.contains(SnakeCell(c)));
    if t.body.contains(SnakeCell(c)) {
        let k = choose|k: int| 0 <= k < t.body.len() && t.body[k] == SnakeCell(c);
        if k < moved.len() {
            assert(moved[k] == SnakeCell(c));
        } else {
            assert(moved[1] == SnakeCell(c));
        }
        assert(false);
    }
}

/// A tick keeps the invariant.
proof fn lemma_tick_wf(v: WorldView)
    requires
        v.wf(),
    ensures
        v.ticked().wf(),
{
    lemma_neighbor_in_grid(v.width as int, v.body[0].0 as int, v.direction);
    let head = v.next_head();
    let moved = v.moved_body();
    let t = v.ticked();
    assert(moved.len() == v.body.len());
    assert forall|k: int| 0 <= k < moved.len() implies (#[trigger] moved[k]).0 < v.size by {
        if k > 0 {
            assert(moved[k] == v.body[k - 1]);
        }
    }
    assert forall|k: int| 0 <= k < t.body.len() implies (#[trigger] t.body[k]).0 < t.size by {
        if k < moved.len() {
            assert(t.body[k] == moved[k]);
        } else {
            assert(t.body[k] == moved[1]);
        }
    }
    if let Some(r) = t.reward_cell {
        assert(!v.eats());
        assert(r != head.0);
        if moved.contains(SnakeCell(r)) {
            let k = choose|k: int| 0 <= k < moved.len() && moved[k] == SnakeCell(r);
            assert(k > 0);
            assert(v.body[k - 1] == SnakeCell(r));
            assert(false);
        }
    }
}

/// Where the body behind the last segment held distinct cells and the moved
/// head lands on none of the others, the moved body holds distinct cells.
proof fn lemma_moved_distinct(v: WorldView)
    requires
        v.wf(),
        !v.collides(),
        pairwise_distinct(v.body.take(v.body.len() - 1)),
    ensures
        pairwise_distinct(v.moved_body()),
{
    let moved = v.moved_body();
    let len = v.body.len() as int;
    let rest = moved.subrange(1, len);
    assert forall|i: int, j: int| 0 <= i < j < moved.len() implies moved[i] != moved[j] by {
        if i == 0 {
            assert(rest[j - 1] == moved[j]);
        } else {
            assert(moved[i] == v.body.take(len - 1)[i - 1]);
            assert(moved[j] == v.body.take(len - 1)[j - 1]);
        }
    }
}

impl World {
    /// A game on a `width × width` grid whose snake has its head at
    /// `snake_index` and its other segments on the cells just before it,
    /// heading down. No status is set, and a reward cell is due: the host
    /// draws candidates for it and offers them to `place_reward_cell`.
    pub fn new(width: usize, snake_index: usize) -> (w: World)
        requires
            width * width <= usize::MAX,
            SNAKE_INIT_SIZE - 1 <= snake_index < width * width,
        ensures
            w@.wf(),
            w@.is_fresh(width, snake_index),
            w@.has_free_cell(),
    {
        proof {
            assert(0 < width) by (nonlinear_arith)
                requires snake_index < width * width;
        }
        let snake = Snake::new(snake_index, SNAKE_INIT_SIZE);
        proof {
            assert(snake.cells().len() < width * width) by (nonlinear_arith)
                requires 2 <= snake_index < width * width, 0 < width, snake.cells().len() == 3;
            lemma_free_cell(snake.cells(), (width * width) as nat);
        }
        let w = World {
            width,
            size: width * width,
            snake,
            reward_cell: None,
            next_cell: None,
            status: None,
            reward_pending: true,
        };
        assert(w@.body =~= seq![
            SnakeCell(snake_index),
            SnakeCell((snake_index - 1) as usize),
            SnakeCell((snake_index - 2) as usize),
        ]);
        w
    }

    /// `new`, or `None` where its inputs do not describe a game: the cell
    /// count overflows, or the spawn cell is off the grid or too close to
    /// cell 0 for the initial body.
    pub fn try_new(width: usize, snake_index: usize) -> (r: Option<World>)
        ensures
            r is Some <==> (width * width <= usize::MAX && SNAKE_INIT_SIZE - 1 <= snake_index < width * width),
            r matches Some(w) ==> w@.wf() && w@.is_fresh(width, snake_index),
    {
        match width.checked_mul(width) {
            None => None,
            Some(size) => {
                if snake_index < SNAKE_INIT_SIZE - 1 || snake_index >= size {
                    None
                } else {
                    Some(World::new(width, snake_index))
                }
            },
        }
    }

    /// The number of columns (and rows).
    pub fn get_width(&self) -> (r: usize)
        ensures
            r == self@.width,
    {
        self.width
    }

    /// The cell of the head.
    pub fn snake_head_index(&self) -> (r: usize)
        requires
            self@.wf(),
        ensures
            r == self@.body[0].0,
    {
        self.snake.body[0].0
    }

    /// The cell one step from the head in `direction`.
    fn gen_next_snake_cell(&self, direction: &Direction) -> (r: SnakeCell)
        requires
            self@.wf(),
        ensures
            r == self@.step_from_head(*direction),
            r.0 < self@.size,
    {
        SnakeCell(neighbor_index(self.width, self.size, self.snake.body[0].0, *direction))
    }

    /// One step of the game: the head moves one cell in the current heading,
    /// each other segment takes its predecessor's cell, and then
    /// - while `PLAYED`, a head that lands on another segment loses the game;
    /// - a head that lands on the reward cell eats it: the snake grows by one
    ///   segment (on the cell of the segment behind the head) and a new reward
    ///   cell is due, for which some cell is free; or, where the body already
    ///   fills the grid, a game being `PLAYED` is won.
    pub fn update_snake(&mut self)
        requires
            old(self)@.wf(),
        ensures
            final(self)@ == old(self)@.ticked(),
            final(self)@.wf(),
            final(self)@.body.len() >= old(self)@.body.len(),
            status_step_ok(old(self)@.status, final(self)@.status),
            old(self)@.status == Some(GameStatus::PLAYED) && pairwise_distinct(
                old(self)@.body.take(old(self)@.body.len() - 1),
            ) && !pairwise_distinct(old(self)@.moved_body()) ==> final(self)@.status == Some(
                GameStatus::LOSE,
            ),
            old(self)@.grows() ==> final(self)@.has_free_cell(),
    {
        proof {
            lemma_tick_wf(self@);
            if self@.grows() {
                lemma_growth_leaves_free_cell(self@);
            }
            if self@.status == Some(GameStatus::PLAYED) && !self@.collides() && pairwise_distinct(
                self@.body.take(self@.body.len() - 1),
            ) {
                lemma_moved_distinct(self@);
            }
        }
        let ghost before = self@;
        let head = match self.next_cell {
            Some(cell) => cell,
            None => self.gen_next_snake_cell(&self.snake.direction),
        };
        self.next_cell = None;
        let len = self.snake.body.len();
        shift_body(&mut self.snake.body, head);
        if contains_from(&self.snake.body, 1, head) {
            if matches!(self.status, Some(GameStatus::PLAYED)) {
                self.status = Some(GameStatus::LOSE);
            }
        }
        let eats = match self.reward_cell {
            Some(r) => r == head.0,
            None => false,
        };
        if eats {
            self.reward_cell = None;
            if len < self.size {
                let second = self.snake.body[1];
                self.snake.body.push(second);
                self.reward_pending = true;
            } else if matches!(self.status, Some(GameStatus::PLAYED)) {
                self.status = Some(GameStatus::WON);
            }
        }
        assert(self@ == before.ticked());
    }
    /// Turns the snake to `direction`, unless the first step that way would
    /// lead onto the segment behind the head: then nothing changes. The step
    /// is kept for the next tick.
    pub fn change_snake_direction(&mut self, direction: Direction)
        requires
            old(self)@.wf(),
        ensures
            final(self)@ == old(self)@.turned(direction),
            final(self)@.wf(),
            status_step_ok(old(self)@.status, final(self)@.status),
    {
        let next_cell = self.gen_next_snake_cell(&direction);
        if self.snake.body[1].0 == next_cell.0 {
            return;
        }
        self.snake.direction = direction;
        self.next_cell = Some(next_cell);
        assert(self@ =~= old(self)@.turned(direction));
    }

    /// Whether a reward cell is due.
    pub fn needs_reward_cell(&self) -> (r: bool)
        ensures
            r == self@.reward_pending,
    {
        self.reward_pending
    }

    /// Offers `candidate`, drawn by the host at random from `[0, size)`, as
    /// the reward cell. It is taken where a reward cell is due and the
    /// candidate is a free cell of the grid; otherwise nothing changes.
    pub fn place_reward_cell(&mut self, candidate: usize) -> (placed: bool)
        requires
            old(self)@.wf(),
        ensures
            placed == old(self)@.reward_fits(candidate),
            placed ==> final(self)@ == (WorldView {
                reward_cell: Some(candidate),
                reward_pending: false,
                ..old(self)@
            }),
            !placed ==> final(self)@ == old(self)@,
            final(self)@.wf(),
            status_step_ok(old(self)@.status, final(self)@.status),
    {
        if !self.reward_pending || candidate >= self.size {
            return false;
        }
        if contains_from(&self.snake.body, 0, SnakeCell(candidate)) {
            return false;
        }
        proof {
            assert(self@.body.subrange(0, self@.body.len() as int) =~= self@.body);
        }
        self.reward_cell = Some(candidate);
        self.reward_pending = false;
        true
    }

    /// The reward cell, if one is placed.
    pub fn reward_cell(&self) -> (r: Option<usize>)
        ensures
            r == self@.reward_cell,
    {
        self.reward_cell
    }

    /// The segments, head first.
    pub fn snake_cells(&self) -> (r: &Vec<SnakeCell>)
        ensures
            r@ == self@.body,
    {
        &self.snake.body
    }

    /// The number of segments.
    pub fn snake_length(&self) -> (r: usize)
        ensures
            r == self@.body.len(),
    {
        self.snake.body.len()
    }

    /// Starts a game whose status is not set yet; any other status stays.
    pub fn start_game(&mut self)
        requires
            old(self)@.wf(),
        ensures
            final(self)@ == (WorldView {
                status: if old(self)@.status is None {
                    Some(GameStatus::PLAYED)
                } else {
                    old(self)@.status
                },
                ..old(self)@
            }),
            final(self)@.wf(),
            status_step_ok(old(self)@.status, final(self)@.status),
    {
        if self.status.is_none() {
            self.status = Some(GameStatus::PLAYED);
        }
    }

    /// The status.
    pub fn get_game_status(&self) -> (r: Option<GameStatus>)
        ensures
            r == self@.status,
    {
        self.status
    }

    /// A text that describes the status.
    pub fn get_game_status_info(&self) -> (r: String)
        ensures
            r@ == status_info(self@.status),
    {
        match self.status {
            Some(GameStatus::WON) => String::from_str("Won!"),
            Some(GameStatus::PLAYED) => String::from_str("You're playing!"),
            Some(GameStatus::LOSE) => String::from_str("You're Lose!"),
            None => String::from_str("None!"),
        }
    }
}

} // verus!
