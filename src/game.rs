use vstd::prelude::*;

use crate::coord::{Coord, Input};
use crate::food::{
    board_full, contains_coord_before, free_cells, free_cells_of, in_bounds,
    lemma_free_cells_members, lemma_no_free_cells_iff_full, random_index,
};

verus! {

/// Where a game stands. `DEAD` and `WON` are final.
#[derive(Clone, Copy, PartialEq, Eq, Debug, Structural)]
pub enum GameState {
    RUNNING,
    DEAD,
    WON,
}

/// Why a game could not be created.
#[derive(Clone, Copy, PartialEq, Eq, Debug, Structural)]
pub enum ConfigError {
    /// The board is narrower or shorter than two cells.
    BoardTooSmall,
}

/// What a changed cell now shows.
#[derive(Clone, Copy, PartialEq, Eq, Debug, Structural)]
pub enum TermUpdateType {
    Clear,
    Snake,
    Food,
}

/// One cell that a tick changed, for incremental rendering.
#[derive(Clone, Copy, PartialEq, Eq, Debug, Structural)]
pub struct TermUpdate {
    pub type_: TermUpdateType,
    pub coord: Coord,
}

/// A cell change, as a value of the model.
pub open spec fn update(type_: TermUpdateType, coord: Coord) -> TermUpdate {
    TermUpdate { type_, coord }
}

/// The cell where the snake starts.
pub open spec fn origin() -> Coord {
    Coord { x: 0, y: 0 }
}

/// The model of a game.
pub ghost struct GameView {
    /// Segments, head first.
    pub snake: Seq<Coord>,
    pub food: Option<Coord>,
    pub width: int,
    pub height: int,
    pub state: GameState,
    /// The direction that the next tick applies.
    pub dir: Input,
}

/// The cell that the head enters when travelling in `dir`. A direction that
/// turns back is replaced by the current direction of travel.
pub open spec fn next_head(snake: Seq<Coord>, dir: Input) -> Coord {
    if turns_back(snake, dir) {
        snake[0].spec_move_by(dir.spec_rev())
    } else {
        snake[0].spec_move_by(dir)
    }
}

/// Whether a step in `dir` would take the head straight back onto the
/// second segment, that is, against the direction of travel.
pub open spec fn turns_back(snake: Seq<Coord>, dir: Input) -> bool {
    snake.len() >= 2 && snake[1] == snake[0].spec_move_by(dir)
}

impl GameView {
    /// Whether `c` lies on this board.
    pub open spec fn on_board(self, c: Coord) -> bool {
        in_bounds(c, self.width, self.height)
    }

    /// The well-formedness of a game.
    pub open spec fn inv(self) -> bool {
        &&& 2 <= self.width <= 255
        &&& 2 <= self.height <= 255
        &&& self.snake.len() >= 1
        &&& self.snake.no_duplicates()
        &&& forall|i: int| 1 <= i < self.snake.len() ==> self.on_board(#[trigger] self.snake[i])
        &&& -1 <= self.snake[0].x <= self.width
        &&& -1 <= self.snake[0].y <= self.height
        &&& self.state == GameState::RUNNING ==> self.on_board(self.snake[0])
        &&& self.state == GameState::RUNNING ==> self.food is Some
        &&& self.food matches Some(f) ==> self.on_board(f) && !self.snake.contains(f)
        &&& self.food is None ==> board_full(self.width, self.height, self.snake)
    }

    /// The cells left for food to go to.
    pub open spec fn free(self) -> Seq<Coord> {
        free_cells(self.width, self.height, self.snake)
    }

    /// The snake after its head has entered `head`, nothing removed.
    pub open spec fn grown(self, head: Coord) -> Seq<Coord> {
        seq![head] + self.snake
    }

    /// The cell that the next tick moves the head to.
    pub open spec fn head_target(self) -> Coord {
        next_head(self.snake, self.dir)
    }

    /// The game once the head has entered the cell that the next tick moves
    /// it to, before anything else happens.
    pub open spec fn after_move(self) -> GameView {
        GameView { snake: self.grown(self.head_target()), ..self }
    }

    /// Whether this is a new game on a `width` by `height` board: one segment
    /// at the origin, travelling down, with food on some other cell.
    pub open spec fn fresh(self, height: int, width: int) -> bool {
        &&& self.inv()
        &&& self.snake == seq![origin()]
        &&& self.width == width
        &&& self.height == height
        &&& self.state == GameState::RUNNING
        &&& self.dir == Input::DOWN
        &&& self.food matches Some(f) && self.free().contains(f)
    }

    /// Whether the next tick moves the head onto the food.
    pub open spec fn eats(self) -> bool {
        let head = self.head_target();
        &&& self.state == GameState::RUNNING
        &&& !self.snake.drop_last().contains(head)
        &&& self.on_board(head)
        &&& self.food == Some(head)
    }
}

/// Putting a new element in front keeps a sequence free of duplicates.
pub proof fn lemma_prepend_no_duplicates(s: Seq<Coord>, c: Coord)
    requires
        s.no_duplicates(),
        !s.contains(c),
    ensures
        (seq![c] + s).no_duplicates(),
{
    let t = seq![c] + s;
    assert forall|i: int, j: int| 0 <= i < t.len() && 0 <= j < t.len() && i != j implies t[i]
        != t[j] by {
        if i > 0 && j > 0 {
            assert(t[i] == s[i - 1] && t[j] == s[j - 1]);
        } else if i == 0 {
            assert(t[j] == s[j - 1]);
        } else {
            assert(t[i] == s[i - 1]);
        }
    }
}

/// What one tick does: from `pre` to `post`, reporting `updates`. Which free
/// cell receives new food is left open.
pub open spec fn tick_outcome(pre: GameView, post: GameView, updates: Seq<TermUpdate>) -> bool {
    let s = pre.snake;
    let head = pre.head_target();
    let grown = pre.grown(head);
    let after = pre.after_move();
    &&& post.width == pre.width
    &&& post.height == pre.height
    &&& post.dir == pre.dir
    &&& if pre.state != GameState::RUNNING {
        &&& post == pre
        &&& updates.len() == 0
    } else if s.drop_last().contains(head) {
        &&& post.snake == pre.snake
        &&& post.food == pre.food
        &&& post.state == GameState::DEAD
        &&& updates.len() == 0
    } else if !pre.on_board(head) {
        &&& post.snake == grown
        &&& post.food == pre.food
        &&& post.state == GameState::DEAD
        &&& updates == seq![update(TermUpdateType::Snake, head)]
    } else if pre.food == Some(head) {
        &&& post.snake == grown
        &&& if after.free().len() == 0 {
            &&& post.food is None
            &&& post.state == GameState::WON
            &&& updates == seq![update(TermUpdateType::Snake, head)]
        } else {
            &&& post.food matches Some(f) && after.free().contains(f)
            &&& post.state == GameState::RUNNING
            &&& updates == seq![
                update(TermUpdateType::Snake, head),
                update(TermUpdateType::Food, post.food->Some_0),
            ]
        }
    } else {
        &&& post.snake == grown.drop_last()
        &&& post.food == pre.food
        &&& post.state == GameState::RUNNING
        &&& updates == if head == s.last() {
            seq![update(TermUpdateType::Clear, s.last()), update(TermUpdateType::Snake, head)]
        } else {
            seq![update(TermUpdateType::Snake, head), update(TermUpdateType::Clear, s.last())]
        }
    }
}

/// The state of one game of snake on a fixed board.
pub struct Game {
    snake: Vec<Coord>,
    /// Absent only when the snake covers the whole board.
    food: Option<Coord>,
    width: u8,
    height: u8,
    pub state: GameState,
    /// The direction that the next tick applies.
    pub cur_input: Input,
}

impl View for Game {
    type V = GameView;

    closed spec fn view(&self) -> GameView {
        GameView {
            snake: self.snake@,
            food: self.food,
            width: self.width as int,
            height: self.height as int,
            state: self.state,
            dir: self.cur_input,
        }
    }
}

impl Game {
    /// Well-formedness: the invariant of the model in the current state.
    pub open spec fn wf(&self) -> bool {
        self@.inv()
    }

    /// Puts food on a free cell: the one at `pick` modulo the number of free
    /// cells when `pick` is given, one drawn at random otherwise. With no free
    /// cell left the food is removed.
    fn place_food(&mut self, pick: Option<usize>)
        requires
            2 <= old(self).width,
            2 <= old(self).height,
        ensures
            final(self).snake == old(self).snake,
            final(self).width == old(self).width,
            final(self).height == old(self).height,
            final(self).state == old(self).state,
            final(self).cur_input == old(self).cur_input,
            old(self)@.free().len() == 0 ==> final(self).food is None,
            old(self)@.free().len() > 0 ==> {
                &&& final(self).food matches Some(f) && old(self)@.free().contains(f)
                &&& pick matches Some(p) ==> final(self).food == Some(
                    old(self)@.free()[(p as int) % (old(self)@.free().len() as int)],
                )
            },
    {
        let free = free_cells_of(&self.snake, self.width, self.height);
        if free.len() == 0 {
            self.food = None;
            return;
        }
        let idx = match pick {
            Some(p) => p % free.len(),
            None => random_index(free.len()),
        };
        self.food = Some(free[idx]);
    }

    /// A new game on a `width` by `height` board, with its food on the free
    /// cell at `pick` modulo the number of free cells.
    pub fn create_with_pick(height: u8, width: u8, pick: usize) -> (r: Game)
        requires
            height >= 2,
            width >= 2,
        ensures
            r@.fresh(height as int, width as int),
            r@.food == Some(
                free_cells(width as int, height as int, seq![origin()])[(pick as int) % (
                free_cells(width as int, height as int, seq![origin()]).len() as int)],
            ),
    {
        Game::create_placing(height, width, Some(pick))
    }

    /// A new game on a `width` by `height` board, with its food on a free
    /// cell drawn at random.
    pub fn create(height: u8, width: u8) -> (r: Game)
        requires
            height >= 2,
            width >= 2,
        ensures
            r@.fresh(height as int, width as int),
    {
        Game::create_placing(height, width, None)
    }

    /// A new game, or an error where the board is too small.
    pub fn try_create(height: u8, width: u8) -> (r: Result<Game, ConfigError>)
        ensures
            (height < 2 || width < 2) <==> r is Err,
            r matches Ok(g) ==> g@.fresh(height as int, width as int),
    {
        if height < 2 || width < 2 {
            Err(ConfigError::BoardTooSmall)
        } else {
            Ok(Game::create(height, width))
        }
    }

    fn create_placing(height: u8, width: u8, pick: Option<usize>) -> (r: Game)
        requires
            height >= 2,
            width >= 2,
        ensures
            r@.fresh(height as int, width as int),
            pick matches Some(p) ==> r@.food == Some(
                free_cells(width as int, height as int, seq![origin()])[(p as int) % (
                free_cells(width as int, height as int, seq![origin()]).len() as int)],
            ),
    {
        let mut game = Game {
            snake: vec![Coord { x: 0, y: 0 }],
            food: None,
            width,
            height,
            state: GameState::RUNNING,
            cur_input: Input::DOWN,
        };
        proof {
            let w = width as int;
            let h = height as int;
            let snake = seq![origin()];
            assert(game.snake@ =~= snake);
            lemma_free_cells_members(w, h, snake, Coord { x: 1, y: 0 });
        }
        game.place_food(pick);
        proof {
            let f = game.food->Some_0;
            lemma_free_cells_members(width as int, height as int, game.snake@, f);
        }
        game
    }

    fn coord_is_in_bounds(&self, coord: &Coord) -> (r: bool)
        ensures
            r == self@.on_board(*coord),
    {
        coord.x >= 0 && coord.x < self.width as isize && coord.y >= 0 && coord.y
            < self.height as isize
    }

    fn get_head(&self) -> (r: &Coord)
        requires
            self.wf(),
        ensures
            *r == self@.snake[0],
    {
        &self.snake[0]
    }

    /// The cell that the next tick moves the head to.
    pub fn get_new_head(&self) -> (r: Coord)
        requires
            self.wf(),
        ensures
            r == self@.head_target(),
    {
        let head = self.get_head();
        let new_head = head.move_by(&self.cur_input);
        if self.snake.len() >= 2 && self.snake[1] == new_head {
            return head.move_by(&self.cur_input.rev());
        }
        new_head
    }

    /// The segments, head first.
    pub fn snake(&self) -> (r: &Vec<Coord>)
        ensures
            r@ == self@.snake,
    {
        &self.snake
    }

    /// Where the food lies, if anywhere.
    pub fn food(&self) -> (r: Option<Coord>)
        ensures
            r == self@.food,
    {
        self.food
    }

    pub fn width(&self) -> (r: u8)
        ensures
            r == self@.width,
    {
        self.width
    }

    pub fn height(&self) -> (r: u8)
        ensures
            r == self@.height,
    {
        self.height
    }

    /// The value of the public field `state`, for verified callers: Verus
    /// hides the fields of `Game` outside this module.
    pub fn current_state(&self) -> (r: GameState)
        ensures
            r == self@.state,
    {
        self.state
    }

    /// The value of the public field `cur_input`, for verified callers.
    pub fn current_input(&self) -> (r: Input)
        ensures
            r == self@.dir,
    {
        self.cur_input
    }

    /// Whether the game is still going on.
    pub fn is_running(&self) -> (r: bool)
        ensures
            r == (self@.state == GameState::RUNNING),
    {
        self.state == GameState::RUNNING
    }

    /// Makes `input` the direction that the next tick applies, replacing
    /// whatever was set before.
    pub fn set_input(&mut self, input: Input)
        requires
            old(self).wf(),
        ensures
            final(self).wf(),
            final(self)@ == (GameView { dir: input, ..old(self)@ }),
    {
        self.cur_input = input;
    }

    /// Advances the game by one tick and returns the cells that changed, in
    /// the order in which to draw them: the new head, then food or the
    /// vacated tail (the tail first where the head enters its cell). On a
    /// game that is over it does nothing.
    pub fn tick(&mut self) -> (r: Vec<TermUpdate>)
        requires
            old(self).wf(),
        ensures
            final(self).wf(),
            tick_outcome(old(self)@, final(self)@, r@),
    {
        self.advance(None)
    }

    /// Advances the game by one tick, as `tick` does, and puts new food on
    /// the free cell at `pick` modulo the number of free cells.
    pub fn tick_with_pick(&mut self, pick: usize) -> (r: Vec<TermUpdate>)
        requires
            old(self).wf(),
        ensures
            final(self).wf(),
            tick_outcome(old(self)@, final(self)@, r@),
            old(self)@.eats() && old(self)@.after_move().free().len() > 0 ==> final(self)@.food
                == Some(
                old(self)@.after_move().free()[(pick as int) % (old(
                    self,
                )@.after_move().free().len() as int)],
            ),
    {
        self.advance(Some(pick))
    }

    fn advance(&mut self, pick: Option<usize>) -> (r: Vec<TermUpdate>)
        requires
            old(self).wf(),
        ensures
            final(self).wf(),
            tick_outcome(old(self)@, final(self)@, r@),
            pick matches Some(p) ==> (old(self)@.eats() && old(self)@.after_move().free().len()
                > 0 ==> final(self)@.food == Some(
                old(self)@.after_move().free()[(p as int) % (old(
                    self,
                )@.after_move().free().len() as int)],
            )),
    {
        let mut term_updates: Vec<TermUpdate> = Vec::new();
        if self.state != GameState::RUNNING {
            return term_updates;
        }
        let ghost pre = self@;
        let new_head = self.get_new_head();
        let n = self.snake.len();
        if contains_coord_before(&self.snake, &new_head, n - 1) {
            assert(pre.snake.drop_last() =~= self.snake@.subrange(0, n - 1));
            self.state = GameState::DEAD;
            return term_updates;
        }
        assert(pre.snake.drop_last() =~= self.snake@.subrange(0, n - 1));
        self.snake.insert(0, new_head);
        assert(self.snake@ =~= pre.grown(new_head));
        term_updates.push(TermUpdate { type_: TermUpdateType::Snake, coord: new_head });
        if !self.coord_is_in_bounds(&new_head) {
            self.state = GameState::DEAD;
            return term_updates;
        }
        let got_food = match self.food {
            Some(f) => f == new_head,
            None => false,
        };
        if got_food {
            self.place_food(pick);
            match self.food {
                Some(f) => {
                    proof {
                        lemma_free_cells_members(pre.width, pre.height, self.snake@, f);
                        lemma_prepend_no_duplicates(pre.snake, new_head);
                        assert(pre.after_move().free() == self@.free());
                    }
                    term_updates.push(TermUpdate { type_: TermUpdateType::Food, coord: f });
                    assert(term_updates@ =~= seq![
                        update(TermUpdateType::Snake, new_head),
                        update(TermUpdateType::Food, f),
                    ]);
                },
                None => {
                    proof {
                        lemma_no_free_cells_iff_full(pre.width, pre.height, self.snake@);
                    }
                    self.state = GameState::WON;
                    return term_updates;
                },
            }
        } else {
            let tail = self.snake[self.snake.len() - 1];
            let cleared = TermUpdate { type_: TermUpdateType::Clear, coord: tail };
            if tail == new_head {
                // the head has entered the tail's cell: clear first, so that
                // drawing the updates in order leaves the head shown
                term_updates.insert(0, cleared);
            } else {
                term_updates.push(cleared);
            }
            assert(tail == pre.snake.last());
            assert(term_updates@ =~= if new_head == pre.snake.last() {
                seq![
                    update(TermUpdateType::Clear, pre.snake.last()),
                    update(TermUpdateType::Snake, new_head),
                ]
            } else {
                seq![
                    update(TermUpdateType::Snake, new_head),
                    update(TermUpdateType::Clear, pre.snake.last()),
                ]
            });
            self.snake.pop();
            proof {
                assert(self.snake@ =~= seq![new_head] + pre.snake.drop_last());
                lemma_prepend_no_duplicates(pre.snake.drop_last(), new_head);
                if let Some(f) = pre.food {
                    assert(!pre.snake.drop_last().contains(f));
                }
            }
        }
        term_updates
    }
}

} // verus!
