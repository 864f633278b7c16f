//! Laws of the game, proved over the model that the contracts of `Game`
//! speak of.

use vstd::prelude::*;

use crate::coord::{Coord, Input};
use crate::food::{
    board_full, lemma_free_cells_count, lemma_free_cells_members, lemma_no_free_cells_iff_full,
};
use crate::game::{
    lemma_prepend_no_duplicates, origin, tick_outcome, turns_back, GameState, GameView, TermUpdate,
};

verus! {

/// A new game has exactly one segment, and its food lies on the board on
/// another cell.
pub proof fn lemma_fresh_game_food_apart(v: GameView, height: int, width: int)
    requires
        v.fresh(height, width),
    ensures
        v.snake.len() == 1,
        v.food matches Some(f) && f != v.snake[0] && v.on_board(f),
{
    lemma_free_cells_members(width, height, v.snake, v.food->Some_0);
    assert(v.snake[0] == origin());
}

/// Without a change of direction a new game travels down: while the snake
/// is not travelling up, a tick in direction down moves the head one cell
/// down, unless the game dies; a head that leaves the board kills it; and
/// after the move the snake is still not travelling up.
pub proof fn lemma_default_direction_moves_down(pre: GameView, post: GameView, updates: Seq<
    TermUpdate,
>)
    requires
        pre.inv(),
        pre.state == GameState::RUNNING,
        pre.dir == Input::DOWN,
        !turns_back(pre.snake, Input::DOWN),
        tick_outcome(pre, post, updates),
    ensures
        pre.head_target() == pre.snake[0].spec_move_by(Input::DOWN),
        post.state != GameState::DEAD ==> post.snake[0] == pre.snake[0].spec_move_by(Input::DOWN),
        !pre.on_board(pre.head_target()) ==> post.state == GameState::DEAD,
        post.state == GameState::RUNNING ==> !turns_back(post.snake, Input::DOWN),
        post.dir == Input::DOWN,
{
    let head = pre.head_target();
    if post.state == GameState::RUNNING && post.snake.len() >= 2 {
        assert(post.snake[0] == head);
        assert(post.snake[1] == pre.snake[0]);
    }
}

/// Once a game is over, a tick changes nothing.
pub proof fn lemma_game_over_is_final(pre: GameView, post: GameView, updates: Seq<TermUpdate>)
    requires
        pre.state != GameState::RUNNING,
        tick_outcome(pre, post, updates),
    ensures
        post == pre,
        updates.len() == 0,
{
}

/// After any tick, food that is present lies on the board away from every
/// segment, and a game still running has food.
pub proof fn lemma_food_apart_after_tick(pre: GameView, post: GameView, updates: Seq<TermUpdate>)
    requires
        pre.inv(),
        tick_outcome(pre, post, updates),
    ensures
        post.food matches Some(f) ==> post.on_board(f) && !post.snake.contains(f),
        post.state == GameState::RUNNING ==> post.food is Some,
{
    let head = pre.head_target();
    if pre.state == GameState::RUNNING && !pre.snake.drop_last().contains(head) && pre.on_board(
        head,
    ) {
        if let Some(f) = post.food {
            if pre.food == Some(head) {
                lemma_free_cells_members(pre.width, pre.height, post.snake, f);
            } else {
                assert(post.snake =~= seq![head] + pre.snake.drop_last());
                assert(!pre.snake.drop_last().contains(f));
            }
        }
    } else if pre.state == GameState::RUNNING && !pre.snake.drop_last().contains(head) {
        if let Some(f) = post.food {
            assert(post.snake =~= seq![head] + pre.snake);
        }
    }
}

/// A key that points against the direction of travel does not turn the head
/// back onto the second segment: the snake keeps its course.
pub proof fn lemma_reversal_keeps_course(v: GameView)
    requires
        v.inv(),
        turns_back(v.snake, v.dir),
    ensures
        v.head_target() == v.snake[0].spec_move_by(v.dir.spec_rev()),
        v.head_target() != v.snake[1],
        v.head_target().x - v.snake[0].x == v.snake[0].x - v.snake[1].x,
        v.head_target().y - v.snake[0].y == v.snake[0].y - v.snake[1].y,
{
}

/// Eating makes the snake exactly one segment longer, and no tick makes it
/// shorter.
pub proof fn lemma_eating_grows_by_one(pre: GameView, post: GameView, updates: Seq<TermUpdate>)
    requires
        pre.inv(),
        tick_outcome(pre, post, updates),
    ensures
        pre.eats() ==> post.snake.len() == pre.snake.len() + 1,
        post.snake.len() >= pre.snake.len(),
{
}

/// When eating leaves no free cell, the game is won.
pub proof fn lemma_full_board_is_won(pre: GameView, post: GameView, updates: Seq<TermUpdate>)
    requires
        pre.inv(),
        tick_outcome(pre, post, updates),
        pre.eats(),
        board_full(pre.width, pre.height, pre.after_move().snake),
    ensures
        post.state == GameState::WON,
        post.food is None,
{
    lemma_no_free_cells_iff_full(pre.width, pre.height, pre.after_move().snake);
}

/// A head that moves off the board kills the game on that tick.
pub proof fn lemma_leaving_board_is_fatal(pre: GameView, post: GameView, updates: Seq<
    TermUpdate,
>)
    requires
        pre.inv(),
        pre.state == GameState::RUNNING,
        !pre.on_board(pre.head_target()),
        tick_outcome(pre, post, updates),
    ensures
        post.state == GameState::DEAD,
{
}

/// Whether each game of `run` is what one tick makes of the game before it,
/// the tick reporting `updates[i]`.
pub open spec fn is_run(run: Seq<GameView>, updates: Seq<Seq<TermUpdate>>) -> bool {
    &&& run.len() == updates.len() + 1
    &&& forall|i: int|
        0 <= i < updates.len() ==> tick_outcome(run[i], run[i + 1], #[trigger] updates[i])
}

/// What holds at step `k` of a run without a change of direction.
proof fn lemma_run_down_step(run: Seq<GameView>, updates: Seq<Seq<TermUpdate>>, k: int)
    requires
        is_run(run, updates),
        forall|i: int| 0 <= i < run.len() ==> (#[trigger] run[i]).inv(),
        run[0].state == GameState::RUNNING,
        run[0].dir == Input::DOWN,
        !turns_back(run[0].snake, Input::DOWN),
        0 <= k < run.len(),
    ensures
        run[k].dir == Input::DOWN,
        run[k].snake.len() >= 1,
        run[k].state == GameState::RUNNING ==> {
            &&& run[k].snake[0].x == run[0].snake[0].x
            &&& run[k].snake[0].y == run[0].snake[0].y + k
            &&& !turns_back(run[k].snake, Input::DOWN)
        },
    decreases k,
{
    if k > 0 {
        lemma_run_down_step(run, updates, k - 1);
        let pre = run[k - 1];
        let post = run[k];
        assert(tick_outcome(pre, post, updates[k - 1]));
        if pre.state == GameState::RUNNING {
            lemma_default_direction_moves_down(pre, post, updates[k - 1]);
        } else {
            lemma_game_over_is_final(pre, post, updates[k - 1]);
        }
    }
}

/// A game over stays as it is for the rest of a run.
proof fn lemma_run_over_stays(run: Seq<GameView>, updates: Seq<Seq<TermUpdate>>, j: int, k: int)
    requires
        is_run(run, updates),
        0 <= j <= k < run.len(),
        run[j].state != GameState::RUNNING,
    ensures
        run[k] == run[j],
    decreases k - j,
{
    if k > j {
        lemma_run_over_stays(run, updates, j, k - 1);
        lemma_game_over_is_final(run[k - 1], run[k], updates[k - 1]);
    }
}

/// Over any run of ticks of well-formed games without a change of direction,
/// starting from a running snake that is not travelling up (a new game, for
/// one), the head moves one cell down per tick for as long as the game runs,
/// and once the game is over it never changes again.
pub proof fn lemma_run_without_input_moves_down(run: Seq<GameView>, updates: Seq<Seq<TermUpdate>>)
    requires
        is_run(run, updates),
        forall|i: int| 0 <= i < run.len() ==> (#[trigger] run[i]).inv(),
        run[0].state == GameState::RUNNING,
        run[0].dir == Input::DOWN,
        !turns_back(run[0].snake, Input::DOWN),
    ensures
        forall|k: int|
            0 <= k < run.len() && (#[trigger] run[k]).state == GameState::RUNNING ==> {
                &&& run[k].snake[0].x == run[0].snake[0].x
                &&& run[k].snake[0].y == run[0].snake[0].y + k
            },
        forall|j: int, k: int|
            0 <= j <= k < run.len() && (#[trigger] run[j]).state != GameState::RUNNING ==> #[trigger] run[k]
                == run[j],
{
    assert forall|k: int|
        0 <= k < run.len() && (#[trigger] run[k]).state == GameState::RUNNING implies {
        &&& run[k].snake[0].x == run[0].snake[0].x
        &&& run[k].snake[0].y == run[0].snake[0].y + k
    } by {
        lemma_run_down_step(run, updates, k);
    }
    assert forall|j: int, k: int|
        0 <= j <= k < run.len() && (#[trigger] run[j]).state != GameState::RUNNING implies #[trigger] run[k]
        == run[j] by {
        lemma_run_over_stays(run, updates, j, k);
    }
}

/// Whether every segment lies in column 0, at rows 0 to `k`.
pub open spec fn in_first_column(snake: Seq<Coord>, k: int) -> bool {
    forall|i: int| 0 <= i < snake.len() ==> (#[trigger] snake[i]).x == 0 && 0 <= snake[i].y <= k
}

/// Step `k` of a run from a new game without a change of direction.
proof fn lemma_new_game_run_step(
    run: Seq<GameView>,
    updates: Seq<Seq<TermUpdate>>,
    height: int,
    width: int,
    k: int,
)
    requires
        is_run(run, updates),
        run[0].fresh(height, width),
        0 <= k < run.len(),
        k <= height,
    ensures
        run[k].snake[0] == (Coord { x: 0, y: k as isize }),
        run[k].snake.len() >= 1,
        run[k].width == width,
        run[k].height == height,
        run[k].dir == Input::DOWN,
        in_first_column(run[k].snake, k),
        k < height ==> run[k].state == GameState::RUNNING,
        k == height ==> run[k].state == GameState::DEAD,
    decreases k,
{
    if k > 0 {
        lemma_new_game_run_step(run, updates, height, width, k - 1);
        let pre = run[k - 1];
        let post = run[k];
        assert(tick_outcome(pre, post, updates[k - 1]));
        let head = Coord { x: 0, y: k as isize };
        assert(pre.snake[0].spec_move_by(Input::DOWN) == head);
        if pre.snake.len() >= 2 {
            assert(pre.snake[1].y <= k - 1);
        }
        assert(pre.head_target() == head);
        let grown = pre.grown(head);
        assert(in_first_column(grown, k)) by {
            assert forall|i: int| 0 <= i < grown.len() implies (#[trigger] grown[i]).x == 0 && 0
                <= grown[i].y <= k by {
                if i > 0 {
                    assert(grown[i] == pre.snake[i - 1]);
                }
            }
        }
        assert(!pre.snake.drop_last().contains(head)) by {
            if pre.snake.drop_last().contains(head) {
                let m = choose|m: int|
                    0 <= m < pre.snake.drop_last().len() && pre.snake.drop_last()[m] == head;
                assert(pre.snake[m] == head);
            }
        }
        if k < height && pre.food == Some(head) {
            let spare = Coord { x: 1, y: 0 };
            assert(!grown.contains(spare)) by {
                if grown.contains(spare) {
                    let m = choose|m: int| 0 <= m < grown.len() && grown[m] == spare;
                    assert(grown[m].x == 0);
                }
            }
            lemma_free_cells_members(width, height, grown, spare);
            assert(pre.after_move().free().len() > 0);
        }
        if k < height && pre.food != Some(head) {
            let kept = grown.drop_last();
            assert(in_first_column(kept, k)) by {
                assert forall|i: int| 0 <= i < kept.len() implies (#[trigger] kept[i]).x == 0 && 0
                    <= kept[i].y <= k by {
                    assert(kept[i] == grown[i]);
                }
            }
        }
    }
}

/// From a new game, with no change of direction, the head moves straight
/// down one cell per tick: the game runs through the first `height - 1`
/// ticks, dies on tick `height` as the head leaves the bottom of the board
/// (it is never won), and stays as it is from then on.
pub proof fn lemma_new_game_without_input(
    run: Seq<GameView>,
    updates: Seq<Seq<TermUpdate>>,
    height: int,
    width: int,
)
    requires
        is_run(run, updates),
        run[0].fresh(height, width),
    ensures
        forall|k: int|
            0 <= k < run.len() && k <= height ==> {
                &&& (#[trigger] run[k]).snake[0] == (Coord { x: 0, y: k as isize })
                &&& k < height ==> run[k].state == GameState::RUNNING
                &&& k == height ==> run[k].state == GameState::DEAD
            },
        forall|k: int| height <= k < run.len() ==> #[trigger] run[k] == run[height],
{
    assert forall|k: int| 0 <= k < run.len() && k <= height implies {
        &&& (#[trigger] run[k]).snake[0] == (Coord { x: 0, y: k as isize })
        &&& k < height ==> run[k].state == GameState::RUNNING
        &&& k == height ==> run[k].state == GameState::DEAD
    } by {
        lemma_new_game_run_step(run, updates, height, width, k);
    }
    assert forall|k: int| height <= k < run.len() implies #[trigger] run[k] == run[height] by {
        lemma_new_game_run_step(run, updates, height, width, height);
        lemma_run_over_stays(run, updates, height, k);
    }
}

/// A tick of a running game wins it exactly when the head moves onto the
/// food with one cell of the board left, the one the food was on. The game
/// won, the snake covers every cell and no food is left.
pub proof fn lemma_won_exactly_when_board_filled(
    pre: GameView,
    post: GameView,
    updates: Seq<TermUpdate>,
)
    requires
        pre.inv(),
        pre.state == GameState::RUNNING,
        tick_outcome(pre, post, updates),
    ensures
        post.state == GameState::WON <==> (pre.eats() && pre.snake.len() + 1 == pre.width
            * pre.height),
        post.state == GameState::WON ==> {
            &&& post.food is None
            &&& post.snake.len() == pre.width * pre.height
            &&& board_full(post.width, post.height, post.snake)
        },
{
    if pre.eats() {
        let head = pre.head_target();
        let grown = pre.grown(head);
        lemma_prepend_no_duplicates(pre.snake, head);
        assert forall|i: int| 0 <= i < grown.len() implies pre.on_board(#[trigger] grown[i]) by {
            if i > 0 {
                assert(grown[i] == pre.snake[i - 1]);
            }
        }
        lemma_free_cells_count(pre.width, pre.height, grown);
        lemma_no_free_cells_iff_full(pre.width, pre.height, grown);
    }
}

} // verus!
