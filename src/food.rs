use rand::Rng;
use vstd::arithmetic::div_mod::{
    lemma_div_pos_is_pos, lemma_fundamental_div_mod_converse, lemma_mod_pos_bound,
    lemma_multiply_divide_lt,
};
use vstd::prelude::*;

use crate::coord::Coord;

verus! {

/// Whether `c` lies on a board of the given dimensions.
pub open spec fn in_bounds(c: Coord, width: int, height: int) -> bool {
    0 <= c.x < width && 0 <= c.y < height
}

/// The `i`-th cell of a board `width` cells wide, counted row by row.
pub open spec fn cell_at(width: int, i: int) -> Coord {
    Coord { x: (i % width) as isize, y: (i / width) as isize }
}

/// The cells among the first `k` in row-major order that `snake` does not occupy.
pub open spec fn free_prefix(width: int, snake: Seq<Coord>, k: nat) -> Seq<Coord>
    decreases k,
{
    if k == 0 {
        seq![]
    } else {
        let prev = free_prefix(width, snake, (k - 1) as nat);
        let c = cell_at(width, k - 1);
        if snake.contains(c) {
            prev
        } else {
            prev.push(c)
        }
    }
}

/// Every cell of the board that `snake` does not occupy, in row-major order.
pub open spec fn free_cells(width: int, height: int, snake: Seq<Coord>) -> Seq<Coord> {
    free_prefix(width, snake, (width * height) as nat)
}

/// Whether every cell of the board is occupied by `snake`.
pub open spec fn board_full(width: int, height: int, snake: Seq<Coord>) -> bool {
    forall|c: Coord| in_bounds(c, width, height) ==> snake.contains(c)
}

proof fn lemma_cell_at_in_bounds(width: int, height: int, i: int)
    requires
        1 <= width <= 255,
        0 <= height <= 255,
        0 <= i < width * height,
    ensures
        in_bounds(cell_at(width, i), width, height),
        cell_at(width, i).x == i % width,
        cell_at(width, i).y == i / width,
{
    lemma_mod_pos_bound(i, width);
    lemma_div_pos_is_pos(i, width);
    lemma_multiply_divide_lt(i, width, height);
}

/// What the free cells of a prefix hold: unoccupied cells of the board.
proof fn lemma_free_prefix_sound(width: int, height: int, snake: Seq<Coord>, k: nat)
    requires
        1 <= width <= 255,
        0 <= height <= 255,
        k <= width * height,
    ensures
        forall|j: int|
            0 <= j < free_prefix(width, snake, k).len() ==> {
                &&& in_bounds(#[trigger] free_prefix(width, snake, k)[j], width, height)
                &&& !snake.contains(free_prefix(width, snake, k)[j])
            },
    decreases k,
{
    if k > 0 {
        lemma_free_prefix_sound(width, height, snake, (k - 1) as nat);
        lemma_cell_at_in_bounds(width, height, k - 1);
        let prev = free_prefix(width, snake, (k - 1) as nat);
        let cur = free_prefix(width, snake, k);
        assert forall|j: int| 0 <= j < cur.len() implies {
            &&& in_bounds(#[trigger] cur[j], width, height)
            &&& !snake.contains(cur[j])
        } by {
            if j < prev.len() {
                assert(cur[j] == prev[j]);
            }
        }
    }
}

/// Every unoccupied cell before position `k` is among the free cells of that prefix.
proof fn lemma_free_prefix_complete(width: int, height: int, snake: Seq<Coord>, k: nat, i: int)
    requires
        1 <= width,
        0 <= i < k,
        !snake.contains(cell_at(width, i)),
    ensures
        free_prefix(width, snake, k).contains(cell_at(width, i)),
    decreases k,
{
    let prev = free_prefix(width, snake, (k - 1) as nat);
    if i < k - 1 {
        lemma_free_prefix_complete(width, height, snake, (k - 1) as nat, i);
        let j = choose|j: int| 0 <= j < prev.len() && prev[j] == cell_at(width, i);
        if !snake.contains(cell_at(width, k - 1)) {
            assert(prev.push(cell_at(width, k - 1))[j] == cell_at(width, i));
        }
    } else {
        assert(prev.push(cell_at(width, i))[prev.len() as int] == cell_at(width, i));
    }
}

/// A cell is free exactly when it lies on the board and the snake does not occupy it.
pub proof fn lemma_free_cells_members(width: int, height: int, snake: Seq<Coord>, c: Coord)
    requires
        1 <= width <= 255,
        1 <= height <= 255,
    ensures
        free_cells(width, height, snake).contains(c) <==> (in_bounds(c, width, height)
            && !snake.contains(c)),
{
    lemma_free_prefix_sound(width, height, snake, (width * height) as nat);
    if in_bounds(c, width, height) && !snake.contains(c) {
        let (x, y) = (c.x as int, c.y as int);
        let i = y * width + x;
        assert(0 <= i < width * height) by (nonlinear_arith)
            requires
                i == y * width + x,
                0 <= x < width,
                0 <= y < height,
        ;
        lemma_fundamental_div_mod_converse(i, width, y, x);
        assert(cell_at(width, i) == c);
        lemma_free_prefix_complete(width, height, snake, (width * height) as nat, i);
    }
}

/// No cell is free exactly when the snake covers the whole board.
pub proof fn lemma_no_free_cells_iff_full(width: int, height: int, snake: Seq<Coord>)
    requires
        1 <= width <= 255,
        1 <= height <= 255,
    ensures
        free_cells(width, height, snake).len() == 0 <==> board_full(width, height, snake),
{
    let free = free_cells(width, height, snake);
    if free.len() == 0 {
        assert forall|c: Coord| in_bounds(c, width, height) implies snake.contains(c) by {
            lemma_free_cells_members(width, height, snake, c);
        }
    } else {
        lemma_free_cells_members(width, height, snake, free[0]);
    }
}

/// How many of the first `k` cells in row-major order `snake` occupies.
pub open spec fn occupied_count(width: int, snake: Seq<Coord>, k: nat) -> nat
    decreases k,
{
    if k == 0 {
        0
    } else {
        occupied_count(width, snake, (k - 1) as nat) + if snake.contains(cell_at(width, k - 1)) {
            1nat
        } else {
            0nat
        }
    }
}

/// Each of the first `k` cells is either free or occupied.
proof fn lemma_free_plus_occupied(width: int, snake: Seq<Coord>, k: nat)
    ensures
        free_prefix(width, snake, k).len() + occupied_count(width, snake, k) == k,
    decreases k,
{
    if k > 0 {
        lemma_free_plus_occupied(width, snake, (k - 1) as nat);
    }
}

/// Taking the last segment off uncounts exactly its own cell.
proof fn lemma_occupied_drop_last(width: int, height: int, snake: Seq<Coord>, k: nat)
    requires
        1 <= width <= 255,
        0 <= height <= 255,
        k <= width * height,
        snake.len() >= 1,
        snake.no_duplicates(),
        in_bounds(snake.last(), width, height),
    ensures
        occupied_count(width, snake, k) == occupied_count(width, snake.drop_last(), k) + if snake.last().y
            * width + snake.last().x < k {
            1nat
        } else {
            0nat
        },
    decreases k,
{
    if k > 0 {
        lemma_occupied_drop_last(width, height, snake, (k - 1) as nat);
        let c = snake.last();
        let d = snake.drop_last();
        let e = cell_at(width, k - 1);
        lemma_cell_index(width, height, k - 1, c);
        assert(snake =~= d.push(c));
        if snake.contains(e) && e != c {
            let m = choose|m: int| 0 <= m < snake.len() && snake[m] == e;
            assert(d[m] == e);
        }
        if d.contains(e) {
            let m = choose|m: int| 0 <= m < d.len() && d[m] == e;
            assert(snake[m] == e);
            if e == c {
                assert(snake[snake.len() - 1] == e);
            }
        }
        if e == c {
            assert(snake[snake.len() - 1] == e);
        }
    }
}

/// A snake of distinct cells on the board occupies as many cells as it has
/// segments.
proof fn lemma_occupied_all(width: int, height: int, snake: Seq<Coord>)
    requires
        1 <= width <= 255,
        1 <= height <= 255,
        snake.no_duplicates(),
        forall|i: int| 0 <= i < snake.len() ==> in_bounds(#[trigger] snake[i], width, height),
    ensures
        occupied_count(width, snake, (width * height) as nat) == snake.len(),
    decreases snake.len(),
{
    assert(1 <= width * height) by (nonlinear_arith)
        requires 1 <= width, 1 <= height;
    if snake.len() == 0 {
        assert forall|k: nat| k <= width * height implies occupied_count(width, snake, k) == 0 by {
            lemma_occupied_empty(width, snake, k);
        }
    } else {
        let d = snake.drop_last();
        assert(d.no_duplicates()) by {
            assert forall|i: int, j: int| 0 <= i < d.len() && 0 <= j < d.len() && i != j implies d[i]
                != d[j] by {
                assert(d[i] == snake[i] && d[j] == snake[j]);
            }
        }
        assert forall|i: int| 0 <= i < d.len() implies in_bounds(#[trigger] d[i], width, height) by {
            assert(d[i] == snake[i]);
        }
        lemma_occupied_all(width, height, d);
        assert(in_bounds(snake[snake.len() - 1], width, height));
        lemma_cell_index(width, height, 0, snake.last());
        lemma_occupied_drop_last(width, height, snake, (width * height) as nat);
    }
}

/// An empty snake occupies nothing.
proof fn lemma_occupied_empty(width: int, snake: Seq<Coord>, k: nat)
    requires
        snake.len() == 0,
    ensures
        occupied_count(width, snake, k) == 0,
    decreases k,
{
    if k > 0 {
        lemma_occupied_empty(width, snake, (k - 1) as nat);
    }
}

/// On a board, a snake of distinct cells leaves free all cells but its own.
pub proof fn lemma_free_cells_count(width: int, height: int, snake: Seq<Coord>)
    requires
        1 <= width <= 255,
        1 <= height <= 255,
        snake.no_duplicates(),
        forall|i: int| 0 <= i < snake.len() ==> in_bounds(#[trigger] snake[i], width, height),
    ensures
        free_cells(width, height, snake).len() == width * height - snake.len(),
{
    assert(1 <= width * height) by (nonlinear_arith)
        requires 1 <= width, 1 <= height;
    lemma_free_plus_occupied(width, snake, (width * height) as nat);
    lemma_occupied_all(width, height, snake);
}

/// Whether the first `end` elements of `v` hold `c`.
pub fn contains_coord_before(v: &Vec<Coord>, c: &Coord, end: usize) -> (r: bool)
    requires
        end <= v.len(),
    ensures
        r == v@.subrange(0, end as int).contains(*c),
{
    let mut i: usize = 0;
    while i < end
        invariant
            0 <= i <= end <= v.len(),
            forall|j: int| 0 <= j < i ==> v@[j] != *c,
        decreases end - i,
    {
        if v[i] == *c {
            assert(v@.subrange(0, end as int)[i as int] == *c);
            return true;
        }
        i = i + 1;
    }
    assert forall|j: int| 0 <= j < end implies v@.subrange(0, end as int)[j] != *c by {
        assert(v@.subrange(0, end as int)[j] == v@[j]);
    }
    false
}

/// Whether `v` holds `c`.
pub fn contains_coord(v: &Vec<Coord>, c: &Coord) -> (r: bool)
    ensures
        r == v@.contains(*c),
{
    let r = contains_coord_before(v, c, v.len());
    assert(v@.subrange(0, v@.len() as int) =~= v@);
    r
}

/// The row-major position of a cell on the board is the one position at
/// which `cell_at` gives that cell.
proof fn lemma_cell_index(width: int, height: int, i: int, c: Coord)
    requires
        1 <= width <= 255,
        0 <= height <= 255,
        0 <= i < width * height,
        in_bounds(c, width, height),
    ensures
        (cell_at(width, i) == c) <==> (i == c.y * width + c.x),
        0 <= c.y * width + c.x < width * height,
{
    let (x, y) = (c.x as int, c.y as int);
    assert(0 <= y * width + x < width * height) by (nonlinear_arith)
        requires
            0 <= x < width,
            0 <= y < height,
    ;
    lemma_cell_at_in_bounds(width, height, i);
    if i == y * width + x {
        lemma_fundamental_div_mod_converse(i, width, y, x);
    }
    if cell_at(width, i) == c {
        assert(i == width * (i / width) + i % width) by (nonlinear_arith)
            requires width > 0;
        assert(width * y == y * width) by (nonlinear_arith);
    }
}

/// Every cell of a `width` by `height` board that `snake` does not occupy,
/// in row-major order. Each segment is looked at once, and each cell once.
pub fn free_cells_of(snake: &Vec<Coord>, width: u8, height: u8) -> (r: Vec<Coord>)
    requires
        1 <= width,
        1 <= height,
    ensures
        r@ == free_cells(width as int, height as int, snake@),
{
    let w = width as usize;
    let h = height as usize;
    assert(w * h <= 255 * 255) by (nonlinear_arith)
        requires 1 <= w <= 255, h <= 255;
    let n = w * h;
    // occupied[i]: whether the snake covers the i-th cell in row-major order
    let mut occupied: Vec<bool> = Vec::new();
    let mut i: usize = 0;
    while i < n
        invariant
            0 <= i <= n,
            occupied@.len() == i,
            forall|k: int| 0 <= k < i ==> !occupied@[k],
        decreases n - i,
    {
        occupied.push(false);
        i = i + 1;
    }
    let mut j: usize = 0;
    while j < snake.len()
        invariant
            w == width,
            h == height,
            1 <= w,
            n == w * h,
            n <= 255 * 255,
            0 <= j <= snake.len(),
            occupied@.len() == n,
            forall|k: int|
                0 <= k < n ==> occupied@[k] == snake@.subrange(0, j as int).contains(
                    #[trigger] cell_at(width as int, k),
                ),
        decreases snake.len() - j,
    {
        let s = snake[j];
        let ghost before = occupied@;
        let on_board = 0 <= s.x && s.x < w as isize && 0 <= s.y && s.y < h as isize;
        if on_board {
            proof {
                assert(1 <= w * h) by (nonlinear_arith)
                    requires 1 <= w, 1 <= h;
                lemma_cell_index(width as int, height as int, 0, s);
            }
            let idx = (s.y as usize) * w + (s.x as usize);
            occupied.set(idx, true);
        }
        proof {
            assert forall|k: int| 0 <= k < n implies occupied@[k] == snake@.subrange(
                0,
                j + 1,
            ).contains(#[trigger] cell_at(width as int, k)) by {
                let c = cell_at(width as int, k);
                let pre = snake@.subrange(0, j as int);
                let post = snake@.subrange(0, j + 1);
                assert(post =~= pre.push(s));
                assert(post.contains(c) <==> (pre.contains(c) || c == s)) by {
                    if post.contains(c) && c != s {
                        let m = choose|m: int| 0 <= m < post.len() && post[m] == c;
                        assert(pre[m] == c);
                    }
                    if pre.contains(c) {
                        let m = choose|m: int| 0 <= m < pre.len() && pre[m] == c;
                        assert(post[m] == c);
                    }
                    if c == s {
                        assert(post[j as int] == c);
                    }
                }
                lemma_cell_at_in_bounds(width as int, height as int, k);
                if on_board {
                    lemma_cell_index(width as int, height as int, k, s);
                }
            }
        }
        j = j + 1;
    }
    assert(snake@.subrange(0, snake@.len() as int) =~= snake@);
    let mut out: Vec<Coord> = Vec::new();
    let mut i: usize = 0;
    while i < n
        invariant
            w == width,
            1 <= w,
            n == w * height,
            height <= 255,
            0 <= i <= n,
            occupied@.len() == n,
            forall|k: int|
                0 <= k < n ==> occupied@[k] == snake@.contains(#[trigger] cell_at(width as int, k)),
            out@ == free_prefix(width as int, snake@, i as nat),
        decreases n - i,
    {
        proof {
            lemma_cell_at_in_bounds(width as int, height as int, i as int);
        }
        let c = Coord { x: (i % w) as isize, y: (i / w) as isize };
        assert(c == cell_at(width as int, i as int));
        if !occupied[i] {
            out.push(c);
        }
        i = i + 1;
    }
    out
}

/// Relies on rand's `thread_rng().gen_range(0..n)`: a value drawn uniformly
/// from `[0, n)`. It panics on an empty range, hence `n > 0`.
#[verifier::external_body]
pub(crate) fn random_index(n: usize) -> (r: usize)
    requires
        n > 0,
    ensures
        r < n,
{
    rand::thread_rng().gen_range(0..n)
}

} // verus!
