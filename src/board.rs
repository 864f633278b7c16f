use vstd::prelude::*;

use crate::coord::Coord;
use crate::food::contains_coord;
use crate::game::{Game, GameView};

verus! {

/// What a cell of the rendered board shows.
#[derive(Clone, Copy, PartialEq, Eq, Debug, Structural)]
pub enum Tile {
    SNAKE,
    FOOD,
    AIR,
    WALL,
}

/// The tile at `row`, `col` of the board drawn with a wall around it: row 0,
/// column 0 and the last row and column are wall, and board cell `(x, y)`
/// stands at row `y + 1`, column `x + 1`.
pub open spec fn tile_at(v: GameView, row: int, col: int) -> Tile {
    if row == 0 || row == v.height + 1 || col == 0 || col == v.width + 1 {
        Tile::WALL
    } else {
        let c = Coord { x: (col - 1) as isize, y: (row - 1) as isize };
        if v.food == Some(c) {
            Tile::FOOD
        } else if v.snake.contains(c) {
            Tile::SNAKE
        } else {
            Tile::AIR
        }
    }
}

impl Game {
    /// The tile at `row`, `col` of the walled board.
    pub fn tile(&self, row: usize, col: usize) -> (r: Tile)
        requires
            row <= self@.height + 1,
            col <= self@.width + 1,
        ensures
            r == tile_at(self@, row as int, col as int),
    {
        let w = self.width() as usize;
        let h = self.height() as usize;
        if row == 0 || row == h + 1 || col == 0 || col == w + 1 {
            return Tile::WALL;
        }
        let c = Coord { x: (col - 1) as isize, y: (row - 1) as isize };
        if self.food() == Some(c) {
            Tile::FOOD
        } else if contains_coord(self.snake(), &c) {
            Tile::SNAKE
        } else {
            Tile::AIR
        }
    }

    /// The whole walled board, row by row: `height + 2` rows of `width + 2`
    /// tiles.
    pub fn tiles(&self) -> (r: Vec<Vec<Tile>>)
        ensures
            r@.len() == self@.height + 2,
            forall|row: int|
                0 <= row < r@.len() ==> {
                    &&& (#[trigger] r@[row])@.len() == self@.width + 2
                    &&& forall|col: int|
                        0 <= col < self@.width + 2 ==> r@[row]@[col] == tile_at(
                            self@,
                            row,
                            col,
                        )
                },
    {
        let rows = self.height() as usize + 2;
        let cols = self.width() as usize + 2;
        let mut out: Vec<Vec<Tile>> = Vec::new();
        let mut row: usize = 0;
        while row < rows
            invariant
                rows == self@.height + 2,
                cols == self@.width + 2,
                row <= rows,
                out@.len() == row,
                forall|i: int|
                    0 <= i < row ==> {
                        &&& (#[trigger] out@[i])@.len() == cols
                        &&& forall|col: int|
                            0 <= col < cols ==> out@[i]@[col] == tile_at(self@, i, col)
                    },
            decreases rows - row,
        {
            let mut line: Vec<Tile> = Vec::new();
            let mut col: usize = 0;
            while col < cols
                invariant
                    rows == self@.height + 2,
                    cols == self@.width + 2,
                    row < rows,
                    col <= cols,
                    line@.len() == col,
                    forall|j: int| 0 <= j < col ==> line@[j] == tile_at(self@, row as int, j),
                decreases cols - col,
            {
                line.push(self.tile(row, col));
                col = col + 1;
            }
            out.push(line);
            row = row + 1;
        }
        out
    }
}

} // verus!
