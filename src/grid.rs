use vstd::prelude::*;
use vstd::arithmetic::div_mod::{
    lemma_fundamental_div_mod,
    lemma_fundamental_div_mod_converse_div,
    lemma_fundamental_div_mod_converse_mod,
};

verus! {

/// One of the four headings in which the snake can move.
#[derive(Clone, Copy, Debug, PartialEq, Eq, Structural)]
pub enum Direction {
    UP,
    DOWN,
    LEFT,
    RIGHT,
}

/// The heading that undoes a step in `d`.
pub open spec fn opposite(d: Direction) -> Direction {
    match d {
        Direction::UP => Direction::DOWN,
        Direction::DOWN => Direction::UP,
        Direction::LEFT => Direction::RIGHT,
        Direction::RIGHT => Direction::LEFT,
    }
}

/// The cell reached from `index` by one step in `direction` on a
/// `width × width` grid stored row by row, where a step off one edge comes
/// back on at the opposite edge.
pub open spec fn neighbor(width: int, index: int, direction: Direction) -> int {
    let row = index / width;
    let col = index % width;
    match direction {
        Direction::UP => if row == 0 { (width - 1) * width + col } else { index - width },
        Direction::DOWN => if row == width - 1 { col } else { index + width },
        Direction::LEFT => if col == 0 { index + width - 1 } else { index - 1 },
        Direction::RIGHT => if col == width - 1 { index - (width - 1) } else { index + 1 },
    }
}

/// Row and column of a cell: `index == row * width + col`, both in `[0, width)`.
proof fn lemma_row_col(width: int, index: int)
    requires
        0 < width,
        0 <= index < width * width,
    ensures
        index == (index / width) * width + index % width,
        0 <= index % width < width,
        0 <= index / width < width,
        index / width == 0 <==> index < width,
        index / width == width - 1 <==> index >= width * width - width,
{
    lemma_fundamental_div_mod(index, width);
    let row = index / width;
    let col = index % width;
    assert(index == row * width + col) by (nonlinear_arith)
        requires index == width * row + col;
    assert(0 <= row < width) by (nonlinear_arith)
        requires index == row * width + col, 0 <= col < width, 0 <= index < width * width, 0 < width;
    assert(row == 0 <==> index < width) by (nonlinear_arith)
        requires index == row * width + col, 0 <= col < width, 0 <= row, 0 < width;
    assert(row == width - 1 <==> index >= width * width - width) by (nonlinear_arith)
        requires index == row * width + col, 0 <= col < width, 0 <= row < width, 0 < width;
}

/// The cell at `row`, `col` has that row and column.
proof fn lemma_cell_at(width: int, row: int, col: int)
    requires
        0 < width,
        0 <= row,
        0 <= col < width,
    ensures
        (row * width + col) / width == row,
        (row * width + col) % width == col,
{
    lemma_fundamental_div_mod_converse_div(row * width + col, width, row, col);
    lemma_fundamental_div_mod_converse_mod(row * width + col, width, row, col);
}

/// Every step stays on the grid.
pub proof fn lemma_neighbor_in_grid(width: int, index: int, direction: Direction)
    requires
        0 < width,
        0 <= index < width * width,
    ensures
        0 <= neighbor(width, index, direction) < width * width,
{
    lemma_row_col(width, index);
    let row = index / width;
    let col = index % width;
    assert((width - 1) * width + col < width * width) by (nonlinear_arith)
        requires 0 <= col < width;
    assert(0 <= (width - 1) * width) by (nonlinear_arith)
        requires 0 < width;
    assert(row * width + width <= width * width) by (nonlinear_arith)
        requires 0 <= row < width;
}

/// A step followed by a step in the opposite heading comes back to the
/// starting cell: up then down, down then up, left then right and right then
/// left are each the identity on the grid.
pub proof fn lemma_neighbor_round_trip(width: int, index: int, direction: Direction)
    requires
        0 < width,
        0 <= index < width * width,
    ensures
        neighbor(width, neighbor(width, index, direction), opposite(direction)) == index,
{
    lemma_row_col(width, index);
    let row = index / width;
    let col = index % width;
    match direction {
        Direction::UP => {
            if row == 0 {
                lemma_cell_at(width, width - 1, col);
            } else {
                assert(index - width == (row - 1) * width + col) by (nonlinear_arith)
                    requires index == row * width + col;
                lemma_cell_at(width, row - 1, col);
            }
        },
        Direction::DOWN => {
            if row == width - 1 {
                lemma_cell_at(width, 0, col);
                assert((width - 1) * width + col == index);
            } else {
                assert(index + width == (row + 1) * width + col) by (nonlinear_arith)
                    requires index == row * width + col;
                lemma_cell_at(width, row + 1, col);
            }
        },
        Direction::LEFT => {
            if col == 0 {
                lemma_cell_at(width, row, width - 1);
            } else {
                lemma_cell_at(width, row, col - 1);
            }
        },
        Direction::RIGHT => {
            if col == width - 1 {
                lemma_cell_at(width, row, 0);
            } else {
                lemma_cell_at(width, row, col + 1);
            }
        },
    }
}

/// The cell reached from `index` by one step in `direction`, on a grid of
/// `width` columns and `size == width * width` cells.
pub fn neighbor_index(width: usize, size: usize, index: usize, direction: Direction) -> (r: usize)
    requires
        0 < width,
        size == width * width,
        index < size,
    ensures
        r == neighbor(width as int, index as int, direction),
        r < size,
{
    proof {
        lemma_row_col(width as int, index as int);
        lemma_neighbor_in_grid(width as int, index as int, direction);
        assert(width <= size) by (nonlinear_arith)
            requires 0 < width, size == width * width;
        assert((width - 1) * width == size - width) by (nonlinear_arith)
            requires size == width * width;
        assert((index / width) * width + width <= size) by (nonlinear_arith)
            requires 0 <= index / width < width, size == width * width;
    }
    let row = index / width;
    let row_start = row * width;
    let col = index - row_start;
    match direction {
        Direction::UP => {
            if index < width {
                size - width + col
            } else {
                index - width
            }
        },
        Direction::DOWN => {
            if index >= size - width {
                col
            } else {
                index + width
            }
        },
        Direction::LEFT => {
            if index == row_start {
                index + width - 1
            } else {
                index - 1
            }
        },
        Direction::RIGHT => {
            if index + 1 == row_start + width {
                row_start
            } else {
                index + 1
            }
        },
    }
}

} // verus!
