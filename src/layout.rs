//! Where the dice of a roll go on the display: a near-square grid of square
//! cells, as large as the display allows, centred.
use vstd::prelude::*;

verus! {

/// The rows that `n` entries take in `columns` columns.
pub open spec fn rows_for(n: nat, columns: nat) -> nat {
    ((n + columns - 1) / (columns as int)) as nat
}

/// The side of the largest square cell with which `n` entries fit a
/// `width` by `height` area in `columns` columns.
pub open spec fn side_for(n: nat, width: nat, height: nat, columns: nat) -> nat {
    let w = width / columns;
    let h = height / rows_for(n, columns);
    if w <= h {
        w
    } else {
        h
    }
}

/// `(columns, rows, side)` is the grid for `n` entries on a `width` by
/// `height` area: no number of columns gives larger cells, and the fewest
/// columns that give cells of that side are taken; when no cell is at least
/// a pixel large, a single column.
pub open spec fn is_best_grid(n: nat, width: nat, height: nat, grid: (u32, u32, u32)) -> bool {
    let (columns, rows, side) = grid;
    if n == 0 {
        grid == (1u32, 0u32, 0u32)
    } else {
        &&& forall|c: nat| 1 <= c <= n ==> side_for(n, width, height, c) <= side
        &&& side == 0 ==> columns == 1 && rows == n
        &&& side > 0 ==> {
            &&& 1 <= columns <= n
            &&& rows == rows_for(n, columns as nat)
            &&& side == side_for(n, width, height, columns as nat)
            &&& forall|c: nat| 1 <= c < columns ==> side_for(n, width, height, c) < side
        }
    }
}

/// A square area of the display, by its top left corner and its side.
#[derive(Clone, Copy, Debug, PartialEq, Eq, Structural)]
pub struct Cell {
    pub x: u32,
    pub y: u32,
    pub side: u32,
}

/// The cell of entry `k` in the grid `(columns, rows, side)`, centred on a
/// `width` by `height` area. Entries fill the grid column by column.
pub open spec fn cell_at(k: nat, width: nat, height: nat, grid: (u32, u32, u32)) -> (int, int, int) {
    let (columns, rows, side) = grid;
    (
        side * ((k as int) / (rows as int)) + (width - side * columns) / 2,
        side * ((k as int) % (rows as int)) + (height - side * rows) / 2,
        side as int,
    )
}

proof fn lemma_rows_bounds(n: nat, c: nat)
    requires
        1 <= c <= n,
    ensures
        1 <= rows_for(n, c) <= n,
        rows_for(n, c) * c >= n,
{
    assert(1 <= rows_for(n, c) <= n) by (nonlinear_arith)
        requires
            1 <= c <= n,
            rows_for(n, c) == (n + c - 1) / (c as int),
    ;
    assert(rows_for(n, c) * c >= n) by (nonlinear_arith)
        requires
            1 <= c <= n,
            rows_for(n, c) == (n + c - 1) / (c as int),
    ;
}

/// Finds the grid for `number_of_entries` square cells on a `width` by
/// `height` area: the number of columns, of rows, and the side of a cell.
pub fn find_best_grid(number_of_entries: u32, width: u32, height: u32) -> (r: (u32, u32, u32))
    ensures
        is_best_grid(number_of_entries as nat, width as nat, height as nat, r),
{
    let n = number_of_entries as u64;
    let mut best_size: u32 = 0;
    let mut best_columns: u32 = 1;
    let mut best_rows: u32 = number_of_entries;
    let mut columns: u64 = 1;
    while columns <= n
        invariant
            n == number_of_entries,
            1 <= columns <= n + 1,
            forall|c: nat|
                1 <= c < columns ==> side_for(n as nat, width as nat, height as nat, c)
                    <= best_size,
            best_size == 0 ==> best_columns == 1 && best_rows == n,
            best_size > 0 ==> {
                &&& 1 <= best_columns < columns
                &&& best_rows == rows_for(n as nat, best_columns as nat)
                &&& best_size == side_for(n as nat, width as nat, height as nat, best_columns as nat)
                &&& forall|c: nat|
                    1 <= c < best_columns ==> side_for(n as nat, width as nat, height as nat, c)
                        < best_size
            },
        decreases n + 1 - columns,
    {
        proof {
            lemma_rows_bounds(n as nat, columns as nat);
        }
        let rows = (n + columns - 1) / columns;
        let max_width_size = width / (columns as u32);
        let max_height_size = height / (rows as u32);
        let size = if max_width_size <= max_height_size {
            max_width_size
        } else {
            max_height_size
        };
        assert(size == side_for(n as nat, width as nat, height as nat, columns as nat));
        if size > best_size {
            best_size = size;
            best_columns = columns as u32;
            best_rows = rows as u32;
        }
        columns = columns + 1;
    }
    (best_columns, best_rows, best_size)
}

/// The cells of `number_of_dice` dice on a `width` by `height` display: the
/// grid of `find_best_grid`, centred, filled column by column.
pub fn grid_cells(number_of_dice: u32, width: u32, height: u32) -> (r: Vec<Cell>)
    ensures
        r@.len() == number_of_dice,
        forall|grid: (u32, u32, u32), k: int|
            #![trigger is_best_grid(number_of_dice as nat, width as nat, height as nat, grid), r@[k]]
            is_best_grid(number_of_dice as nat, width as nat, height as nat, grid) && 0 <= k
                < number_of_dice ==> (r@[k].x as int, r@[k].y as int, r@[k].side as int)
                == cell_at(k as nat, width as nat, height as nat, grid),
{
    let grid = find_best_grid(number_of_dice, width, height);
    let (columns, rows, side) = grid;
    proof {
        lemma_best_grid_unique(number_of_dice as nat, width as nat, height as nat, grid);
    }
    let mut cells: Vec<Cell> = Vec::new();
    if number_of_dice == 0 {
        return cells;
    }
    proof {
        lemma_grid_fits(number_of_dice as nat, width as nat, height as nat, grid);
    }
    let column_excess = (width - side * columns) / 2;
    let row_excess = (height - side * rows) / 2;
    let mut k: u32 = 0;
    while k < number_of_dice
        invariant
            grid == (columns, rows, side),
            is_best_grid(number_of_dice as nat, width as nat, height as nat, grid),
            1 <= rows,
            side * columns <= width,
            side * rows <= height,
            number_of_dice <= columns * rows,
            column_excess == (width - side * columns) / 2,
            row_excess == (height - side * rows) / 2,
            k <= number_of_dice,
            cells@.len() == k,
            forall|i: int|
                0 <= i < k ==> (cells@[i].x as int, cells@[i].y as int, cells@[i].side as int)
                    == cell_at(i as nat, width as nat, height as nat, grid),
        decreases number_of_dice - k,
    {
        let i = k / rows;
        let j = k % rows;
        proof {
            lemma_cell_fits(k as nat, columns as nat, rows as nat, side as nat, width as nat, height as nat);
        }
        let x = side * i + column_excess;
        let y = side * j + row_excess;
        cells.push(Cell { x, y, side });
        k = k + 1;
    }
    cells
}

/// The grid that `is_best_grid` describes is the only one.
proof fn lemma_best_grid_unique(n: nat, width: nat, height: nat, grid: (u32, u32, u32))
    requires
        is_best_grid(n, width, height, grid),
    ensures
        forall|other: (u32, u32, u32)| #[trigger] is_best_grid(n, width, height, other) ==> other == grid,
{
    assert forall|other: (u32, u32, u32)| #[trigger] is_best_grid(n, width, height, other) implies other == grid by {
        lemma_best_grid_same(n, width, height, grid, other);
    }
}

proof fn lemma_best_grid_same(n: nat, width: nat, height: nat, grid: (u32, u32, u32), other: (u32, u32, u32))
    requires
        is_best_grid(n, width, height, grid),
        is_best_grid(n, width, height, other),
    ensures
        other == grid,
{
    if n > 0 {
        let (c1, r1, s1) = grid;
        let (c2, r2, s2) = other;
        assert(side_for(n, width, height, c2 as nat) <= s1 || s2 == 0);
        assert(s1 == s2);
        if s1 > 0 {
            if c1 < c2 {
                assert(side_for(n, width, height, c1 as nat) < s2);
            }
            if c2 < c1 {
                assert(side_for(n, width, height, c2 as nat) < s1);
            }
        }
    }
}

proof fn lemma_grid_fits(n: nat, width: nat, height: nat, grid: (u32, u32, u32))
    requires
        n > 0,
        is_best_grid(n, width, height, grid),
    ensures
        1 <= grid.1,
        grid.2 * grid.0 <= width,
        grid.2 * grid.1 <= height,
        n <= grid.0 * grid.1,
{
    let (columns, rows, side) = grid;
    if side > 0 {
        lemma_rows_bounds(n, columns as nat);
        let c = columns as nat;
        let r = rows as nat;
        let s = side as nat;
        assert(s <= width / c);
        assert(s <= height / r);
        assert(s * c <= width) by (nonlinear_arith)
            requires
                s <= width / c,
                c >= 1,
        ;
        assert(s * r <= height) by (nonlinear_arith)
            requires
                s <= height / r,
                r >= 1,
        ;
        assert(r * c == c * r) by (nonlinear_arith);
    } else {
        assert(side * rows == 0 && side * columns == 0) by (nonlinear_arith)
            requires
                side == 0,
        ;
        assert(columns * rows == rows) by (nonlinear_arith)
            requires
                columns == 1,
        ;
    }
}

proof fn lemma_mul_le(a: nat, b: nat, c: nat)
    requires
        b <= c,
    ensures
        a * b <= a * c,
{
    assert(a * b <= a * c) by (nonlinear_arith)
        requires
            b <= c,
            a >= 0,
    ;
}

proof fn lemma_cell_fits(k: nat, columns: nat, rows: nat, side: nat, width: nat, height: nat)
    requires
        rows >= 1,
        k < columns * rows,
        side * columns <= width,
        side * rows <= height,
        width <= u32::MAX,
        height <= u32::MAX,
    ensures
        side * (k / rows) <= side * columns,
        side * (k % rows) <= side * rows,
        side * (k / rows) + (width - side * columns) / 2 <= u32::MAX,
        side * (k % rows) + (height - side * rows) / 2 <= u32::MAX,
{
    assert(k / rows < columns) by (nonlinear_arith)
        requires
            rows >= 1,
            k < columns * rows,
    ;
    let q = k / rows;
    lemma_mul_le(side, q, columns);
    assert(k % rows < rows) by (nonlinear_arith)
        requires
            rows >= 1,
    ;
    let m = k % rows;
    lemma_mul_le(side, m, rows);
}

} // verus!
