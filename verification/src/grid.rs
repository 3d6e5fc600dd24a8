//! The wrapped table: items laid out row by row in a grid of a given width.

use vstd::prelude::*;
use vstd::arithmetic::div_mod::lemma_fundamental_div_mod;

verus! {

/// A grid of `width` columns holding `item_count` items, row by row.
#[derive(Debug, Clone, Copy, PartialEq, Eq, Structural)]
pub struct TableDataImpl {
    pub width: usize,
    pub item_count: usize,
}

/// The number of rows needed for `len` items in rows of `width`: one when
/// they fit in a single row, otherwise enough rows to hold them all.
pub open spec fn grid_height(len: nat, width: nat) -> nat {
    if len <= width {
        1
    } else {
        let h = len / width;
        if len % width > 0 {
            h + 1
        } else {
            h
        }
    }
}

/// The position in the item list of the cell at `row` and `col`.
pub open spec fn cell_index(width: nat, row: nat, col: nat) -> nat {
    width * row + col
}

impl TableDataImpl {
    /// The number of rows of the grid.
    pub fn height(&self) -> (r: usize)
        requires
            self.width > 0 || self.item_count == 0,
        ensures
            r == grid_height(self.item_count as nat, self.width as nat),
    {
        let len = self.item_count;
        if len <= self.width {
            1
        } else {
            let mut height = len / self.width;
            if len % self.width > 0 {
                proof {
                    lemma_fundamental_div_mod(len as int, self.width as int);
                    assert(self.width >= 2);
                    assert(height < len) by (nonlinear_arith)
                        requires
                            len == self.width * height + len % self.width,
                            len % self.width >= 0,
                            self.width >= 2,
                            len > 0,
                    ;
                }
                height = height + 1;
            }
            height
        }
    }

    /// The item shown in the cell at `row` and `col`, if there is one.
    pub fn cell_item(&self, row: usize, col: usize) -> (r: Option<usize>)
        requires
            self.width * row + col <= u64::MAX,
            self.width * row + col <= usize::MAX,
        ensures
            r == (if cell_index(self.width as nat, row as nat, col as nat) < self.item_count {
                Some(cell_index(self.width as nat, row as nat, col as nat) as usize)
            } else {
                None::<usize>
            }),
    {
        let raw = get_id_raw(self.width as u64, row as u64, col as u64);
        if raw < self.item_count {
            Some(raw)
        } else {
            None
        }
    }
}

/// The position in the item list of the cell at `row` and `col` of a grid of
/// `width` columns.
pub fn get_id_raw(width: u64, row: u64, col: u64) -> (r: usize)
    requires
        width * row + col <= u64::MAX,
        width * row + col <= usize::MAX,
    ensures
        r == cell_index(width as nat, row as nat, col as nat),
{
    proof {
        assert(width * row <= u64::MAX) by (nonlinear_arith)
            requires
                width * row + col <= u64::MAX,
                col >= 0,
        ;
    }
    (width * row + col) as usize
}

/// Every item has its cell: item `i` of `len` sits at row `i / width` and
/// column `i % width`, and that row is within the grid's height.
pub proof fn law_every_item_has_a_cell(len: nat, width: nat, i: nat)
    requires
        width > 0,
        i < len,
    ensures
        cell_index(width, i / width, i % width) == i,
        i % width < width,
        i / width < grid_height(len, width),
{
    lemma_fundamental_div_mod(i as int, width as int);
    lemma_fundamental_div_mod(len as int, width as int);
    assert(width * (i / width) + i % width == i);
    if len <= width {
        assert(i / width == 0) by (nonlinear_arith)
            requires
                i < width,
                width > 0,
        ;
    } else {
        assert(i / width <= len / width) by (nonlinear_arith)
            requires
                i < len,
                width > 0,
        ;
        if len % width == 0 {
            assert(i / width < len / width) by (nonlinear_arith)
                requires
                    i < len,
                    width > 0,
                    len % width == 0,
                    len == width * (len / width) + len % width,
                    i == width * (i / width) + i % width,
                    i % width < width,
            ;
        }
    }
}

/// Every cell of the grid below its height that is not past the last row's
/// items holds an item: a cell's position is below the item count exactly
/// when it names an item.
pub proof fn law_cells_in_grid_fit(len: nat, width: nat, row: nat, col: nat)
    requires
        width > 0,
        len > width,
        col < width,
        row < grid_height(len, width),
    ensures
        cell_index(width, row, col) < width * grid_height(len, width),
        len <= width * grid_height(len, width),
{
    lemma_fundamental_div_mod(len as int, width as int);
    let h = grid_height(len, width);
    assert(width * row + col < width * h) by (nonlinear_arith)
        requires
            row < h,
            col < width,
            width > 0,
    ;
    assert(len <= width * h) by (nonlinear_arith)
        requires
            len == width * (len / width) + len % width,
            len % width < width,
            h == (if len % width > 0 { len / width + 1 } else { len / width }),
            width > 0,
    ;
}

} // verus!
