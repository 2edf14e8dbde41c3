//! The arithmetic of cutting an image into square tiles, and the proof
//! that the tiles cover the image exactly once.

use vstd::prelude::*;

verus! {

/// How many tiles of side `tile` it takes to span `extent`: the quotient
/// rounded up.
pub open spec fn tiles_across(extent: int, tile: int) -> int {
    if tile <= 0 {
        0
    } else {
        (extent + tile - 1) / tile
    }
}

/// The length of the tile at position `k` along an axis of length `extent`:
/// the tile size, cut off at the edge.
pub open spec fn tile_span(extent: int, tile: int, k: int) -> int {
    if (k + 1) * tile <= extent {
        tile
    } else {
        extent - k * tile
    }
}

/// The tile in column `col` and row `row`, as `(x, y, width, height)`.
pub open spec fn tile_at(width: int, height: int, tile: int, col: int, row: int) -> (
    u32,
    u32,
    u32,
    u32,
) {
    (
        (col * tile) as u32,
        (row * tile) as u32,
        tile_span(width, tile, col) as u32,
        tile_span(height, tile, row) as u32,
    )
}

/// All tiles of a `width` x `height` image, row by row, each row from the
/// left.
pub open spec fn tiling(width: int, height: int, tile: int) -> Seq<(u32, u32, u32, u32)> {
    let cols = tiles_across(width, tile);
    let rows = tiles_across(height, tile);
    Seq::new((rows * cols) as nat, |i: int| tile_at(width, height, tile, i % cols, i / cols))
}

/// Whether the pixel `(px, py)` lies in the rectangle `t`.
pub open spec fn tile_contains(t: (u32, u32, u32, u32), px: int, py: int) -> bool {
    &&& t.0 <= px < t.0 + t.2
    &&& t.1 <= py < t.1 + t.3
}

/// The position of the tile that holds `(px, py)` in [`tiling`].
pub open spec fn tile_index_of(width: int, tile: int, px: int, py: int) -> int {
    (py / tile) * tiles_across(width, tile) + px / tile
}

/// Multiplication by a successor.
pub proof fn lemma_mul_succ(k: int, t: int)
    ensures
        (k + 1) * t == k * t + t,
{
    assert((k + 1) * t == k * t + t) by (nonlinear_arith);
}

/// Position `k` is one of the tiles along an axis exactly if it starts
/// inside the axis.
pub proof fn lemma_tiles_across(extent: int, tile: int, k: int)
    requires
        tile > 0,
        extent >= 0,
    ensures
        k < tiles_across(extent, tile) <==> k * tile < extent,
        0 <= tiles_across(extent, tile) <= extent,
{
    let t = tile;
    let e = extent;
    let n = (e + t - 1) / t;
    let m = (e + t - 1) % t;
    vstd::arithmetic::div_mod::lemma_fundamental_div_mod(e + t - 1, t);
    vstd::arithmetic::div_mod::lemma_mod_bound(e + t - 1, t);
    vstd::arithmetic::div_mod::lemma_div_pos_is_pos(e + t - 1, t);
    assert(e + t - 1 == t * n + m);
    assert(0 <= n);
    assert(t * n <= e + t - 1 < t * n + t);
    let kk = k;
    if kk < n {
        assert(kk * t <= (n - 1) * t) by (nonlinear_arith)
            requires
                kk <= n - 1,
                t >= 0,
        ;
        assert((n - 1) * t == t * n - t) by (nonlinear_arith);
    } else {
        assert(n * t <= kk * t) by (nonlinear_arith)
            requires
                n <= kk,
                t >= 0,
        ;
        assert(n * t == t * n) by (nonlinear_arith);
    }
    assert(n <= e) by (nonlinear_arith)
        requires
            t * n <= e + t - 1,
            t >= 1,
            n >= 0,
            e >= 0,
    ;
}

/// The tile at a position that exists lies inside the axis, is not empty
/// and is no longer than the tile size.
pub proof fn lemma_tile_span(extent: int, tile: int, k: int)
    requires
        tile > 0,
        extent >= 0,
        0 <= k < tiles_across(extent, tile),
    ensures
        0 < tile_span(extent, tile, k) <= tile,
        k * tile + tile_span(extent, tile, k) <= extent,
        k + 1 < tiles_across(extent, tile) ==> tile_span(extent, tile, k) == tile,
        k + 1 == tiles_across(extent, tile) ==> k * tile + tile_span(extent, tile, k) == extent,
{
    lemma_tiles_across(extent, tile, k);
    lemma_tiles_across(extent, tile, k + 1);
    lemma_mul_succ(k, tile);
}

/// Splits a position in [`tiling`] into its column and row.
pub proof fn lemma_tile_position(cols: int, col: int, row: int)
    requires
        0 <= col < cols,
    ensures
        (row * cols + col) % cols == col,
        (row * cols + col) / cols == row,
{
    vstd::arithmetic::div_mod::lemma_fundamental_div_mod_converse(
        row * cols + col,
        cols,
        row,
        col,
    );
}

/// Splits a position in [`tiling`] into a column and a row that exist.
pub proof fn lemma_tile_position_of_index(cols: int, rows: int, j: int)
    requires
        0 <= j < rows * cols,
        0 <= cols,
        0 <= rows,
    ensures
        0 <= j % cols < cols,
        0 <= j / cols < rows,
        j == (j / cols) * cols + j % cols,
{
    assert(cols > 0) by (nonlinear_arith)
        requires
            0 <= j < rows * cols,
            0 <= cols,
            0 <= rows,
    ;
    vstd::arithmetic::div_mod::lemma_fundamental_div_mod(j, cols);
    vstd::arithmetic::div_mod::lemma_mod_bound(j, cols);
    vstd::arithmetic::div_mod::lemma_div_pos_is_pos(j, cols);
    let q = j / cols;
    let m = j % cols;
    assert(cols * q == q * cols) by (nonlinear_arith);
    assert(q < rows) by (nonlinear_arith)
        requires
            q * cols + m < rows * cols,
            0 <= m,
            0 < cols,
    ;
}

/// Every tile of the tiling lies inside the image, is not empty, and is no
/// wider and no higher than the tile size.
pub proof fn lemma_tiles_within_image(width: int, height: int, tile: int, j: int)
    requires
        0 < tile,
        0 <= width <= u32::MAX,
        0 <= height <= u32::MAX,
        0 <= j < tiling(width, height, tile).len(),
    ensures
        0 < tiling(width, height, tile)[j].2 <= tile,
        0 < tiling(width, height, tile)[j].3 <= tile,
        tiling(width, height, tile)[j].0 + tiling(width, height, tile)[j].2 <= width,
        tiling(width, height, tile)[j].1 + tiling(width, height, tile)[j].3 <= height,
{
    let cols = tiles_across(width, tile);
    let rows = tiles_across(height, tile);
    lemma_tiles_across(width, tile, 0);
    lemma_tiles_across(height, tile, 0);
    lemma_tile_position_of_index(cols, rows, j);
    let col = j % cols;
    let row = j / cols;
    lemma_tile_span(width, tile, col);
    lemma_tile_span(height, tile, row);
    lemma_tiles_across(width, tile, col);
    lemma_tiles_across(height, tile, row);
}

/// Without the cap, the tiles cover the image exactly and without overlap:
/// each pixel lies in the tile at [`tile_index_of`] and in no other.
pub proof fn lemma_tiling_covers_each_pixel_once(
    width: int,
    height: int,
    tile: int,
    px: int,
    py: int,
)
    requires
        0 < tile,
        0 <= px < width <= u32::MAX,
        0 <= py < height <= u32::MAX,
    ensures
        0 <= tile_index_of(width, tile, px, py) < tiling(width, height, tile).len(),
        tile_contains(
            tiling(width, height, tile)[tile_index_of(width, tile, px, py)],
            px,
            py,
        ),
        forall|j: int|
            0 <= j < tiling(width, height, tile).len() && tile_contains(
                #[trigger] tiling(width, height, tile)[j],
                px,
                py,
            ) ==> j == tile_index_of(width, tile, px, py),
{
    let cols = tiles_across(width, tile);
    let rows = tiles_across(height, tile);
    let all = tiling(width, height, tile);
    let col = px / tile;
    let row = py / tile;
    vstd::arithmetic::div_mod::lemma_fundamental_div_mod(px, tile);
    vstd::arithmetic::div_mod::lemma_mod_bound(px, tile);
    vstd::arithmetic::div_mod::lemma_div_pos_is_pos(px, tile);
    vstd::arithmetic::div_mod::lemma_fundamental_div_mod(py, tile);
    vstd::arithmetic::div_mod::lemma_mod_bound(py, tile);
    vstd::arithmetic::div_mod::lemma_div_pos_is_pos(py, tile);
    assert(tile * col == col * tile) by (nonlinear_arith);
    assert(tile * row == row * tile) by (nonlinear_arith);
    lemma_tiles_across(width, tile, col);
    lemma_tiles_across(height, tile, row);
    lemma_tile_span(width, tile, col);
    lemma_tile_span(height, tile, row);
    lemma_mul_succ(col, tile);
    lemma_mul_succ(row, tile);
    lemma_tile_position(cols, col, row);
    let idx = row * cols + col;
    assert(0 <= row * cols) by (nonlinear_arith)
        requires
            0 <= row,
            0 <= cols,
    ;
    assert(idx < rows * cols) by (nonlinear_arith)
        requires
            idx == row * cols + col,
            0 <= col < cols,
            0 <= row < rows,
    ;
    assert(all[idx] == tile_at(width, height, tile, col, row));
    assert forall|j: int| 0 <= j < all.len() && tile_contains(#[trigger] all[j], px, py) implies j
        == idx by {
        lemma_tile_position_of_index(cols, rows, j);
        let cj = j % cols;
        let rj = j / cols;
        lemma_tiles_across(width, tile, cj);
        lemma_tiles_across(height, tile, rj);
        lemma_tile_span(width, tile, cj);
        lemma_tile_span(height, tile, rj);
        lemma_mul_succ(cj, tile);
        lemma_mul_succ(rj, tile);
        assert(all[j] == tile_at(width, height, tile, cj, rj));
        vstd::arithmetic::div_mod::lemma_fundamental_div_mod_converse(
            px,
            tile,
            cj,
            px - cj * tile,
        );
        vstd::arithmetic::div_mod::lemma_fundamental_div_mod_converse(
            py,
            tile,
            rj,
            py - rj * tile,
        );
    }
}

/// The number of cells of a grid laid over `width` x `height` pixels, the
/// cells `step_x` apart in a row and `step_y` apart in a column.
pub open spec fn cell_count(width: int, height: int, step_x: int, step_y: int) -> int {
    tiles_across(height, step_y) * tiles_across(width, step_x)
}

/// How many cells are handed out under a limit, if there is one.
pub open spec fn cells_within(count: int, limit: Option<usize>) -> int {
    match limit {
        Some(n) => if count <= n {
            count
        } else {
            n as int
        },
        None => count,
    }
}

/// The top left corners of the cells of a grid, row by row and in each row
/// from the left, cut off after `limit` of them where there is a limit.
/// The corner of cell `i` is the column `(i % cols) * step_x` of the row
/// `(i / cols) * step_y`, where `cols` is the number of cells in a row.
pub fn grid_cells(
    width: usize,
    height: usize,
    step_x: usize,
    step_y: usize,
    limit: Option<usize>,
) -> (cells: Vec<(usize, usize)>)
    requires
        step_x > 0,
        step_y > 0,
    ensures
        cells@.len() == cells_within(
            cell_count(width as int, height as int, step_x as int, step_y as int),
            limit,
        ),
        forall|i: int|
            0 <= i < cells@.len() ==> {
                &&& (#[trigger] cells@[i]).0 == (i % tiles_across(width as int, step_x as int))
                    * step_x
                &&& cells@[i].1 == (i / tiles_across(width as int, step_x as int)) * step_y
            },
{
    let ghost w = width as int;
    let ghost h = height as int;
    let ghost sx = step_x as int;
    let ghost sy = step_y as int;
    let ghost cols = tiles_across(w, sx);
    let ghost rows = tiles_across(h, sy);
    let mut cells: Vec<(usize, usize)> = Vec::new();
    let mut y: usize = 0;
    let mut more_rows = height > 0 && width > 0;
    let ghost mut row: int = 0;
    proof {
        lemma_tiles_across(w, sx, 0);
        lemma_tiles_across(h, sy, 0);
        assert(0 * sx == 0) by (nonlinear_arith);
        assert(0 * sy == 0) by (nonlinear_arith);
        if !more_rows {
            assert(rows * cols == 0) by (nonlinear_arith)
                requires
                    rows == 0 || cols == 0,
            ;
        }
    }
    while more_rows
        invariant
            w == width as int,
            h == height as int,
            sx == step_x as int,
            sy == step_y as int,
            sx > 0,
            sy > 0,
            cols == tiles_across(w, sx),
            rows == tiles_across(h, sy),
            0 <= row,
            0 <= rows,
            0 <= cols,
            more_rows ==> row < rows && y == row * sy && cols > 0,
            !more_rows ==> row * cols == rows * cols,
            row * cols <= rows * cols,
            cells@.len() == row * cols,
            limit matches Some(n) ==> cells@.len() <= n,
            forall|i: int|
                0 <= i < cells@.len() ==> (#[trigger] cells@[i]).0 == (i % cols) * sx
                    && cells@[i].1 == (i / cols) * sy,
        ensures
            cells@.len() == rows * cols,
            limit matches Some(n) ==> cells@.len() <= n,
            forall|i: int|
                0 <= i < cells@.len() ==> (#[trigger] cells@[i]).0 == (i % cols) * sx
                    && cells@[i].1 == (i / cols) * sy,
        decreases rows - row,
    {
        proof {
            lemma_tiles_across(h, sy, row);
        }
        let mut x: usize = 0;
        let mut more_cols = true;
        let ghost mut col: int = 0;
        proof {
            assert(0 * sx == 0) by (nonlinear_arith);
            assert(row * cols + cols == (row + 1) * cols) by (nonlinear_arith);
            assert((row + 1) * cols <= rows * cols) by (nonlinear_arith)
                requires
                    row + 1 <= rows,
                    cols >= 0,
            ;
        }
        while more_cols
            invariant
                w == width as int,
                h == height as int,
                sx == step_x as int,
                sy == step_y as int,
                sx > 0,
                sy > 0,
                cols == tiles_across(w, sx),
                rows == tiles_across(h, sy),
                0 <= row < rows,
                0 <= col,
                0 <= cols,
                y == row * sy,
                y < height,
                more_cols ==> col < cols && x == col * sx,
                !more_cols ==> col == cols,
                row * cols + cols <= rows * cols,
                cells@.len() == row * cols + col,
                limit matches Some(n) ==> cells@.len() <= n,
                forall|i: int|
                    0 <= i < cells@.len() ==> (#[trigger] cells@[i]).0 == (i % cols) * sx
                        && cells@[i].1 == (i / cols) * sy,
            decreases cols - col,
        {
            proof {
                lemma_tiles_across(w, sx, col);
                lemma_tile_position(cols, col, row);
            }
            match limit {
                Some(n) => {
                    if cells.len() >= n {
                        return cells;
                    }
                },
                None => {},
            }
            let ghost before = cells@;
            cells.push((x, y));
            proof {
                assert forall|i: int| 0 <= i < cells@.len() implies (#[trigger] cells@[i]).0 == (i
                    % cols) * sx && cells@[i].1 == (i / cols) * sy by {
                    if i < before.len() {
                        assert(cells@[i] == before[i]);
                    }
                }
                lemma_tiles_across(w, sx, col + 1);
                lemma_mul_succ(col, sx);
            }
            if width - x > step_x {
                x = x + step_x;
            } else {
                more_cols = false;
            }
            proof {
                col = col + 1;
            }
        }
        proof {
            lemma_tiles_across(h, sy, row + 1);
            lemma_mul_succ(row, sy);
        }
        if height - y > step_y {
            y = y + step_y;
        } else {
            more_rows = false;
        }
        proof {
            row = row + 1;
        }
    }
    cells
}

/// What is known of the cell at place `i` of a grid: its column and row
/// exist, its corner lies inside the axes, and its spans are those of
/// [`tile_span`].
pub proof fn lemma_cell(width: int, height: int, step_x: int, step_y: int, i: int)
    requires
        step_x > 0,
        step_y > 0,
        0 <= width,
        0 <= height,
        0 <= i < cell_count(width, height, step_x, step_y),
    ensures
        0 <= i % tiles_across(width, step_x) < tiles_across(width, step_x),
        0 <= i / tiles_across(width, step_x) < tiles_across(height, step_y),
        0 <= (i % tiles_across(width, step_x)) * step_x < width,
        0 <= (i / tiles_across(width, step_x)) * step_y < height,
        tile_span(width, step_x, i % tiles_across(width, step_x)) == (if width - (i % tiles_across(
            width,
            step_x,
        )) * step_x < step_x {
            width - (i % tiles_across(width, step_x)) * step_x
        } else {
            step_x
        }),
        tile_span(height, step_y, i / tiles_across(width, step_x)) == (if height - (i
            / tiles_across(width, step_x)) * step_y < step_y {
            height - (i / tiles_across(width, step_x)) * step_y
        } else {
            step_y
        }),
{
    let cols = tiles_across(width, step_x);
    let rows = tiles_across(height, step_y);
    lemma_tiles_across(width, step_x, 0);
    lemma_tiles_across(height, step_y, 0);
    lemma_tile_position_of_index(cols, rows, i);
    let col = i % cols;
    let row = i / cols;
    lemma_tiles_across(width, step_x, col);
    lemma_tiles_across(height, step_y, row);
    lemma_mul_succ(col, step_x);
    lemma_mul_succ(row, step_y);
    assert(0 <= col * step_x) by (nonlinear_arith)
        requires
            0 <= col,
            0 < step_x,
    ;
    assert(0 <= row * step_y) by (nonlinear_arith)
        requires
            0 <= row,
            0 < step_y,
    ;
}

} // verus!
