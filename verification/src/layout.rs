//! Places of the pictures on the multiview, for drawing and for clicks.

use vstd::arithmetic::div_mod::lemma_fundamental_div_mod;
use vstd::prelude::*;

verus! {

/// A rectangle of pixels.
#[derive(Debug, Clone, Copy, PartialEq, Eq, Structural)]
pub struct Rect {
    pub x: i32,
    pub y: i32,
    pub w: i32,
    pub h: i32,
}

/// A point lies in a rectangle; its right and lower edges do not belong to it.
pub open spec fn inside(r: Rect, px: int, py: int) -> bool {
    r.x <= px < r.x + r.w && r.y <= py < r.y + r.h
}

impl Rect {
    /// Whether a point lies in the rectangle.
    pub fn contains(&self, px: i32, py: i32) -> (r: bool)
        ensures
            r == inside(*self, px as int, py as int),
    {
        px >= self.x && py >= self.y && (px as i64) < self.x as i64 + self.w as i64 && (py as i64)
            < self.y as i64 + self.h as i64
    }
}

/// Places on the multiview.
#[derive(Debug)]
pub struct MultiviewLayout {
    pub program: Rect,
    pub preview: Rect,
    pub tiles: Vec<Rect>,
}

/// The larger of two integers.
pub open spec fn larger(a: int, b: int) -> int {
    if a < b {
        b
    } else {
        a
    }
}

/// Largest 16:9 rectangle in an area, at least 16 by 9.
pub open spec fn size_16_9(cw: int, ch: int) -> (int, int) {
    if cw * 9 <= ch * 16 {
        (cw, cw * 9 / 16)
    } else {
        (ch * 16 / 9, ch)
    }
}

/// A 16:9 rectangle in the middle of a cell, inside a margin.
pub open spec fn fitted(cx: int, cy: int, cw: int, ch: int, margin: int) -> Rect {
    let w = larger(cw - 2 * margin, 16);
    let h = larger(ch - 2 * margin, 9);
    let s = size_16_9(w, h);
    Rect {
        x: (cx + margin + (w - s.0) / 2) as i32,
        y: (cy + margin + (h - s.1) / 2) as i32,
        w: s.0 as i32,
        h: s.1 as i32,
    }
}

fn fit_16_9(cx: i32, cy: i32, cw: i32, ch: i32, margin: i32) -> (r: Rect)
    requires
        0 <= cx,
        0 <= cy,
        0 <= cw,
        0 <= ch,
        0 <= margin,
        cx + cw <= i32::MAX,
        cy + ch <= i32::MAX,
        cx + margin + 16 <= i32::MAX,
        cy + margin + 9 <= i32::MAX,
    ensures
        r == fitted(cx as int, cy as int, cw as int, ch as int, margin as int),
{
    let m: i64 = margin as i64;
    let cw: i64 = if cw as i64 - 2 * m < 16 {
        16
    } else {
        cw as i64 - 2 * m
    };
    let ch: i64 = if ch as i64 - 2 * m < 9 {
        9
    } else {
        ch as i64 - 2 * m
    };
    let (w, h): (i64, i64) = if cw * 9 <= ch * 16 {
        (cw, cw * 9 / 16)
    } else {
        (ch * 16 / 9, ch)
    };
    Rect {
        x: (cx as i64 + m + (cw - w) / 2) as i32,
        y: (cy as i64 + m + (ch - h) / 2) as i32,
        w: w as i32,
        h: h as i32,
    }
}

/// Margin around the pictures.
pub open spec fn margin_of(canvas_w: int) -> int {
    larger(canvas_w / 240, 2)
}

/// A canvas whose pictures have pixel coordinates, the margin of the last one included.
pub open spec fn canvas_fits(canvas_w: int, canvas_h: int) -> bool {
    &&& 0 <= canvas_w
    &&& 0 <= canvas_h
    &&& canvas_w + margin_of(canvas_w) + 16 <= i32::MAX
    &&& canvas_h + margin_of(canvas_w) + 9 <= i32::MAX
}

/// Columns of tiles, one at least.
pub open spec fn columns_of(columns: u32) -> int {
    larger(columns as int, 1)
}

/// Rows of tiles, one at least.
pub open spec fn rows_of(scene_count: int, columns: u32) -> int {
    larger((scene_count + columns_of(columns) - 1) / columns_of(columns), 1)
}

/// Size of the cell of a tile: no higher than a 16:9 picture and its margins need.
pub open spec fn cell(canvas_w: int, canvas_h: int, scene_count: int, columns: u32) -> (int, int) {
    let w = canvas_w / columns_of(columns);
    let h = (canvas_h - canvas_h / 2) / rows_of(scene_count, columns);
    let most = w * 9 / 16 + 2 * margin_of(canvas_w);
    (
        w,
        if h < most {
            h
        } else {
            most
        },
    )
}

/// Place of a scene's tile, below the two large pictures, row by row.
pub open spec fn tile(canvas_w: int, canvas_h: int, scene_count: int, columns: u32, i: int) -> Rect {
    let (w, h) = cell(canvas_w, canvas_h, scene_count, columns);
    fitted(
        (i % columns_of(columns)) * w,
        canvas_h / 2 + (i / columns_of(columns)) * h,
        w,
        h,
        margin_of(canvas_w),
    )
}

/// Rows times their height stay on the canvas.
proof fn lemma_rows(canvas_h: int, rows: int, cell_h: int, r: int)
    requires
        0 <= canvas_h,
        0 <= r < rows,
        0 <= cell_h <= (canvas_h - canvas_h / 2) / rows,
    ensures
        0 <= r * cell_h,
        (r + 1) * cell_h <= canvas_h - canvas_h / 2,
        r * cell_h + cell_h == (r + 1) * cell_h,
{
    let half = canvas_h - canvas_h / 2;
    lemma_fundamental_div_mod(half, rows);
    assert((r + 1) * cell_h <= rows * (half / rows)) by (nonlinear_arith)
        requires
            0 <= r < rows,
            0 <= cell_h <= half / rows,
    ;
    assert(0 <= r * cell_h && r * cell_h + cell_h == (r + 1) * cell_h) by (nonlinear_arith)
        requires
            0 <= r,
            0 <= cell_h,
    ;
    assert(half % rows >= 0);
}

/// Columns times their width stay on the canvas.
proof fn lemma_columns(canvas_w: int, cols: int, c: int)
    requires
        0 <= canvas_w,
        0 <= c < cols,
    ensures
        0 <= canvas_w / cols <= canvas_w,
        0 <= c * (canvas_w / cols),
        (c + 1) * (canvas_w / cols) <= canvas_w,
        c * (canvas_w / cols) + canvas_w / cols == (c + 1) * (canvas_w / cols),
{
    let w = canvas_w / cols;
    lemma_fundamental_div_mod(canvas_w, cols);
    assert(0 <= w) by (nonlinear_arith)
        requires
            0 <= canvas_w,
            cols > 0,
            w == canvas_w / cols,
    ;
    assert((c + 1) * w <= cols * w && 0 <= c * w && c * w + w == (c + 1) * w && w <= cols * w)
        by (nonlinear_arith)
        requires
            0 <= c < cols,
            0 <= w,
    ;
}

/// The row of a tile is one of the rows.
proof fn lemma_row(i: int, n: int, columns: u32)
    requires
        0 <= i < n,
    ensures
        0 <= i / columns_of(columns) < rows_of(n, columns),
        0 <= i % columns_of(columns) < columns_of(columns),
{
    let cols = columns_of(columns);
    assert(0 <= i / cols && i / cols < (n + cols - 1) / cols) by (nonlinear_arith)
        requires
            0 <= i < n,
            cols >= 1,
    ;
}

/// Places the two large pictures and the tiles of the scenes.
pub fn compute(canvas_w: i32, canvas_h: i32, scene_count: usize, columns: u32) -> (r:
    MultiviewLayout)
    requires
        canvas_fits(canvas_w as int, canvas_h as int),
        scene_count + columns_of(columns) <= i32::MAX,
    ensures
        r.preview == fitted(
            0,
            0,
            canvas_w as int / 2,
            canvas_h as int / 2,
            margin_of(canvas_w as int),
        ),
        r.program == fitted(
            canvas_w as int / 2,
            0,
            canvas_w as int / 2,
            canvas_h as int / 2,
            margin_of(canvas_w as int),
        ),
        r.tiles@ == Seq::new(
            scene_count as nat,
            |i: int| tile(canvas_w as int, canvas_h as int, scene_count as int, columns, i),
        ),
{
    let margin: i32 = if canvas_w / 240 < 2 {
        2
    } else {
        canvas_w / 240
    };
    let top_h: i32 = canvas_h / 2;
    let preview = fit_16_9(0, 0, canvas_w / 2, top_h, margin);
    let program = fit_16_9(canvas_w / 2, 0, canvas_w / 2, top_h, margin);
    let cols: i32 = if columns < 1 {
        1
    } else {
        columns as i32
    };
    let n: i32 = scene_count as i32;
    proof {
        assert(0 <= (n + cols - 1) / (cols as int) <= n + cols) by (nonlinear_arith)
            requires
                0 <= n,
                cols >= 1,
        ;
    }
    let needed: i32 = (n + cols - 1) / cols;
    let rows: i32 = if needed < 1 {
        1
    } else {
        needed
    };
    proof {
        lemma_columns(canvas_w as int, cols as int, 0);
        let half = canvas_h - canvas_h as int / 2;
        assert(0 <= half / (rows as int) <= half) by (nonlinear_arith)
            requires
                rows >= 1,
                half >= 0,
        ;
    }
    let cell_w: i32 = canvas_w / cols;
    let even: i32 = (canvas_h - top_h) / rows;
    let most: i64 = cell_w as i64 * 9 / 16 + 2 * margin as i64;
    let cell_h: i32 = if (even as i64) < most {
        even
    } else {
        most as i32
    };
    let mut tiles: Vec<Rect> = Vec::new();
    let mut i: i32 = 0;
    while i < n
        invariant
            0 <= i <= n,
            n == scene_count,
            canvas_fits(canvas_w as int, canvas_h as int),
            top_h == canvas_h as int / 2,
            margin == margin_of(canvas_w as int),
            2 <= margin,
            cols == columns_of(columns),
            rows == rows_of(n as int, columns),
            (cell_w as int, cell_h as int) == cell(
                canvas_w as int,
                canvas_h as int,
                n as int,
                columns,
            ),
            0 <= cell_w <= canvas_w,
            0 <= cell_h <= (canvas_h - canvas_h as int / 2) / (rows as int),
            tiles@.len() == i,
            forall|j: int|
                0 <= j < i ==> #[trigger] tiles@[j] == tile(
                    canvas_w as int,
                    canvas_h as int,
                    n as int,
                    columns,
                    j,
                ),
        decreases n - i,
    {
        proof {
            lemma_row(i as int, n as int, columns);
            lemma_rows(
                canvas_h as int,
                rows as int,
                cell_h as int,
                i as int / columns_of(columns),
            );
            lemma_columns(canvas_w as int, cols as int, i as int % columns_of(columns));
        }
        let row: i32 = i / cols;
        let col: i32 = i % cols;
        tiles.push(fit_16_9(col * cell_w, top_h + row * cell_h, cell_w, cell_h, margin));
        i += 1;
    }
    assert(tiles@ =~= Seq::new(
        scene_count as nat,
        |i: int| tile(canvas_w as int, canvas_h as int, scene_count as int, columns, i),
    ));
    MultiviewLayout { program, preview, tiles }
}

impl MultiviewLayout {
    /// Place in the list of the first tile under a point.
    pub fn tile_at(&self, x: i32, y: i32) -> (r: Option<usize>)
        ensures
            (match r {
                Some(i) => {
                    &&& i < self.tiles@.len()
                    &&& inside(self.tiles@[i as int], x as int, y as int)
                    &&& forall|j: int|
                        0 <= j < i ==> !inside(#[trigger] self.tiles@[j], x as int, y as int)
                },
                None => forall|j: int|
                    0 <= j < self.tiles@.len() ==> !inside(
                        #[trigger] self.tiles@[j],
                        x as int,
                        y as int,
                    ),
            }),
    {
        let mut i: usize = 0;
        while i < self.tiles.len()
            invariant
                i <= self.tiles@.len(),
                forall|j: int| 0 <= j < i ==> !inside(#[trigger] self.tiles@[j], x as int, y as int),
            decreases self.tiles.len() - i,
        {
            if self.tiles[i].contains(x, y) {
                return Some(i);
            }
            i += 1;
        }
        None
    }
}

/// Every picture is 16:9 to the pixel and has pixels, however small its cell.
pub proof fn pictures_are_16_9(cx: int, cy: int, cw: int, ch: int, margin: int)
    requires
        0 <= margin,
        cw <= i32::MAX,
        ch <= i32::MAX,
    ensures
        ({
            let r = fitted(cx, cy, cw, ch, margin);
            &&& r.w >= 16 && r.h >= 9
            &&& -16 < r.w * 9 - r.h * 16 < 16
        }),
{
}

/// A picture stays in a cell that is large enough and keeps its margin on every side.
pub proof fn picture_stays_in_its_cell(cx: int, cy: int, cw: int, ch: int, margin: int)
    requires
        0 <= cx,
        0 <= cy,
        16 + 2 * margin <= cw,
        9 + 2 * margin <= ch,
        cx + cw <= i32::MAX,
        cy + ch <= i32::MAX,
        0 <= margin,
    ensures
        ({
            let r = fitted(cx, cy, cw, ch, margin);
            &&& cx + margin <= r.x && r.x + r.w <= cx + cw - margin
            &&& cy + margin <= r.y && r.y + r.h <= cy + ch - margin
        }),
{
}

/// Cells are large enough for a picture and its margins.
pub open spec fn cells_are_large(canvas_w: int, canvas_h: int, n: int, columns: u32) -> bool {
    &&& cell(canvas_w, canvas_h, n, columns).0 >= 16 + 2 * margin_of(canvas_w)
    &&& cell(canvas_w, canvas_h, n, columns).1 >= 9 + 2 * margin_of(canvas_w)
}

/// The tiles stand in the lower half of the canvas, each in its own cell.
pub proof fn tiles_stand_in_the_lower_half(
    canvas_w: int,
    canvas_h: int,
    n: int,
    columns: u32,
    i: int,
)
    requires
        canvas_fits(canvas_w, canvas_h),
        0 <= i < n,
        cells_are_large(canvas_w, canvas_h, n, columns),
    ensures
        ({
            let r = tile(canvas_w, canvas_h, n, columns, i);
            let (w, h) = cell(canvas_w, canvas_h, n, columns);
            let left = (i % columns_of(columns)) * w;
            let top = canvas_h / 2 + (i / columns_of(columns)) * h;
            &&& 0 <= left <= r.x && r.x + r.w <= left + w <= canvas_w
            &&& canvas_h / 2 <= top <= r.y && r.y + r.h <= top + h <= canvas_h
        }),
{
    let cols = columns_of(columns);
    let (w, h) = cell(canvas_w, canvas_h, n, columns);
    lemma_row(i, n, columns);
    lemma_rows(canvas_h, rows_of(n, columns), h, i / cols);
    lemma_columns(canvas_w, cols, i % cols);
    picture_stays_in_its_cell(
        (i % cols) * w,
        canvas_h / 2 + (i / cols) * h,
        w,
        h,
        margin_of(canvas_w),
    );
}

/// Tiles follow one another in reading order: left to right, then row by row; all have one size.
pub proof fn tiles_read_like_text(
    canvas_w: int,
    canvas_h: int,
    n: int,
    columns: u32,
    i: int,
    j: int,
)
    requires
        canvas_fits(canvas_w, canvas_h),
        0 <= i < j < n,
        cell(canvas_w, canvas_h, n, columns).0 > 0,
        cell(canvas_w, canvas_h, n, columns).1 > 0,
    ensures
        ({
            let a = tile(canvas_w, canvas_h, n, columns, i);
            let b = tile(canvas_w, canvas_h, n, columns, j);
            &&& a.w == b.w && a.h == b.h
            &&& a.y < b.y || (a.y == b.y && a.x < b.x)
        }),
{
    let cols = columns_of(columns);
    let rows = rows_of(n, columns);
    let (w, h) = cell(canvas_w, canvas_h, n, columns);
    let (ri, ci, rj, cj) = (i / cols, i % cols, j / cols, j % cols);
    lemma_row(i, n, columns);
    lemma_row(j, n, columns);
    lemma_rows(canvas_h, rows, h, ri);
    lemma_rows(canvas_h, rows, h, rj);
    lemma_columns(canvas_w, cols, ci);
    lemma_columns(canvas_w, cols, cj);
    lemma_fundamental_div_mod(i, cols);
    lemma_fundamental_div_mod(j, cols);
    assert(ri <= rj) by (nonlinear_arith)
        requires
            i < j,
            cols >= 1,
            ri == i / cols,
            rj == j / cols,
    ;
    if ri < rj {
        assert(ri * h < rj * h) by (nonlinear_arith)
            requires
                ri < rj,
                h > 0,
        ;
    } else {
        assert(ci * w < cj * w) by (nonlinear_arith)
            requires
                ci < cj,
                w > 0,
        ;
    }
}

/// No column asked for is one column.
pub proof fn no_column_is_one_column(canvas_w: int, canvas_h: int, n: int, i: int)
    ensures
        tile(canvas_w, canvas_h, n, 0, i) == tile(canvas_w, canvas_h, n, 1, i),
{
}

/// The pictures of two scenes never overlap: a point in one tile is in no other, as long as the
/// cells are large enough for a picture.
pub proof fn tiles_do_not_overlap(
    canvas_w: int,
    canvas_h: int,
    n: int,
    columns: u32,
    i: int,
    j: int,
    px: int,
    py: int,
)
    requires
        canvas_fits(canvas_w, canvas_h),
        0 <= i < n,
        0 <= j < n,
        cells_are_large(canvas_w, canvas_h, n, columns),
        inside(tile(canvas_w, canvas_h, n, columns, i), px, py),
        inside(tile(canvas_w, canvas_h, n, columns, j), px, py),
    ensures
        i == j,
{
    let cols = columns_of(columns);
    let (w, h) = cell(canvas_w, canvas_h, n, columns);
    let (ri, ci, rj, cj) = (i / cols, i % cols, j / cols, j % cols);
    lemma_row(i, n, columns);
    lemma_row(j, n, columns);
    lemma_rows(canvas_h, rows_of(n, columns), h, ri);
    lemma_rows(canvas_h, rows_of(n, columns), h, rj);
    lemma_columns(canvas_w, cols, ci);
    lemma_columns(canvas_w, cols, cj);
    tiles_stand_in_the_lower_half(canvas_w, canvas_h, n, columns, i);
    tiles_stand_in_the_lower_half(canvas_w, canvas_h, n, columns, j);
    if ci < cj {
        assert((ci + 1) * w <= cj * w) by (nonlinear_arith)
            requires
                ci < cj,
                w >= 0,
        ;
    } else if cj < ci {
        assert((cj + 1) * w <= ci * w) by (nonlinear_arith)
            requires
                cj < ci,
                w >= 0,
        ;
    }
    if ri < rj {
        assert((ri + 1) * h <= rj * h) by (nonlinear_arith)
            requires
                ri < rj,
                h >= 0,
        ;
    } else if rj < ri {
        assert((rj + 1) * h <= ri * h) by (nonlinear_arith)
            requires
                rj < ri,
                h >= 0,
        ;
    }
    lemma_fundamental_div_mod(i, cols);
    lemma_fundamental_div_mod(j, cols);
}

/// The preview stands in the left of the upper half, the programme in its right.
pub proof fn large_pictures_stand_side_by_side(canvas_w: int, canvas_h: int)
    requires
        canvas_fits(canvas_w, canvas_h),
        16 + 2 * margin_of(canvas_w) <= canvas_w / 2,
        9 + 2 * margin_of(canvas_w) <= canvas_h / 2,
    ensures
        ({
            let m = margin_of(canvas_w);
            let preview = fitted(0, 0, canvas_w / 2, canvas_h / 2, m);
            let program = fitted(canvas_w / 2, 0, canvas_w / 2, canvas_h / 2, m);
            &&& 0 <= preview.x && preview.x + preview.w <= canvas_w / 2
            &&& canvas_w / 2 <= program.x && program.x + program.w <= canvas_w
            &&& 0 <= preview.y == program.y
            &&& preview.y + preview.h == program.y + program.h <= canvas_h / 2
            &&& preview.w == program.w
        }),
{
    let m = margin_of(canvas_w);
    picture_stays_in_its_cell(0, 0, canvas_w / 2, canvas_h / 2, m);
    picture_stays_in_its_cell(canvas_w / 2, 0, canvas_w / 2, canvas_h / 2, m);
}

/// A picture is as large as its cell allows inside the margin, up to rounding: it fills that area
/// from side to side or from top to bottom, whichever binds first, and stands in the middle.
pub proof fn pictures_fill_their_cells(cx: int, cy: int, cw: int, ch: int, margin: int)
    requires
        0 <= cx,
        0 <= cy,
        16 + 2 * margin <= cw,
        9 + 2 * margin <= ch,
        cx + cw <= i32::MAX,
        cy + ch <= i32::MAX,
        0 <= margin,
    ensures
        ({
            let r = fitted(cx, cy, cw, ch, margin);
            let w = cw - 2 * margin;
            let h = ch - 2 * margin;
            let left = r.x - cx;
            let right = cx + cw - r.x - r.w;
            let top = r.y - cy;
            let bottom = cy + ch - r.y - r.h;
            &&& r.w == w || r.h == h
            &&& w * 9 <= h * 16 ==> r.w == w
            &&& w * 9 >= h * 16 ==> r.h == h
            &&& r.h * 16 <= r.w * 9 + 15 && r.w * 9 <= r.h * 16 + 15
            &&& 0 <= right - left <= 1
            &&& 0 <= bottom - top <= 1
        }),
{
}

/// A cell too small for a picture still shows one of 16 by 9.
pub proof fn smallest_picture(cx: int, cy: int, cw: int, ch: int, margin: int)
    requires
        cw - 2 * margin <= 16,
        ch - 2 * margin <= 9,
    ensures
        fitted(cx, cy, cw, ch, margin).w == 16,
        fitted(cx, cy, cw, ch, margin).h == 9,
{
}

/// There are as many columns as asked for, one at least, and as many rows as the scenes need, one
/// at least and not one more; the margin is a 240th of the width, two at least.
pub proof fn rows_are_as_many_as_needed(n: int, columns: u32, canvas_w: int)
    requires
        n >= 0,
    ensures
        columns > 0 ==> columns_of(columns) == columns,
        columns_of(0) == 1,
        n <= rows_of(n, columns) * columns_of(columns),
        n > 0 ==> (rows_of(n, columns) - 1) * columns_of(columns) < n,
        n == 0 ==> rows_of(n, columns) == 1,
        canvas_w >= 480 ==> margin_of(canvas_w) == canvas_w / 240,
        canvas_w < 480 ==> margin_of(canvas_w) == 2,
{
    let c = columns_of(columns);
    let q = (n + c - 1) / c;
    assert(q * c <= n + c - 1 < (q + 1) * c) by (nonlinear_arith)
        requires
            q == (n + c - 1) / c,
            c >= 1,
    ;
    assert((q + 1) * c == q * c + c && (q - 1) * c == q * c - c) by (nonlinear_arith);
    if n == 0 {
        assert(q == 0) by (nonlinear_arith)
            requires
                q == (n + c - 1) / c,
                n == 0,
                c >= 1,
        ;
    } else {
        assert(q >= 1) by (nonlinear_arith)
            requires
                n + c - 1 < (q + 1) * c,
                n >= 1,
                c >= 1,
        ;
    }
    if rows_of(n, columns) != q {
        assert(1 * c == c);
        assert(n <= c);
    }
}

/// Cells divide the width among the columns and the lower half among the rows, no higher than a
/// picture of that width and its margins need.
pub proof fn cells_divide_the_lower_half(canvas_w: int, canvas_h: int, n: int, columns: u32)
    ensures
        ({
            let (w, h) = cell(canvas_w, canvas_h, n, columns);
            let share = (canvas_h - canvas_h / 2) / rows_of(n, columns);
            let need = w * 9 / 16 + 2 * margin_of(canvas_w);
            &&& w == canvas_w / columns_of(columns)
            &&& h <= share && h <= need
            &&& h == share || h == need
        }),
{
}

/// A scene's tile stands one cell right of the one before, or at the left of the next row, one cell
/// lower.
pub proof fn tiles_step_by_a_cell(canvas_w: int, canvas_h: int, n: int, columns: u32, i: int)
    requires
        canvas_fits(canvas_w, canvas_h),
        0 <= i,
        i + 1 < n,
        cells_are_large(canvas_w, canvas_h, n, columns),
    ensures
        ({
            let (w, h) = cell(canvas_w, canvas_h, n, columns);
            let c = columns_of(columns);
            let a = tile(canvas_w, canvas_h, n, columns, i);
            let b = tile(canvas_w, canvas_h, n, columns, i + 1);
            let first = tile(canvas_w, canvas_h, n, columns, 0);
            &&& (i + 1) % c != 0 ==> b.x == a.x + w && b.y == a.y
            &&& (i + 1) % c == 0 ==> b.x == first.x && b.y == a.y + h
        }),
{
    let c = columns_of(columns);
    let (w, h) = cell(canvas_w, canvas_h, n, columns);
    let rows = rows_of(n, columns);
    lemma_row(i, n, columns);
    lemma_row(i + 1, n, columns);
    lemma_row(0, n, columns);
    lemma_fundamental_div_mod(i, c);
    lemma_fundamental_div_mod(i + 1, c);
    let (r, k) = (i / c, i % c);
    if k + 1 < c {
        assert((i + 1) / c == r && (i + 1) % c == k + 1) by {
            vstd::arithmetic::div_mod::lemma_fundamental_div_mod_converse(i + 1, c, r, k + 1);
        }
        assert((k + 1) * w == k * w + w) by (nonlinear_arith);
    } else {
        assert((r + 1) * c == r * c + c && c * r == r * c) by (nonlinear_arith);
        assert((i + 1) / c == r + 1 && (i + 1) % c == 0) by {
            vstd::arithmetic::div_mod::lemma_fundamental_div_mod_converse(i + 1, c, r + 1, 0);
        }
        assert((r + 1) * h == r * h + h) by (nonlinear_arith);
        assert(0int / c == 0 && 0int % c == 0) by {
            vstd::arithmetic::div_mod::lemma_fundamental_div_mod_converse(0, c, 0, 0);
        }
    }
    assert(0 * w == 0 && 0 * h == 0);
    tiles_stand_in_the_lower_half(canvas_w, canvas_h, n, columns, i);
    tiles_stand_in_the_lower_half(canvas_w, canvas_h, n, columns, i + 1);
    lemma_rows(canvas_h, rows, h, i / c);
    lemma_rows(canvas_h, rows, h, (i + 1) / c);
    lemma_columns(canvas_w, c, i % c);
    lemma_columns(canvas_w, c, (i + 1) % c);
}

/// A rectangle holds the points from its left and upper edges on, up to but not on the others.
pub proof fn edges_of_a_rectangle(r: Rect, px: int, py: int)
    ensures
        inside(r, px, py) <==> 0 <= px - r.x < r.w && 0 <= py - r.y < r.h,
{
}

/// A click that is on a tile is in it, and in none before it.
pub proof fn clicks_are_on_the_first_tile(
    m: &MultiviewLayout,
    x: i32,
    y: i32,
    r: Option<usize>,
    i: int,
)
    requires
        call_ensures(MultiviewLayout::tile_at, (m, x, y), r),
        r is Some,
        0 <= i <= r->0,
    ensures
        r->0 < m.tiles@.len(),
        ({
            let t = m.tiles@[i];
            i == r->0 <==> t.x <= x < t.x + t.w && t.y <= y < t.y + t.h
        }),
{
}

} // verus!
