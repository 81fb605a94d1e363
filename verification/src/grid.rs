//! Spanning placements on a snapping grid, and the mapping between grid cells and
//! terminal cells.
use vstd::prelude::*;

verus! {

/// A rectangle of terminal cells.
#[derive(Debug, Clone, Copy, PartialEq, Eq, Structural)]
pub struct Rect {
    pub x: u16,
    pub y: u16,
    pub width: u16,
    pub height: u16,
}

/// The smallest terminal, in columns and rows, that the dashboard draws on; a smaller one
/// shows a prompt to enlarge it.
pub const MIN_TERMINAL_COLUMNS: u16 = 26;
pub const MIN_TERMINAL_ROWS: u16 = 10;

/// Whether the dashboard draws on a terminal of `columns` × `rows`; otherwise it asks for
/// at least 26 × 10.
pub fn terminal_fits(columns: u16, rows: u16) -> (r: bool)
    ensures
        r == (columns >= MIN_TERMINAL_COLUMNS && rows >= MIN_TERMINAL_ROWS),
{
    columns >= MIN_TERMINAL_COLUMNS && rows >= MIN_TERMINAL_ROWS
}

impl Rect {
    /// Whether the rectangle is at least `min` (columns, rows): a tile drawn smaller than
    /// its kind's minimum readable size shows a placeholder instead of its content.
    pub fn holds(&self, min: (u16, u16)) -> (r: bool)
        ensures
            r == (self.width >= min.0 && self.height >= min.1),
    {
        self.width >= min.0 && self.height >= min.1
    }

    /// The rectangle stays within the `u16` coordinate space.
    pub open spec fn wf(self) -> bool {
        self.x + self.width <= u16::MAX && self.y + self.height <= u16::MAX
    }

    pub open spec fn spec_right(self) -> int {
        if self.x + self.width > u16::MAX { u16::MAX as int } else { self.x + self.width }
    }

    pub open spec fn spec_bottom(self) -> int {
        if self.y + self.height > u16::MAX { u16::MAX as int } else { self.y + self.height }
    }

    pub open spec fn spec_contains(self, x: int, y: int) -> bool {
        self.x <= x < self.spec_right() && self.y <= y < self.spec_bottom()
    }

    /// Creates a rectangle whose width and height are clipped to the coordinate space.
    pub fn new(x: u16, y: u16, width: u16, height: u16) -> (r: Rect)
        ensures
            r.x == x,
            r.y == y,
            r.width == (if x + width > u16::MAX { (u16::MAX - x) as u16 } else { width }),
            r.height == (if y + height > u16::MAX { (u16::MAX - y) as u16 } else { height }),
            r.wf(),
    {
        let max_width = u16::MAX - x;
        let max_height = u16::MAX - y;
        Rect {
            x,
            y,
            width: if width > max_width { max_width } else { width },
            height: if height > max_height { max_height } else { height },
        }
    }

    pub fn right(self) -> (r: u16)
        ensures r == self.spec_right(),
    {
        self.x.saturating_add(self.width)
    }

    pub fn bottom(self) -> (r: u16)
        ensures r == self.spec_bottom(),
    {
        self.y.saturating_add(self.height)
    }

    pub fn is_empty(self) -> (r: bool)
        ensures r == (self.width == 0 || self.height == 0),
    {
        self.width == 0 || self.height == 0
    }

    pub fn contains(self, x: u16, y: u16) -> (r: bool)
        ensures r == self.spec_contains(x as int, y as int),
    {
        x >= self.x && x < self.right() && y >= self.y && y < self.bottom()
    }
}

/// A tile's position and span, in grid cells.
#[derive(Debug, Clone, Copy, PartialEq, Eq, Structural)]
pub struct Placement {
    pub column: u16,
    pub row: u16,
    pub column_span: u16,
    pub row_span: u16,
}

impl Placement {
    /// Two placements share at least one grid cell.
    pub open spec fn spec_overlaps(self, other: Placement) -> bool {
        &&& self.column < other.column + other.column_span
        &&& other.column < self.column + self.column_span
        &&& self.row < other.row + other.row_span
        &&& other.row < self.row + self.row_span
    }

    /// A placement is non-empty and lies within a grid of the given size.
    pub open spec fn spec_fits(self, columns: u16, rows: u16) -> bool {
        &&& self.column_span > 0
        &&& self.row_span > 0
        &&& self.column + self.column_span <= columns
        &&& self.row + self.row_span <= rows
    }

    /// The grid cell `(column, row)` belongs to this placement.
    pub open spec fn covers(self, column: int, row: int) -> bool {
        self.column <= column < self.column + self.column_span
            && self.row <= row < self.row + self.row_span
    }

    pub fn overlaps(self, other: Self) -> (r: bool)
        ensures r == self.spec_overlaps(other),
    {
        (self.column as u32) < (other.column as u32) + (other.column_span as u32)
            && (other.column as u32) < (self.column as u32) + (self.column_span as u32)
            && (self.row as u32) < (other.row as u32) + (other.row_span as u32)
            && (other.row as u32) < (self.row as u32) + (self.row_span as u32)
    }

    pub fn fits(self, columns: u16, rows: u16) -> (r: bool)
        ensures r == self.spec_fits(columns, rows),
    {
        self.column_span > 0 && self.row_span > 0
            && (self.column as u32) + (self.column_span as u32) <= columns as u32
            && (self.row as u32) + (self.row_span as u32) <= rows as u32
    }
}

/// For non-empty placements, overlap means sharing a cell.
pub proof fn lemma_overlap_is_shared_cell(a: Placement, b: Placement)
    requires
        a.column_span > 0 && a.row_span > 0,
        b.column_span > 0 && b.row_span > 0,
    ensures
        a.spec_overlaps(b) <==> exists|c: int, r: int| a.covers(c, r) && b.covers(c, r),
{
    if a.spec_overlaps(b) {
        let c = if a.column < b.column { b.column as int } else { a.column as int };
        let r = if a.row < b.row { b.row as int } else { a.row as int };
        assert(a.covers(c, r) && b.covers(c, r));
    }
}

/// Integer boundaries distribute leftover terminal cells without gaps or overlaps.
#[derive(Debug, Clone, Copy)]
pub struct Grid {
    pub area: Rect,
    pub columns: u16,
    pub rows: u16,
}

/// The terminal offset at which grid line `index` of `count` starts, over `length` cells.
pub open spec fn boundary(index: int, count: int, length: int) -> int {
    let clamped = if index < count { index } else { count };
    let divisor = if count > 1 { count } else { 1 };
    (clamped * length) / divisor
}

/// `a + b`, saturated at the largest `u16`.
pub open spec fn saturating_sum(a: int, b: int) -> int {
    if a + b > u16::MAX { u16::MAX as int } else { a + b }
}

impl Grid {
    /// The terminal rectangle that a placement covers.
    pub open spec fn spec_rect(self, p: Placement) -> Rect {
        let x = boundary(p.column as int, self.columns as int, self.area.width as int);
        let y = boundary(p.row as int, self.rows as int, self.area.height as int);
        let right = boundary(
            saturating_sum(p.column as int, p.column_span as int),
            self.columns as int,
            self.area.width as int,
        );
        let bottom = boundary(
            saturating_sum(p.row as int, p.row_span as int),
            self.rows as int,
            self.area.height as int,
        );
        Rect {
            x: (self.area.x + x) as u16,
            y: (self.area.y + y) as u16,
            width: (right - x) as u16,
            height: (bottom - y) as u16,
        }
    }

    /// The grid cell that a terminal cell inside the area belongs to.
    pub open spec fn spec_cell(self, x: int, y: int) -> Option<(u16, u16)> {
        if !self.area.spec_contains(x, y) || self.area.width == 0 || self.area.height == 0 {
            None
        } else {
            Some((
                ((((x - self.area.x) + 1) * self.columns - 1) / self.area.width as int) as u16,
                ((((y - self.area.y) + 1) * self.rows - 1) / self.area.height as int) as u16,
            ))
        }
    }
}

proof fn lemma_boundary_bounds(index: int, count: int, length: int)
    requires
        0 <= index,
        0 <= count,
        0 <= length,
    ensures
        0 <= boundary(index, count, length) <= length,
{
    let clamped = if index < count { index } else { count };
    let divisor = if count > 1 { count } else { 1 };
    assert(0 <= clamped <= divisor);
    assert(0 <= clamped * length <= divisor * length) by (nonlinear_arith)
        requires 0 <= clamped <= divisor, 0 <= length;
    assert(0 <= (clamped * length) / divisor <= length) by (nonlinear_arith)
        requires 0 <= clamped * length <= divisor * length, divisor >= 1;
}

proof fn lemma_boundary_monotone(i: int, j: int, count: int, length: int)
    requires
        0 <= i <= j,
        0 <= count,
        0 <= length,
    ensures
        boundary(i, count, length) <= boundary(j, count, length),
{
    let ci = if i < count { i } else { count };
    let cj = if j < count { j } else { count };
    let divisor = if count > 1 { count } else { 1 };
    assert(ci * length <= cj * length) by (nonlinear_arith)
        requires 0 <= ci <= cj, 0 <= length;
    assert((ci * length) / divisor <= (cj * length) / divisor) by (nonlinear_arith)
        requires ci * length <= cj * length, divisor >= 1;
}

impl Grid {
    pub fn rect(self, p: Placement) -> (r: Rect)
        requires
            self.area.wf(),
        ensures
            r == self.spec_rect(p),
            r.wf(),
            self.area.x <= r.x,
            r.x + r.width <= self.area.x + self.area.width,
            self.area.y <= r.y,
            r.y + r.height <= self.area.y + self.area.height,
    {
        let column_end = p.column.saturating_add(p.column_span);
        let row_end = p.row.saturating_add(p.row_span);
        proof {
            lemma_boundary_bounds(p.column as int, self.columns as int, self.area.width as int);
            lemma_boundary_bounds(p.row as int, self.rows as int, self.area.height as int);
            lemma_boundary_bounds(column_end as int, self.columns as int, self.area.width as int);
            lemma_boundary_bounds(row_end as int, self.rows as int, self.area.height as int);
            lemma_boundary_monotone(p.column as int, column_end as int, self.columns as int, self.area.width as int);
            lemma_boundary_monotone(p.row as int, row_end as int, self.rows as int, self.area.height as int);
        }
        let x = grid_boundary(p.column, self.columns, self.area.width);
        let y = grid_boundary(p.row, self.rows, self.area.height);
        let right = grid_boundary(column_end, self.columns, self.area.width);
        let bottom = grid_boundary(row_end, self.rows, self.area.height);
        Rect::new(self.area.x + x, self.area.y + y, right - x, bottom - y)
    }

    pub fn cell(self, x: u16, y: u16) -> (r: Option<(u16, u16)>)
        requires
            self.area.spec_contains(x as int, y as int) && self.area.width > 0
                && self.area.height > 0 ==> self.columns > 0 && self.rows > 0,
        ensures
            r == self.spec_cell(x as int, y as int),
            r matches Some((c, w)) ==> c < self.columns && w < self.rows,
    {
        if !self.area.contains(x, y) || self.area.is_empty() {
            return None;
        }
        let dx = (x - self.area.x) as u32;
        let dy = (y - self.area.y) as u32;
        let width = self.area.width as u32;
        let height = self.area.height as u32;
        let columns = self.columns as u32;
        let rows = self.rows as u32;
        proof {
            lemma_cell_index(dx as int, width as int, columns as int);
            lemma_cell_index(dy as int, height as int, rows as int);
        }
        let column = ((dx + 1) * columns - 1) / width;
        let row = ((dy + 1) * rows - 1) / height;
        Some((column as u16, row as u16))
    }
}

/// Offset of grid line `index` of `count` over `length` terminal cells.
fn grid_boundary(index: u16, count: u16, length: u16) -> (r: u16)
    ensures
        r == boundary(index as int, count as int, length as int),
{
    proof {
        lemma_boundary_bounds(index as int, count as int, length as int);
    }
    let clamped = if index < count { index } else { count } as u32;
    let divisor = if count > 1 { count } else { 1 } as u32;
    assert(clamped * (length as u32) <= 65535 * 65535) by (nonlinear_arith)
        requires clamped <= 65535, length <= 65535;
    (clamped * (length as u32) / divisor) as u16
}

proof fn lemma_cell_index(d: int, length: int, count: int)
    requires
        0 <= d < length <= u16::MAX,
        1 <= count <= u16::MAX,
    ensures
        (d + 1) * count - 1 >= 0,
        (d + 1) * count <= u32::MAX,
        ((d + 1) * count - 1) / length < count,
{
    assert((d + 1) * count <= 65536 * 65535) by (nonlinear_arith)
        requires 0 <= d + 1 <= 65536, 1 <= count <= 65535;
    assert((d + 1) * count >= 1) by (nonlinear_arith)
        requires d + 1 >= 1, count >= 1;
    assert((d + 1) * count - 1 < length * count) by (nonlinear_arith)
        requires d + 1 <= length, count >= 1;
    assert(((d + 1) * count - 1) / length < count) by (nonlinear_arith)
        requires 0 <= (d + 1) * count - 1 < length * count, length >= 1;
}

} // verus!

verus! {

proof fn lemma_cell_inverts_boundary(u: int, c: int, width: int, count: int)
    requires
        1 <= count,
        0 <= c < count,
        0 <= width,
        (c * width) / count <= u < ((c + 1) * width) / count,
    ensures
        ((u + 1) * count - 1) / width == c,
{
    let q1 = (c * width) / count;
    let q2 = ((c + 1) * width) / count;
    assert(c * width < (q1 + 1) * count) by (nonlinear_arith)
        requires q1 == (c * width) / count, count >= 1, c * width >= 0;
    assert((q1 + 1) * count <= (u + 1) * count) by (nonlinear_arith)
        requires q1 <= u, count >= 1;
    assert(q2 * count <= (c + 1) * width) by (nonlinear_arith)
        requires q2 == ((c + 1) * width) / count, count >= 1, (c + 1) * width >= 0;
    assert((u + 1) * count <= q2 * count) by (nonlinear_arith)
        requires u + 1 <= q2, count >= 1;
    assert(width >= 1) by (nonlinear_arith)
        requires q1 < q2, q2 == ((c + 1) * width) / count, count >= 1, width >= 0, q1 >= 0,
            q1 == (c * width) / count, c >= 0;
    let n = (u + 1) * count - 1;
    assert(c * width <= n < (c + 1) * width);
    assert(n / width == c) by (nonlinear_arith)
        requires c * width <= n < (c + 1) * width, width >= 1;
}

/// Every terminal cell of a single grid cell's rectangle maps back to that grid cell.
pub proof fn lemma_rendered_cells_map_back(grid: Grid, column: u16, row: u16, x: int, y: int)
    requires
        grid.area.wf(),
        column < grid.columns,
        row < grid.rows,
        grid.spec_rect(Placement { column, row, column_span: 1, row_span: 1 }).spec_contains(x, y),
    ensures
        grid.spec_cell(x, y) == Some((column, row)),
{
    let p = Placement { column, row, column_span: 1, row_span: 1 };
    let c = column as int;
    let r = row as int;
    let w = grid.area.width as int;
    let h = grid.area.height as int;
    let nc = grid.columns as int;
    let nr = grid.rows as int;
    lemma_boundary_bounds(c, nc, w);
    lemma_boundary_bounds(c + 1, nc, w);
    lemma_boundary_bounds(r, nr, h);
    lemma_boundary_bounds(r + 1, nr, h);
    lemma_boundary_monotone(c, c + 1, nc, w);
    lemma_boundary_monotone(r, r + 1, nr, h);
    assert(boundary(c, nc, w) == (c * w) / nc);
    assert(boundary(c + 1, nc, w) == ((c + 1) * w) / nc);
    assert(boundary(r, nr, h) == (r * h) / nr);
    assert(boundary(r + 1, nr, h) == ((r + 1) * h) / nr);
    let rect = grid.spec_rect(p);
    lemma_cell_inverts_boundary(x - grid.area.x, c, w, nc);
    lemma_cell_inverts_boundary(y - grid.area.y, r, h, nr);
}

/// Placements that share no grid cell are drawn on terminal rectangles that share no cell.
pub proof fn lemma_separate_placements_separate_rects(grid: Grid, a: Placement, b: Placement, x: int, y: int)
    requires
        grid.area.wf(),
        a.spec_fits(grid.columns, grid.rows),
        b.spec_fits(grid.columns, grid.rows),
        !a.spec_overlaps(b),
    ensures
        !(grid.spec_rect(a).spec_contains(x, y) && grid.spec_rect(b).spec_contains(x, y)),
{
    let w = grid.area.width as int;
    let h = grid.area.height as int;
    let nc = grid.columns as int;
    let nr = grid.rows as int;
    let ac = a.column as int;
    let bc = b.column as int;
    let ar = a.row as int;
    let br = b.row as int;
    let ace = ac + a.column_span;
    let bce = bc + b.column_span;
    let are = ar + a.row_span;
    let bre = br + b.row_span;
    lemma_boundary_bounds(ac, nc, w);
    lemma_boundary_bounds(bc, nc, w);
    lemma_boundary_bounds(ar, nr, h);
    lemma_boundary_bounds(br, nr, h);
    lemma_boundary_bounds(ace, nc, w);
    lemma_boundary_bounds(bce, nc, w);
    lemma_boundary_bounds(are, nr, h);
    lemma_boundary_bounds(bre, nr, h);
    lemma_boundary_monotone(ac, ace, nc, w);
    lemma_boundary_monotone(bc, bce, nc, w);
    lemma_boundary_monotone(ar, are, nr, h);
    lemma_boundary_monotone(br, bre, nr, h);
    if ace <= bc {
        lemma_boundary_monotone(ace, bc, nc, w);
    } else if bce <= ac {
        lemma_boundary_monotone(bce, ac, nc, w);
    } else if are <= br {
        lemma_boundary_monotone(are, br, nr, h);
    } else {
        lemma_boundary_monotone(bre, ar, nr, h);
    }
}

/// A placement spanning the whole grid is drawn on the whole area.
pub proof fn lemma_full_span_fills_area(grid: Grid)
    requires
        grid.area.wf(),
        grid.columns >= 1,
        grid.rows >= 1,
    ensures
        grid.spec_rect(Placement { column: 0, row: 0, column_span: grid.columns, row_span: grid.rows })
            == grid.area,
{
    let w = grid.area.width as int;
    let h = grid.area.height as int;
    let nc = grid.columns as int;
    let nr = grid.rows as int;
    assert((nc * w) / nc == w) by (nonlinear_arith) requires nc >= 1;
    assert((nr * h) / nr == h) by (nonlinear_arith) requires nr >= 1;
    assert((0 * w) / nc == 0) by (nonlinear_arith) requires nc >= 1;
    assert((0 * h) / nr == 0) by (nonlinear_arith) requires nr >= 1;
    assert(boundary(0, nc, w) == 0);
    assert(boundary(0, nr, h) == 0);
    assert(boundary(nc, nc, w) == w);
    assert(boundary(nr, nr, h) == h);
}

} // verus!
