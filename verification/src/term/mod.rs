//! The terminal grid: the cells a terminal app draws into, and what each
//! control byte, escape and CSI sequence does to them.
pub mod color;
pub mod input;
pub mod pointer;

use vstd::prelude::*;

verus! {

/// The color a cell asks for: the configured default, one of the 256
/// palette entries, or a direct RGB value.
#[derive(Clone, Copy, PartialEq, Eq, Debug)]
pub enum TermColor {
    Default,
    Indexed(u8),
    Rgb(u8, u8, u8),
}

/// One character cell of the grid with the attributes it was drawn with.
#[derive(Clone, Copy, Debug)]
pub struct Cell {
    pub ch: char,
    pub fg: TermColor,
    pub bg: TermColor,
    pub bold: bool,
    pub reverse: bool,
}

/// A space in the default colors, what every erased cell becomes.
pub open spec fn blank() -> Cell {
    Cell { ch: ' ', fg: TermColor::Default, bg: TermColor::Default, bold: false, reverse: false }
}

impl Default for Cell {
    fn default() -> (c: Cell)
        ensures
            c == blank(),
    {
        Cell { ch: ' ', fg: TermColor::Default, bg: TermColor::Default, bold: false, reverse: false }
    }
}

/// `n` copies of `a`.
pub open spec fn fill<A>(n: int, a: A) -> Seq<A> {
    Seq::new(n as nat, |i: int| a)
}

/// `n` blank cells.
pub open spec fn blank_row(n: int) -> Seq<Cell> {
    fill(n, blank())
}

/// `n` blank rows of `width` cells each.
pub open spec fn blank_rows(n: int, width: int) -> Seq<Seq<Cell>> {
    fill(n, blank_row(width))
}

/// The cells of `cells` for which `pred` holds become blank, all others stay.
pub open spec fn erase_where(cells: Seq<Seq<Cell>>, pred: spec_fn(int, int) -> bool) -> Seq<Seq<Cell>> {
    Seq::new(
        cells.len(),
        |r: int| Seq::new(cells[r].len(), |c: int| if pred(r, c) { blank() } else { cells[r][c] }),
    )
}

/// The items `lo..hi` of `s` move `n` places towards `lo`; copies of `a` come in at `hi`.
pub open spec fn queue_up<A>(s: Seq<A>, lo: int, hi: int, n: int, a: A) -> Seq<A> {
    s.subrange(0, lo) + (s.subrange(lo, hi) + fill(n, a)).subrange(n, n + (hi - lo)) + s.subrange(hi, s.len() as int)
}

/// The items `lo..hi` of `s` move `n` places towards `hi`; copies of `a` come in at `lo`.
pub open spec fn queue_down<A>(s: Seq<A>, lo: int, hi: int, n: int, a: A) -> Seq<A> {
    s.subrange(0, lo) + (fill(n, a) + s.subrange(lo, hi)).subrange(0, hi - lo) + s.subrange(hi, s.len() as int)
}

/// Rows `lo..hi` move up by `n`, blank rows come in at `hi`; the rest stays.
pub open spec fn shift_up(cells: Seq<Seq<Cell>>, lo: int, hi: int, n: int, width: int) -> Seq<Seq<Cell>> {
    queue_up(cells, lo, hi, n, blank_row(width))
}

/// Rows `lo..hi` move down by `n`, blank rows come in at `lo`; the rest stays.
pub open spec fn shift_down(cells: Seq<Seq<Cell>>, lo: int, hi: int, n: int, width: int) -> Seq<Seq<Cell>> {
    queue_down(cells, lo, hi, n, blank_row(width))
}

pub open spec fn sat_sub(a: int, b: int) -> int {
    if a >= b { a - b } else { 0 }
}

pub open spec fn min(a: int, b: int) -> int {
    if a <= b { a } else { b }
}

/// Everything about a grid that its operations read or change.
pub struct GridState {
    pub cells: Seq<Seq<Cell>>,
    pub rows: int,
    pub cols: int,
    pub cursor_row: int,
    pub cursor_col: int,
    pub cursor_visible: bool,
    pub scroll_top: int,
    pub scroll_bottom: int,
    pub attr_fg: TermColor,
    pub attr_bg: TermColor,
    pub attr_bold: bool,
    pub attr_reverse: bool,
    pub saved_cursor: Option<(int, int)>,
    pub alt_saved: Option<(Seq<Seq<Cell>>, int, int)>,
    pub mouse_normal: bool,
    pub mouse_button: bool,
    pub mouse_any: bool,
    pub mouse_sgr: bool,
}

/// The grid a terminal app draws into.
pub struct TermGrid {
    pub cells: Vec<Vec<Cell>>,
    pub rows: usize,
    pub cols: usize,
    pub cursor_row: usize,
    pub cursor_col: usize,
    pub cursor_visible: bool,
    pub scroll_top: usize,
    pub scroll_bottom: usize,
    pub attr_fg: TermColor,
    pub attr_bg: TermColor,
    pub attr_bold: bool,
    pub attr_reverse: bool,
    pub saved_cursor: Option<(usize, usize)>,
    pub alt_saved: Option<(Vec<Vec<Cell>>, usize, usize)>,
    pub mouse_normal: bool,
    pub mouse_button: bool,
    pub mouse_any: bool,
    pub mouse_sgr: bool,
}

pub open spec fn rows_view(cells: Seq<Vec<Cell>>) -> Seq<Seq<Cell>> {
    cells.map_values(|r: Vec<Cell>| r@)
}

impl View for TermGrid {
    type V = GridState;

    open spec fn view(&self) -> GridState {
        GridState {
            cells: rows_view(self.cells@),
            rows: self.rows as int,
            cols: self.cols as int,
            cursor_row: self.cursor_row as int,
            cursor_col: self.cursor_col as int,
            cursor_visible: self.cursor_visible,
            scroll_top: self.scroll_top as int,
            scroll_bottom: self.scroll_bottom as int,
            attr_fg: self.attr_fg,
            attr_bg: self.attr_bg,
            attr_bold: self.attr_bold,
            attr_reverse: self.attr_reverse,
            saved_cursor: match self.saved_cursor {
                Some((r, c)) => Some((r as int, c as int)),
                None => None,
            },
            alt_saved: match self.alt_saved {
                Some((cells, r, c)) => Some((rows_view(cells@), r as int, c as int)),
                None => None,
            },
            mouse_normal: self.mouse_normal,
            mouse_button: self.mouse_button,
            mouse_any: self.mouse_any,
            mouse_sgr: self.mouse_sgr,
        }
    }
}

/// Every row has at least one cell and at least `cols` of them, there are
/// at least `rows` rows, and no count is beyond what a `Vec` can hold.
pub open spec fn cells_wf(cells: Seq<Seq<Cell>>, rows: int, cols: int) -> bool {
    &&& rows <= cells.len() <= isize::MAX
    &&& forall|i: int| 0 <= i < cells.len() ==> cols <= #[trigger] cells[i].len() && 1 <= cells[i].len()
}

/// What keeps every operation of the grid within its rows and cells.
pub open spec fn grid_wf(g: GridState) -> bool {
    &&& 1 <= g.rows <= isize::MAX
    &&& 1 <= g.cols <= isize::MAX
    &&& cells_wf(g.cells, g.rows, g.cols)
    &&& 0 <= g.cursor_row < g.cells.len()
    &&& 0 <= g.cursor_col <= isize::MAX
    &&& 0 <= g.scroll_top
    &&& 0 <= g.scroll_bottom <= g.rows
    &&& match g.alt_saved {
        Some((c, r, k)) => cells_wf(c, 0, 0) && 0 <= r < c.len() && 0 <= k <= isize::MAX,
        None => true,
    }
}

/// The screen saved on entering the alternate screen covers the grid as it is
/// now, so that coming back to it leaves every row and column in place.
pub open spec fn restore_fits(g: GridState) -> bool {
    match g.alt_saved {
        Some((c, r, k)) => cells_wf(c, g.rows, g.cols),
        None => true,
    }
}

/// A fresh grid of the given size.
pub open spec fn new_grid(rows: int, cols: int) -> GridState {
    GridState {
        cells: blank_rows(rows, cols),
        rows,
        cols,
        cursor_row: 0,
        cursor_col: 0,
        cursor_visible: true,
        scroll_top: 0,
        scroll_bottom: rows,
        attr_fg: TermColor::Default,
        attr_bg: TermColor::Default,
        attr_bold: false,
        attr_reverse: false,
        saved_cursor: None,
        alt_saved: None,
        mouse_normal: false,
        mouse_button: false,
        mouse_any: false,
        mouse_sgr: false,
    }
}


impl GridState {
    pub open spec fn with_cells(self, cells: Seq<Seq<Cell>>) -> GridState {
        GridState { cells, ..self }
    }

    /// `self` with the drawing attributes of `other`.
    pub open spec fn with_attrs(self, other: GridState) -> GridState {
        GridState {
            attr_fg: other.attr_fg,
            attr_bg: other.attr_bg,
            attr_bold: other.attr_bold,
            attr_reverse: other.attr_reverse,
            ..self
        }
    }

    pub open spec fn with_cursor(self, row: int, col: int) -> GridState {
        GridState { cursor_row: row, cursor_col: col, ..self }
    }

    /// The scroll region is a proper part of the screen.
    pub open spec fn region_ok(self) -> bool {
        self.scroll_top < self.scroll_bottom && self.scroll_bottom <= self.rows
    }

    /// The attributes a newly printed cell gets.
    pub open spec fn pen(self, ch: char) -> Cell {
        Cell {
            ch,
            fg: self.attr_fg,
            bg: self.attr_bg,
            bold: self.attr_bold,
            reverse: self.attr_reverse,
        }
    }
}

/// Scroll region up by `n` lines (`CSI n S`, and one line at a time for line feeds at the bottom).
pub open spec fn scroll_up_spec(g: GridState, n: int) -> GridState {
    if g.region_ok() {
        g.with_cells(shift_up(g.cells, g.scroll_top, g.scroll_bottom, n, g.cols))
    } else {
        g
    }
}

/// Scroll region down by `n` lines (`CSI n T`, reverse index at the top).
pub open spec fn scroll_down_spec(g: GridState, n: int) -> GridState {
    if g.region_ok() {
        g.with_cells(shift_down(g.cells, g.scroll_top, g.scroll_bottom, n, g.cols))
    } else {
        g
    }
}

/// Next line; at the bottom of the scroll region the region scrolls instead.
pub open spec fn line_feed_spec(g: GridState) -> GridState {
    if g.cursor_row + 1 >= g.scroll_bottom {
        scroll_up_spec(g, 1)
    } else {
        g.with_cursor(g.cursor_row + 1, g.cursor_col)
    }
}

/// A printed character: wrap past the last column, draw with the current
/// attributes, move right.
pub open spec fn put_char_spec(g: GridState, ch: char) -> GridState {
    let g1 = if g.cursor_col >= g.cols { line_feed_spec(g.with_cursor(g.cursor_row, 0)) } else { g };
    let g2 = if g1.cursor_row < g1.rows && g1.cursor_col < g1.cols {
        g1.with_cells(g1.cells.update(g1.cursor_row, g1.cells[g1.cursor_row].update(g1.cursor_col, g1.pen(ch))))
    } else {
        g1
    };
    g2.with_cursor(g2.cursor_row, g2.cursor_col + 1)
}

/// Each row of `cells` is one of `old` or a blank row of `width` cells.
pub open spec fn rows_from(cells: Seq<Seq<Cell>>, old: Seq<Seq<Cell>>, width: int) -> bool {
    forall|i: int|
        0 <= i < cells.len() ==> #[trigger] cells[i] == blank_row(width) || exists|j: int|
            0 <= j < old.len() && cells[i] == old[j]
}

pub proof fn lemma_rows_from_wf(cells: Seq<Seq<Cell>>, old: Seq<Seq<Cell>>, rows: int, cols: int)
    requires
        cells_wf(old, 0, cols),
        1 <= cols,
        rows_from(cells, old, cols),
        rows <= cells.len() <= isize::MAX,
    ensures
        cells_wf(cells, rows, cols),
{
    assert forall|i: int| 0 <= i < cells.len() implies cols <= #[trigger] cells[i].len() && 1
        <= cells[i].len() by {
        if cells[i] != blank_row(cols) {
            let j = choose|j: int| 0 <= j < old.len() && cells[i] == old[j];
            assert(cols <= old[j].len());
        }
    }
}

pub proof fn lemma_shift_up_rows(cells: Seq<Seq<Cell>>, lo: int, hi: int, n: int, width: int)
    requires
        0 <= lo <= hi <= cells.len(),
        0 <= n,
    ensures
        shift_up(cells, lo, hi, n, width).len() == cells.len(),
        rows_from(shift_up(cells, lo, hi, n, width), cells, width),
{
    let s = shift_up(cells, lo, hi, n, width);
    let mid = cells.subrange(lo, hi) + blank_rows(n, width);
    assert forall|i: int| 0 <= i < s.len() implies #[trigger] s[i] == blank_row(width) || exists|j: int|
        0 <= j < cells.len() && s[i] == cells[j] by {
        if i < lo {
            assert(s[i] == cells[i]);
        } else if i < hi {
            let k = n + (i - lo);
            assert(s[i] == mid[k]);
            if k < hi - lo {
                assert(s[i] == cells[lo + k]);
            }
        } else {
            assert(s[i] == cells[i]);
        }
    }
}

pub proof fn lemma_shift_down_rows(cells: Seq<Seq<Cell>>, lo: int, hi: int, n: int, width: int)
    requires
        0 <= lo <= hi <= cells.len(),
        0 <= n,
    ensures
        shift_down(cells, lo, hi, n, width).len() == cells.len(),
        rows_from(shift_down(cells, lo, hi, n, width), cells, width),
{
    let s = shift_down(cells, lo, hi, n, width);
    let mid = blank_rows(n, width) + cells.subrange(lo, hi);
    assert forall|i: int| 0 <= i < s.len() implies #[trigger] s[i] == blank_row(width) || exists|j: int|
        0 <= j < cells.len() && s[i] == cells[j] by {
        if i < lo {
            assert(s[i] == cells[i]);
        } else if i < hi {
            let k = i - lo;
            assert(s[i] == mid[k]);
            if k >= n {
                assert(s[i] == cells[lo + k - n]);
            }
        } else {
            assert(s[i] == cells[i]);
        }
    }
}

/// One more step up is the same as going one step further at once.
pub proof fn lemma_queue_up_step<A>(s: Seq<A>, lo: int, hi: int, n: int, a: A)
    requires
        0 <= lo < hi <= s.len(),
        0 <= n,
    ensures
        queue_up(s, lo, hi, n + 1, a) =~= queue_up(queue_up(s, lo, hi, n, a), lo, hi, 1, a),
{
    let s1 = queue_up(s, lo, hi, n, a);
    let x = queue_up(s, lo, hi, n + 1, a);
    let y = queue_up(s1, lo, hi, 1, a);
    let mid_n = s.subrange(lo, hi) + fill(n, a);
    let mid_n1 = s.subrange(lo, hi) + fill(n + 1, a);
    let mid_y = s1.subrange(lo, hi) + fill(1, a);
    assert(s1.len() == s.len());
    assert forall|i: int| 0 <= i < x.len() implies x[i] == y[i] by {
        if lo <= i < hi {
            let k = i - lo;
            assert(x[i] == mid_n1[n + 1 + k]);
            assert(y[i] == mid_y[1 + k]);
            if k + 1 < hi - lo {
                assert(mid_y[1 + k] == s1[lo + 1 + k]);
                assert(s1[lo + 1 + k] == mid_n[n + 1 + k]);
            }
        }
    }
}

/// One more step down is the same as going one step further at once.
pub proof fn lemma_queue_down_step<A>(s: Seq<A>, lo: int, hi: int, n: int, a: A)
    requires
        0 <= lo < hi <= s.len(),
        0 <= n,
    ensures
        queue_down(s, lo, hi, n + 1, a) =~= queue_down(queue_down(s, lo, hi, n, a), lo, hi, 1, a),
{
    let s1 = queue_down(s, lo, hi, n, a);
    let x = queue_down(s, lo, hi, n + 1, a);
    let y = queue_down(s1, lo, hi, 1, a);
    let mid_n = fill(n, a) + s.subrange(lo, hi);
    let mid_n1 = fill(n + 1, a) + s.subrange(lo, hi);
    let mid_y = fill(1, a) + s1.subrange(lo, hi);
    assert(s1.len() == s.len());
    assert forall|i: int| 0 <= i < x.len() implies x[i] == y[i] by {
        if lo <= i < hi {
            let k = i - lo;
            assert(x[i] == mid_n1[k]);
            assert(y[i] == mid_y[k]);
            if k >= 1 {
                assert(mid_y[k] == s1[lo + k - 1]);
                assert(s1[lo + k - 1] == mid_n[k - 1]);
            }
        }
    }
}

/// Going zero steps changes nothing.
pub proof fn lemma_queue_zero<A>(s: Seq<A>, lo: int, hi: int, a: A)
    requires
        0 <= lo <= hi <= s.len(),
    ensures
        queue_up(s, lo, hi, 0, a) =~= s,
        queue_down(s, lo, hi, 0, a) =~= s,
{
    let u = queue_up(s, lo, hi, 0, a);
    let d = queue_down(s, lo, hi, 0, a);
    assert forall|i: int| 0 <= i < s.len() implies u[i] == s[i] && d[i] == s[i] by {
        if lo <= i < hi {
            assert((s.subrange(lo, hi) + fill(0, a))[i - lo] == s[i]);
            assert((fill(0, a) + s.subrange(lo, hi))[i - lo] == s[i]);
        }
    }
}

fn blank_row_exec(n: usize) -> (row: Vec<Cell>)
    ensures
        row@ == blank_row(n as int),
{
    let mut row: Vec<Cell> = Vec::new();
    let mut i: usize = 0;
    while i < n
        invariant
            i <= n,
            row@ == blank_row(i as int),
        decreases n - i,
    {
        row.push(Cell::default());
        i = i + 1;
        assert(row@ =~= blank_row(i as int));
    }
    row
}

impl TermGrid {
    pub fn new(rows: usize, cols: usize) -> (g: TermGrid)
        requires
            1 <= rows <= isize::MAX,
            1 <= cols <= isize::MAX,
        ensures
            g@ == new_grid(rows as int, cols as int),
            grid_wf(g@),
    {
        let mut cells: Vec<Vec<Cell>> = Vec::new();
        let mut i: usize = 0;
        while i < rows
            invariant
                i <= rows,
                cells@.len() == i,
                rows_view(cells@) == blank_rows(i as int, cols as int),
            decreases rows - i,
        {
            let row = blank_row_exec(cols);
            let ghost before = cells@;
            cells.push(row);
            assert(cells@ == before.push(row));
            assert forall|j: int| 0 <= j < i + 1 implies #[trigger] rows_view(cells@)[j] == blank_rows(
                i + 1,
                cols as int,
            )[j] by {
                assert(rows_view(cells@)[j] == cells@[j]@);
                if j < i {
                    assert(rows_view(before)[j] == blank_rows(i as int, cols as int)[j]);
                    assert(before[j] == cells@[j]);
                } else {
                    assert(cells@[j] == row);
                    assert(row@ == blank_row(cols as int));
                }
            }
            i = i + 1;
            assert(rows_view(cells@) =~= blank_rows(i as int, cols as int));
        }
        let g = TermGrid {
            cells,
            rows,
            cols,
            cursor_row: 0,
            cursor_col: 0,
            cursor_visible: true,
            scroll_top: 0,
            scroll_bottom: rows,
            attr_fg: TermColor::Default,
            attr_bg: TermColor::Default,
            attr_bold: false,
            attr_reverse: false,
            saved_cursor: None,
            alt_saved: None,
            mouse_normal: false,
            mouse_button: false,
            mouse_any: false,
            mouse_sgr: false,
        };
        assert(g@ =~= new_grid(rows as int, cols as int));
        g
    }

    /// Whether the app asked for mouse reports of any kind.
    pub fn mouse_enabled(&self) -> (b: bool)
        ensures
            b == (self@.mouse_normal || self@.mouse_button || self@.mouse_any),
    {
        self.mouse_normal || self.mouse_button || self.mouse_any
    }

    /// A blank grid for a fresh session, same size.
    pub fn reset(&mut self)
        requires
            grid_wf(old(self)@),
        ensures
            final(self)@ == new_grid(old(self)@.rows, old(self)@.cols),
            grid_wf(final(self)@),
    {
        *self = TermGrid::new(self.rows, self.cols);
    }
}



/// `ED`: 0 from the cursor to the end of the screen, 1 from the start of the
/// screen to the cursor, 2 and 3 the whole screen; other modes do nothing.
pub open spec fn erase_display_spec(g: GridState, mode: int) -> GridState {
    let (cr, cc, rows, cols) = (g.cursor_row, g.cursor_col, g.rows, g.cols);
    if mode == 0 {
        g.with_cells(erase_where(g.cells, |i: int, j: int| (i == cr && cc <= j < cols) || (cr < i < rows && 0 <= j < cols)))
    } else if mode == 1 {
        g.with_cells(erase_where(g.cells, |i: int, j: int| (0 <= i < cr && 0 <= j < cols) || (i == cr && 0 <= j <= min(cc, cols - 1))))
    } else if mode == 2 || mode == 3 {
        g.with_cells(erase_where(g.cells, |i: int, j: int| 0 <= i < rows && 0 <= j < cols))
    } else {
        g
    }
}

/// `EL`: 0 from the cursor to the end of its line, 1 from the start of the
/// line to the cursor, 2 the whole line; nothing when the cursor is below the screen.
pub open spec fn erase_line_spec(g: GridState, mode: int) -> GridState {
    let (cr, cc, cols) = (g.cursor_row, g.cursor_col, g.cols);
    if cr >= g.rows {
        g
    } else if mode == 0 {
        g.with_cells(erase_where(g.cells, |i: int, j: int| i == cr && cc <= j < cols))
    } else if mode == 1 {
        g.with_cells(erase_where(g.cells, |i: int, j: int| i == cr && 0 <= j <= min(cc, cols - 1)))
    } else if mode == 2 {
        g.with_cells(erase_where(g.cells, |i: int, j: int| i == cr && 0 <= j < cols))
    } else {
        g
    }
}

/// `ECH`: `n` cells from the cursor on become blank, within the line.
pub open spec fn erase_chars_spec(g: GridState, n: int) -> GridState {
    let (cr, cc, cols) = (g.cursor_row, g.cursor_col, g.cols);
    if cr >= g.rows {
        g
    } else {
        g.with_cells(erase_where(g.cells, |i: int, j: int| i == cr && cc <= j < cc + n && j < cols))
    }
}

/// Erasing by `p` and then by `q` is erasing by `r` when `r` is `p` or `q`.
pub proof fn lemma_erase_twice(
    cells: Seq<Seq<Cell>>,
    p: spec_fn(int, int) -> bool,
    q: spec_fn(int, int) -> bool,
    r: spec_fn(int, int) -> bool,
)
    requires
        forall|i: int, j: int| #[trigger] r(i, j) <==> p(i, j) || q(i, j),
    ensures
        erase_where(erase_where(cells, p), q) == erase_where(cells, r),
{
    let a = erase_where(erase_where(cells, p), q);
    let b = erase_where(cells, r);
    assert forall|i: int| 0 <= i < a.len() implies #[trigger] a[i] =~= b[i] by {
    }
    assert(a =~= b);
}

pub proof fn lemma_erase_same(cells: Seq<Seq<Cell>>, p: spec_fn(int, int) -> bool, q: spec_fn(int, int) -> bool)
    requires
        forall|i: int, j: int| 0 <= i < cells.len() && 0 <= j < cells[i].len() ==> (#[trigger] p(i, j) <==> q(i, j)),
    ensures
        erase_where(cells, p) =~= erase_where(cells, q),
{
    let a = erase_where(cells, p);
    let b = erase_where(cells, q);
    assert forall|i: int| 0 <= i < a.len() implies a[i] =~= b[i] by {
    }
}

/// Erasing where the predicate never holds changes nothing.
pub proof fn lemma_erase_none(cells: Seq<Seq<Cell>>, p: spec_fn(int, int) -> bool)
    requires
        forall|i: int, j: int| #[trigger] p(i, j) ==> false,
    ensures
        erase_where(cells, p) == cells,
{
    let e = erase_where(cells, p);
    assert forall|i: int| 0 <= i < e.len() implies #[trigger] e[i] =~= cells[i] by {
    }
    assert(e =~= cells);
}

pub proof fn lemma_erase_wf(cells: Seq<Seq<Cell>>, p: spec_fn(int, int) -> bool, rows: int, cols: int)
    requires
        cells_wf(cells, rows, cols),
    ensures
        cells_wf(erase_where(cells, p), rows, cols),
        erase_where(cells, p).len() == cells.len(),
        forall|i: int| 0 <= i < cells.len() ==> #[trigger] erase_where(cells, p)[i].len() == cells[i].len(),
{
    let e = erase_where(cells, p);
    assert forall|i: int| 0 <= i < e.len() implies cols <= #[trigger] e[i].len() && 1 <= e[i].len() by {
        assert(e[i].len() == cells[i].len());
    }
}

/// `DCH`: `n` cells at the cursor go, the rest of the line moves left and
/// blanks come in at its end.
pub open spec fn delete_chars_spec(g: GridState, n: int) -> GridState {
    let (cr, cc) = (g.cursor_row, g.cursor_col);
    if cr >= g.rows || cc >= g.cols {
        g
    } else {
        g.with_cells(g.cells.update(cr, queue_up(g.cells[cr], cc, g.cells[cr].len() as int, n, blank())))
    }
}

/// `n` blanks go in at `at`, the line is cut back to `width` cells.
pub open spec fn insert_in_row(row: Seq<Cell>, at: int, width: int, n: int) -> Seq<Cell> {
    (row.subrange(0, at) + blank_row(n) + row.subrange(at, row.len() as int)).subrange(0, width)
}

/// `ICH`: `n` blanks go in at the cursor, the line moves right and is cut at the last column.
pub open spec fn insert_chars_spec(g: GridState, n: int) -> GridState {
    let (cr, cc) = (g.cursor_row, g.cursor_col);
    if cr >= g.rows || cc >= g.cols || n == 0 {
        g
    } else {
        g.with_cells(g.cells.update(cr, insert_in_row(g.cells[cr], cc, g.cols, n)))
    }
}

/// `IL`: `n` blank lines go in at the cursor row, the lines below it down to
/// the bottom of the scroll region move down.
pub open spec fn insert_lines_spec(g: GridState, n: int) -> GridState {
    if g.cursor_row < g.scroll_bottom {
        g.with_cells(queue_down(g.cells, g.cursor_row, g.scroll_bottom, n, blank_row(g.cols)))
    } else {
        g
    }
}

/// `DL`: `n` lines at the cursor row go, the lines below it up to the bottom
/// of the scroll region move up and blank lines come in there.
pub open spec fn delete_lines_spec(g: GridState, n: int) -> GridState {
    if g.cursor_row < g.scroll_bottom && g.cursor_row < g.rows {
        g.with_cells(queue_up(g.cells, g.cursor_row, g.scroll_bottom, n, blank_row(g.cols)))
    } else {
        g
    }
}

pub proof fn lemma_insert_in_row_step(row: Seq<Cell>, at: int, width: int, k: int)
    requires
        0 <= at < width <= row.len(),
        0 <= k,
    ensures
        insert_in_row(insert_in_row(row, at, width, k), at, width, 1) =~= insert_in_row(row, at, width, k + 1),
{
    let x = insert_in_row(row, at, width, k);
    let a = insert_in_row(x, at, width, 1);
    let b = insert_in_row(row, at, width, k + 1);
    let wx = row.subrange(0, at) + blank_row(k) + row.subrange(at, row.len() as int);
    let wa = x.subrange(0, at) + blank_row(1) + x.subrange(at, x.len() as int);
    let wb = row.subrange(0, at) + blank_row(k + 1) + row.subrange(at, row.len() as int);
    assert forall|i: int| 0 <= i < width implies a[i] == b[i] by {
        assert(a[i] == wa[i]);
        assert(b[i] == wb[i]);
        if i > at {
            assert(wa[i] == x[i - 1]);
            assert(x[i - 1] == wx[i - 1]);
        }
    }
}

/// Rows that are all at least `cols` wide stay so when the grid's rows are moved around.
pub proof fn lemma_row_len_kept(cells: Seq<Seq<Cell>>, r: int, row: Seq<Cell>, rows: int, cols: int)
    requires
        cells_wf(cells, rows, cols),
        0 <= r < cells.len(),
        cols <= row.len(),
        1 <= row.len(),
    ensures
        cells_wf(cells.update(r, row), rows, cols),
{
    let c = cells.update(r, row);
    assert forall|i: int| 0 <= i < c.len() implies cols <= #[trigger] c[i].len() && 1 <= c[i].len() by {
        if i != r {
            assert(c[i] == cells[i]);
        }
    }
}

/// The saved screen and cursor go aside, the screen is cleared and the cursor goes home (`CSI ?1049h`).
pub open spec fn enter_alt_spec(g: GridState) -> GridState {
    let saved = GridState { alt_saved: Some((g.cells, g.cursor_row, g.cursor_col)), ..g };
    erase_display_spec(saved, 2).with_cursor(0, 0)
}

/// The screen and cursor saved by [`enter_alt_spec`] come back (`CSI ?1049l`).
pub open spec fn leave_alt_spec(g: GridState) -> GridState {
    match g.alt_saved {
        Some((cells, r, c)) => GridState { cells, cursor_row: r, cursor_col: c, alt_saved: None, ..g },
        None => g,
    }
}

/// Drawing attributes back to the defaults.
pub open spec fn reset_attrs_spec(g: GridState) -> GridState {
    GridState { attr_fg: TermColor::Default, attr_bg: TermColor::Default, attr_bold: false, attr_reverse: false, ..g }
}

/// One SGR parameter that stands on its own.
pub open spec fn sgr_one(g: GridState, v: int) -> GridState {
    if v == 0 {
        reset_attrs_spec(g)
    } else if v == 1 {
        GridState { attr_bold: true, ..g }
    } else if v == 7 {
        GridState { attr_reverse: true, ..g }
    } else if v == 22 {
        GridState { attr_bold: false, ..g }
    } else if v == 27 {
        GridState { attr_reverse: false, ..g }
    } else if 30 <= v <= 37 {
        GridState { attr_fg: TermColor::Indexed((v - 30) as u8), ..g }
    } else if v == 39 {
        GridState { attr_fg: TermColor::Default, ..g }
    } else if 40 <= v <= 47 {
        GridState { attr_bg: TermColor::Indexed((v - 40) as u8), ..g }
    } else if v == 49 {
        GridState { attr_bg: TermColor::Default, ..g }
    } else if 90 <= v <= 97 {
        GridState { attr_fg: TermColor::Indexed((v - 90 + 8) as u8), ..g }
    } else if 100 <= v <= 107 {
        GridState { attr_bg: TermColor::Indexed((v - 100 + 8) as u8), ..g }
    } else {
        g
    }
}

/// The color an extended SGR parameter (38 or 48) at `i` asks for, and how
/// many parameters after it belong to it: `5;n` is palette entry `n`, `2;r;g;b`
/// an RGB value; anything else names no color and takes nothing.
pub open spec fn extended_color(p: Seq<u16>, i: int) -> (Option<TermColor>, int) {
    if i + 2 < p.len() && p[i + 1] == 5 {
        (Some(TermColor::Indexed(p[i + 2] as u8)), 2)
    } else if i + 4 < p.len() && p[i + 1] == 2 {
        (Some(TermColor::Rgb(p[i + 2] as u8, p[i + 3] as u8, p[i + 4] as u8)), 4)
    } else {
        (None, 0)
    }
}

/// The SGR parameters from `i` on, applied left to right.
pub open spec fn sgr_from(g: GridState, p: Seq<u16>, i: int) -> GridState
    decreases p.len() - i,
{
    if i < 0 || i >= p.len() {
        g
    } else if p[i] == 38 || p[i] == 48 {
        let (color, used) = extended_color(p, i);
        let g1 = match color {
            Some(c) => if p[i] == 38 {
                GridState { attr_fg: c, ..g }
            } else {
                GridState { attr_bg: c, ..g }
            },
            None => g,
        };
        sgr_from(g1, p, i + 1 + used)
    } else {
        sgr_from(sgr_one(g, p[i] as int), p, i + 1)
    }
}

/// `SGR`: no parameters resets the attributes, otherwise each applies in turn.
pub open spec fn sgr_spec(g: GridState, p: Seq<u16>) -> GridState {
    if p.len() == 0 {
        reset_attrs_spec(g)
    } else {
        sgr_from(g, p, 0)
    }
}

/// One private mode (`CSI ?n h` sets, `CSI ?n l` resets).
pub open spec fn mode_one(g: GridState, v: int, on: bool) -> GridState {
    if v == 25 {
        GridState { cursor_visible: on, ..g }
    } else if v == 1000 {
        GridState { mouse_normal: on, ..g }
    } else if v == 1002 {
        GridState { mouse_button: on, ..g }
    } else if v == 1003 {
        GridState { mouse_any: on, ..g }
    } else if v == 1006 {
        GridState { mouse_sgr: on, ..g }
    } else if v == 1049 {
        if on { enter_alt_spec(g) } else { leave_alt_spec(g) }
    } else {
        g
    }
}

/// The private modes from `i` on, applied left to right.
pub open spec fn modes_from(g: GridState, p: Seq<u16>, i: int, on: bool) -> GridState
    decreases p.len() - i,
{
    if i < 0 || i >= p.len() {
        g
    } else {
        modes_from(mode_one(g, p[i] as int, on), p, i + 1, on)
    }
}

/// Parameter `i`, or `def` when it is missing or zero.
pub open spec fn param(p: Seq<u16>, i: int, def: int) -> int {
    if 0 <= i < p.len() && p[i] > 0 {
        p[i] as int
    } else {
        def
    }
}

/// The sequence is `CSI ?... l` with 1049 among its parameters, the one that
/// brings the saved screen back.
pub open spec fn leaves_alt(p: Seq<u16>, intermediates: Seq<u8>, action: char) -> bool {
    action == 'l' && intermediates.contains(63u8) && p.contains(1049u16)
}

/// The cursor movements: up, down, right, left by `n`; to a position; to a
/// column; to a row. Positions are 1 based and kept on screen.
pub open spec fn csi_move_spec(g: GridState, p: Seq<u16>, action: char) -> GridState {
    let n = param(p, 0, 1);
    let (row, col, rows, cols) = (g.cursor_row, g.cursor_col, g.rows, g.cols);
    if action == 'A' {
        g.with_cursor(sat_sub(row, n), col)
    } else if action == 'B' {
        g.with_cursor(min(row + n, rows - 1), col)
    } else if action == 'C' {
        g.with_cursor(row, min(col + n, cols - 1))
    } else if action == 'D' {
        g.with_cursor(row, sat_sub(col, n))
    } else if action == 'H' || action == 'f' {
        g.with_cursor(min(sat_sub(param(p, 0, 1), 1), rows - 1), min(sat_sub(param(p, 1, 1), 1), cols - 1))
    } else if action == 'G' || action == '`' {
        g.with_cursor(row, min(sat_sub(n, 1), cols - 1))
    } else {
        g.with_cursor(min(sat_sub(n, 1), rows - 1), col)
    }
}

pub open spec fn is_move(action: char) -> bool {
    action == 'A' || action == 'B' || action == 'C' || action == 'D' || action == 'H' || action == 'f'
        || action == 'G' || action == '`' || action == 'd'
}

/// The edits: erase in display and line, insert and delete lines and
/// characters, erase characters, scroll up and down.
pub open spec fn csi_edit_spec(g: GridState, p: Seq<u16>, action: char) -> GridState {
    let n = param(p, 0, 1);
    if action == 'J' {
        erase_display_spec(g, param(p, 0, 0))
    } else if action == 'K' {
        erase_line_spec(g, param(p, 0, 0))
    } else if action == 'L' {
        insert_lines_spec(g, n)
    } else if action == 'M' {
        delete_lines_spec(g, n)
    } else if action == 'P' {
        delete_chars_spec(g, n)
    } else if action == 'X' {
        erase_chars_spec(g, n)
    } else if action == '@' {
        insert_chars_spec(g, n)
    } else if action == 'S' {
        scroll_up_spec(g, n)
    } else {
        scroll_down_spec(g, n)
    }
}

pub open spec fn is_edit(action: char) -> bool {
    action == 'J' || action == 'K' || action == 'L' || action == 'M' || action == 'P' || action == 'X'
        || action == '@' || action == 'S' || action == 'T'
}

/// The rest: graphics rendition, scroll region, saving and restoring the
/// cursor, and the private modes (with `?` among the intermediates).
pub open spec fn csi_state_spec(g: GridState, p: Seq<u16>, private: bool, action: char) -> GridState {
    let (row, col, rows, cols) = (g.cursor_row, g.cursor_col, g.rows, g.cols);
    if action == 'm' {
        sgr_spec(g, p)
    } else if action == 'r' {
        GridState {
            scroll_top: sat_sub(param(p, 0, 1), 1),
            scroll_bottom: min(param(p, 1, (rows as u16) as int), rows),
            ..g
        }
    } else if action == 's' {
        GridState { saved_cursor: Some((row, col)), ..g }
    } else if action == 'u' {
        match g.saved_cursor {
            Some((r, c)) => g.with_cursor(min(r, rows - 1), min(c, cols - 1)),
            None => g,
        }
    } else if action == 'h' && private {
        modes_from(g, p, 0, true)
    } else if action == 'l' && private {
        modes_from(g, p, 0, false)
    } else {
        g
    }
}

/// What `CSI params intermediates action` does to the grid; actions it does
/// not know change nothing.
pub open spec fn csi_spec(g: GridState, p: Seq<u16>, intermediates: Seq<u8>, action: char) -> GridState {
    if is_move(action) {
        csi_move_spec(g, p, action)
    } else if is_edit(action) {
        csi_edit_spec(g, p, action)
    } else {
        csi_state_spec(g, p, intermediates.contains(63u8), action)
    }
}

/// A C0 control byte: backspace, tab to the next multiple of 8 (kept on
/// screen), line feed (and vertical tab, form feed), carriage return.
pub open spec fn execute_spec(g: GridState, byte: u8) -> GridState {
    if byte == 0x08 {
        g.with_cursor(g.cursor_row, sat_sub(g.cursor_col, 1))
    } else if byte == 0x09 {
        let next = (g.cursor_col / 8 + 1) * 8;
        g.with_cursor(g.cursor_row, if next >= g.cols { g.cols - 1 } else { next })
    } else if 0x0A <= byte <= 0x0C {
        line_feed_spec(g)
    } else if byte == 0x0D {
        g.with_cursor(g.cursor_row, 0)
    } else {
        g
    }
}

/// An escape sequence without intermediates: save (`7`) and restore (`8`)
/// the cursor, index (`D`), reverse index (`M`).
pub open spec fn esc_spec(g: GridState, intermediates: Seq<u8>, byte: u8) -> GridState {
    if intermediates.len() > 0 {
        g
    } else if byte == 0x37 {
        GridState { saved_cursor: Some((g.cursor_row, g.cursor_col)), ..g }
    } else if byte == 0x38 {
        match g.saved_cursor {
            Some((r, c)) => g.with_cursor(min(r, g.rows - 1), min(c, g.cols - 1)),
            None => g,
        }
    } else if byte == 0x44 {
        line_feed_spec(g)
    } else if byte == 0x4D {
        if g.cursor_row == g.scroll_top {
            scroll_down_spec(g, 1)
        } else {
            g.with_cursor(sat_sub(g.cursor_row, 1), g.cursor_col)
        }
    } else {
        g
    }
}

/// A row cut to, or padded with blanks to, `width` cells.
pub open spec fn fit_row(row: Seq<Cell>, width: int) -> Seq<Cell> {
    if width <= row.len() {
        row.subrange(0, width)
    } else {
        row + blank_row(width - row.len())
    }
}

/// A new size: every row cut or padded to the new width, rows cut or blank
/// rows added to the new height, the scroll region the whole screen and the
/// cursor kept on it. The same size changes nothing.
pub open spec fn resize_spec(g: GridState, rows: int, cols: int) -> GridState {
    if rows == g.rows && cols == g.cols {
        g
    } else {
        GridState {
            cells: Seq::new(
                rows as nat,
                |i: int| if i < g.cells.len() { fit_row(g.cells[i], cols) } else { blank_row(cols) },
            ),
            rows,
            cols,
            scroll_top: 0,
            scroll_bottom: rows,
            cursor_row: min(g.cursor_row, rows - 1),
            cursor_col: min(g.cursor_col, cols - 1),
            ..g
        }
    }
}

pub proof fn lemma_rows_view_len(cells: Seq<Vec<Cell>>)
    ensures
        rows_view(cells).len() == cells.len(),
        forall|i: int| 0 <= i < cells.len() ==> #[trigger] rows_view(cells)[i] == cells[i]@,
{
}

impl TermGrid {
    /// The region moves up one line, a blank line comes in at its bottom.
    fn scroll_up(&mut self)
        requires
            grid_wf(old(self)@),
        ensures
            final(self)@ == scroll_up_spec(old(self)@, 1),
            grid_wf(final(self)@),
    {
        let ghost g = self@;
        if self.scroll_top < self.scroll_bottom && self.scroll_bottom <= self.rows {
            proof {
                lemma_rows_view_len(self.cells@);
            }
            let ghost before = self.cells@;
            self.cells.remove(self.scroll_top);
            let row = blank_row_exec(self.cols);
            self.cells.insert(self.scroll_bottom - 1, row);
            proof {
                let want = shift_up(g.cells, g.scroll_top, g.scroll_bottom, 1, g.cols);
                lemma_rows_view_len(self.cells@);
                lemma_rows_view_len(before);
                let mid = g.cells.subrange(g.scroll_top, g.scroll_bottom) + blank_rows(1, g.cols);
                assert forall|k: int| 0 <= k < want.len() implies #[trigger] rows_view(self.cells@)[k] == want[k] by {
                    if k < g.scroll_top {
                    } else if k < g.scroll_bottom - 1 {
                        assert(want[k] == mid[1 + k - g.scroll_top]);
                    } else if k == g.scroll_bottom - 1 {
                        assert(want[k] == mid[1 + k - g.scroll_top]);
                    } else {
                    }
                }
                assert(rows_view(self.cells@) =~= want);
                lemma_shift_up_rows(g.cells, g.scroll_top, g.scroll_bottom, 1, g.cols);
                lemma_rows_from_wf(want, g.cells, g.rows, g.cols);
            }
        }
        assert(self@ =~= scroll_up_spec(g, 1));
    }

    /// The region moves down one line, a blank line comes in at its top.
    fn scroll_down(&mut self)
        requires
            grid_wf(old(self)@),
        ensures
            final(self)@ == scroll_down_spec(old(self)@, 1),
            grid_wf(final(self)@),
    {
        let ghost g = self@;
        if self.scroll_top < self.scroll_bottom && self.scroll_bottom <= self.rows {
            proof {
                lemma_rows_view_len(self.cells@);
            }
            let ghost before = self.cells@;
            self.cells.remove(self.scroll_bottom - 1);
            let row = blank_row_exec(self.cols);
            self.cells.insert(self.scroll_top, row);
            proof {
                let want = shift_down(g.cells, g.scroll_top, g.scroll_bottom, 1, g.cols);
                lemma_rows_view_len(self.cells@);
                lemma_rows_view_len(before);
                let mid = blank_rows(1, g.cols) + g.cells.subrange(g.scroll_top, g.scroll_bottom);
                assert forall|k: int| 0 <= k < want.len() implies #[trigger] rows_view(self.cells@)[k] == want[k] by {
                    if g.scroll_top <= k < g.scroll_bottom {
                        assert(want[k] == mid[k - g.scroll_top]);
                    }
                }
                assert(rows_view(self.cells@) =~= want);
                lemma_shift_down_rows(g.cells, g.scroll_top, g.scroll_bottom, 1, g.cols);
                lemma_rows_from_wf(want, g.cells, g.rows, g.cols);
            }
        }
        assert(self@ =~= scroll_down_spec(g, 1));
    }

    fn line_feed(&mut self)
        requires
            grid_wf(old(self)@),
        ensures
            final(self)@ == line_feed_spec(old(self)@),
            grid_wf(final(self)@),
    {
        if self.cursor_row + 1 >= self.scroll_bottom {
            self.scroll_up();
        } else {
            self.cursor_row = self.cursor_row + 1;
        }
    }

    /// Draws `cell` at row `r`, column `k`.
    fn set_cell(&mut self, r: usize, k: usize, cell: Cell)
        requires
            grid_wf(old(self)@),
            r < old(self)@.cells.len(),
            k < old(self)@.cells[r as int].len(),
        ensures
            final(self)@ == old(self)@.with_cells(
                old(self)@.cells.update(r as int, old(self)@.cells[r as int].update(k as int, cell)),
            ),
            grid_wf(final(self)@),
    {
        let ghost g = self@;
        proof {
            lemma_rows_view_len(self.cells@);
        }
        self.cells[r][k] = cell;
        proof {
            lemma_rows_view_len(self.cells@);
            let want = g.cells.update(r as int, g.cells[r as int].update(k as int, cell));
            assert(rows_view(self.cells@) =~= want);
            assert forall|i: int| 0 <= i < want.len() implies g.cols <= #[trigger] want[i].len() && 1
                <= want[i].len() by {
                assert(want[i].len() == g.cells[i].len());
            }
        }
        assert(self@ =~= g.with_cells(g.cells.update(r as int, g.cells[r as int].update(k as int, cell))));
    }

    fn put_char(&mut self, c: char)
        requires
            grid_wf(old(self)@),
        ensures
            final(self)@ == put_char_spec(old(self)@, c),
            grid_wf(final(self)@),
    {
        let ghost g = self@;
        if self.cursor_col >= self.cols {
            self.cursor_col = 0;
            assert(self@ == g.with_cursor(g.cursor_row, 0));
            self.line_feed();
        }
        let ghost g1 = self@;
        assert(g1 == (if g.cursor_col >= g.cols { line_feed_spec(g.with_cursor(g.cursor_row, 0)) } else { g }));
        if self.cursor_row < self.rows && self.cursor_col < self.cols {
            assert(self.cols <= self@.cells[self.cursor_row as int].len());
            let cell = Cell {
                ch: c,
                fg: self.attr_fg,
                bg: self.attr_bg,
                bold: self.attr_bold,
                reverse: self.attr_reverse,
            };
            let r = self.cursor_row;
            let k = self.cursor_col;
            self.set_cell(r, k, cell);
            assert(cell == g1.pen(c));
        }
        self.cursor_col = self.cursor_col + 1;
    }
}

impl TermGrid {
    /// Cells `from..to` of row `r` become blank.
    fn blank_span(&mut self, r: usize, from: usize, to: usize)
        requires
            grid_wf(old(self)@),
            r < old(self)@.cells.len(),
            to <= old(self)@.cells[r as int].len(),
        ensures
            final(self)@ == old(self)@.with_cells(
                erase_where(old(self)@.cells, |i: int, j: int| i == r && from <= j < to),
            ),
            grid_wf(final(self)@),
    {
        let ghost g = self@;
        let mut j = from;
        proof {
            lemma_erase_none(g.cells, |i: int, k: int| i == r && from <= k < j);
        }
        while j < to
            invariant
                grid_wf(self@),
                grid_wf(g),
                self@ == g.with_cells(erase_where(g.cells, |i: int, k: int| i == r && from <= k < j)),
                r < g.cells.len(),
                to <= g.cells[r as int].len(),
                from <= j,
                from < to ==> j <= to,
                to <= from ==> j == from,
            decreases to - j,
        {
            let ghost before = erase_where(g.cells, |i: int, k: int| i == r && from <= k < j);
            proof {
                lemma_erase_wf(g.cells, |i: int, k: int| i == r && from <= k < j, g.rows, g.cols);
            }
            self.set_cell(r, j, Cell::default());
            proof {
                let after = erase_where(g.cells, |i: int, k: int| i == r && from <= k < j + 1);
                lemma_erase_wf(g.cells, |i: int, k: int| i == r && from <= k < j + 1, g.rows, g.cols);
                let upd = before.update(r as int, before[r as int].update(j as int, blank()));
                assert forall|i: int| 0 <= i < upd.len() implies #[trigger] upd[i] =~= after[i] by {
                    if i == r {
                        assert(upd[i] =~= after[i]);
                    } else {
                        assert(upd[i] == before[i]);
                    }
                }
                assert(upd =~= after);
            }
            j = j + 1;
        }
        proof {
            let a = erase_where(g.cells, |i: int, k: int| i == r && from <= k < j);
            let b = erase_where(g.cells, |i: int, k: int| i == r && from <= k < to);
            assert forall|i: int| 0 <= i < a.len() implies #[trigger] a[i] =~= b[i] by {
            }
            assert(a =~= b);
        }
    }
}

impl TermGrid {
    /// Cells `c0..c1` of rows `r0..r1` become blank.
    fn blank_rect(&mut self, r0: usize, r1: usize, c0: usize, c1: usize)
        requires
            grid_wf(old(self)@),
            r1 <= old(self)@.cells.len(),
            c1 <= old(self)@.cols,
        ensures
            final(self)@ == old(self)@.with_cells(
                erase_where(old(self)@.cells, |i: int, j: int| r0 <= i < r1 && c0 <= j < c1),
            ),
            grid_wf(final(self)@),
    {
        let ghost g = self@;
        let mut r = r0;
        proof {
            lemma_erase_none(g.cells, |i: int, j: int| r0 <= i < r && c0 <= j < c1);
        }
        while r < r1
            invariant
                grid_wf(self@),
                grid_wf(g),
                self@ == g.with_cells(erase_where(g.cells, |i: int, j: int| r0 <= i < r && c0 <= j < c1)),
                r1 <= g.cells.len(),
                c1 <= g.cols,
                r0 <= r,
                r0 < r1 ==> r <= r1,
                r1 <= r0 ==> r == r0,
            decreases r1 - r,
        {
            let ghost before = erase_where(g.cells, |i: int, j: int| r0 <= i < r && c0 <= j < c1);
            proof {
                lemma_erase_wf(g.cells, |i: int, j: int| r0 <= i < r && c0 <= j < c1, g.rows, g.cols);
                assert(g.cols <= before[r as int].len());
            }
            let ghost s0 = self@;
            self.blank_span(r, c0, c1);
            proof {
                lemma_erase_twice(
                    g.cells,
                    |i: int, j: int| r0 <= i < r && c0 <= j < c1,
                    |i: int, j: int| i == r && c0 <= j < c1,
                    |i: int, j: int| r0 <= i < r + 1 && c0 <= j < c1,
                );
            }
            r = r + 1;
        }
        proof {
            lemma_erase_same(
                g.cells,
                |i: int, j: int| r0 <= i < r && c0 <= j < c1,
                |i: int, j: int| r0 <= i < r1 && c0 <= j < c1,
            );
        }
    }

    fn erase_display(&mut self, mode: u16)
        requires
            grid_wf(old(self)@),
        ensures
            final(self)@ == erase_display_spec(old(self)@, mode as int),
            grid_wf(final(self)@),
    {
        let ghost g = self@;
        let (cr, cc, rows, cols) = (self.cursor_row, self.cursor_col, self.rows, self.cols);
        if mode == 0 {
            let start = if cc < cols { cc } else { cols };
            proof {
                assert(g.cols <= g.cells[cr as int].len());
            }
            self.blank_span(cr, start, cols);
            let ghost g1 = self@;
            self.blank_rect(cr + 1, rows, 0, cols);
            proof {
                lemma_erase_twice(
                    g.cells,
                    |i: int, j: int| i == cr && start <= j < cols,
                    |i: int, j: int| cr + 1 <= i < rows && 0 <= j < cols,
                    |i: int, j: int| (i == cr && cc <= j < cols) || (cr < i < rows && 0 <= j < cols),
                );
            }
        } else if mode == 1 {
            self.blank_rect(0, cr, 0, cols);
            let last = if cc < cols - 1 { cc } else { cols - 1 };
            proof {
                lemma_erase_wf(g.cells, |i: int, j: int| 0 <= i < cr && 0 <= j < cols, g.rows, g.cols);
                assert(g.cols <= g.cells[cr as int].len());
            }
            self.blank_span(cr, 0, last + 1);
            proof {
                lemma_erase_twice(
                    g.cells,
                    |i: int, j: int| 0 <= i < cr && 0 <= j < cols,
                    |i: int, j: int| i == cr && 0 <= j < last + 1,
                    |i: int, j: int| (0 <= i < cr && 0 <= j < cols) || (i == cr && 0 <= j <= min(cc as int, cols - 1)),
                );
            }
        } else if mode == 2 || mode == 3 {
            self.blank_rect(0, rows, 0, cols);
        }
    }

    fn erase_line(&mut self, mode: u16)
        requires
            grid_wf(old(self)@),
        ensures
            final(self)@ == erase_line_spec(old(self)@, mode as int),
            grid_wf(final(self)@),
    {
        let ghost g = self@;
        let row = self.cursor_row;
        if row >= self.rows {
            return;
        }
        let (cc, cols) = (self.cursor_col, self.cols);
        proof {
            assert(g.cols <= g.cells[row as int].len());
        }
        if mode == 0 {
            let start = if cc < cols { cc } else { cols };
            self.blank_span(row, start, cols);
            proof {
                lemma_erase_same(
                    g.cells,
                    |i: int, j: int| i == row && start <= j < cols,
                    |i: int, j: int| i == row && cc <= j < cols,
                );
            }
        } else if mode == 1 {
            let last = if cc < cols - 1 { cc } else { cols - 1 };
            self.blank_span(row, 0, last + 1);
            proof {
                lemma_erase_same(
                    g.cells,
                    |i: int, j: int| i == row && 0 <= j < last + 1,
                    |i: int, j: int| i == row && 0 <= j <= min(cc as int, cols - 1),
                );
            }
        } else if mode == 2 {
            self.blank_span(row, 0, cols);
        }
    }

    fn erase_chars(&mut self, n: usize)
        requires
            grid_wf(old(self)@),
            n <= u16::MAX,
        ensures
            final(self)@ == erase_chars_spec(old(self)@, n as int),
            grid_wf(final(self)@),
    {
        let ghost g = self@;
        let row = self.cursor_row;
        if row >= self.rows {
            return;
        }
        let (cc, cols) = (self.cursor_col, self.cols);
        proof {
            assert(g.cols <= g.cells[row as int].len());
        }
        let end = if cc + n < cols { cc + n } else { cols };
        let start = if cc < end { cc } else { end };
        self.blank_span(row, start, end);
        proof {
            lemma_erase_same(
                g.cells,
                |i: int, j: int| i == row && start <= j < end,
                |i: int, j: int| i == row && cc <= j < cc + n && j < cols,
            );
        }
    }
}

impl TermGrid {
    /// Replaces the row the cursor is on, for the in-line edits.
    fn replace_row(&mut self, r: usize, row: Vec<Cell>)
        requires
            grid_wf(old(self)@),
            r < old(self)@.cells.len(),
            old(self)@.cols <= row@.len(),
            1 <= row@.len(),
        ensures
            final(self)@ == old(self)@.with_cells(old(self)@.cells.update(r as int, row@)),
            grid_wf(final(self)@),
    {
        let ghost g = self@;
        proof {
            lemma_rows_view_len(self.cells@);
        }
        self.cells.set(r, row);
        proof {
            lemma_rows_view_len(self.cells@);
            assert(rows_view(self.cells@) =~= g.cells.update(r as int, row@));
            lemma_row_len_kept(g.cells, r as int, row@, g.rows, g.cols);
        }
        assert(self@ =~= g.with_cells(g.cells.update(r as int, row@)));
    }

    fn delete_chars(&mut self, n: usize)
        requires
            grid_wf(old(self)@),
        ensures
            final(self)@ == delete_chars_spec(old(self)@, n as int),
            grid_wf(final(self)@),
    {
        let ghost g = self@;
        let row = self.cursor_row;
        if row >= self.rows || self.cursor_col >= self.cols {
            return;
        }
        proof {
            lemma_rows_view_len(self.cells@);
        }
        let cc = self.cursor_col;
        let mut line = self.cells[row].clone();
        let ghost orig = line@;
        assert(orig == g.cells[row as int]);
        let ghost len = orig.len() as int;
        proof {
            lemma_queue_zero(orig, cc as int, len, blank());
        }
        let mut k: usize = 0;
        while k < n
            invariant
                k <= n,
                cc < len,
                len == orig.len(),
                line@ == queue_up(orig, cc as int, len, k as int, blank()),
            decreases n - k,
        {
            let ghost before = line@;
            line.remove(cc);
            line.push(Cell::default());
            proof {
                lemma_queue_up_step(orig, cc as int, len, k as int, blank());
                let want = queue_up(before, cc as int, len, 1, blank());
                assert(line@ =~= want) by {
                    let mid = before.subrange(cc as int, len) + fill(1, blank());
                    assert forall|i: int| 0 <= i < len implies line@[i] == want[i] by {
                        if cc <= i < len {
                            assert(want[i] == mid[1 + i - cc]);
                        }
                    }
                }
            }
            k = k + 1;
        }
        self.replace_row(row, line);
    }

    fn insert_chars(&mut self, n: usize)
        requires
            grid_wf(old(self)@),
        ensures
            final(self)@ == insert_chars_spec(old(self)@, n as int),
            grid_wf(final(self)@),
    {
        let ghost g = self@;
        let row = self.cursor_row;
        if row >= self.rows || self.cursor_col >= self.cols || n == 0 {
            return;
        }
        proof {
            lemma_rows_view_len(self.cells@);
        }
        let cc = self.cursor_col;
        let cols = self.cols;
        let mut line = self.cells[row].clone();
        let ghost orig = line@;
        assert(orig == g.cells[row as int]);
        let mut k: usize = 0;
        while k < n
            invariant
                k <= n,
                cc < cols <= orig.len(),
                k == 0 ==> line@ == orig,
                k > 0 ==> line@ == insert_in_row(orig, cc as int, cols as int, k as int),
            decreases n - k,
        {
            let ghost before = line@;
            line.insert(cc, Cell::default());
            line.truncate(cols);
            proof {
                assert(line@ =~= insert_in_row(before, cc as int, cols as int, 1));
                if k > 0 {
                    lemma_insert_in_row_step(orig, cc as int, cols as int, k as int);
                }
            }
            k = k + 1;
        }
        self.replace_row(row, line);
    }

    fn insert_lines(&mut self, n: usize)
        requires
            grid_wf(old(self)@),
        ensures
            final(self)@ == insert_lines_spec(old(self)@, n as int),
            grid_wf(final(self)@),
    {
        let ghost g = self@;
        if self.cursor_row >= self.scroll_bottom {
            return;
        }
        proof {
            lemma_queue_zero(g.cells, g.cursor_row, g.scroll_bottom, blank_row(g.cols));
        }
        let mut k: usize = 0;
        while k < n
            invariant
                k <= n,
                grid_wf(self@),
                grid_wf(g),
                g.cursor_row < g.scroll_bottom,
                self@ == g.with_cells(queue_down(g.cells, g.cursor_row, g.scroll_bottom, k as int, blank_row(g.cols))),
            decreases n - k,
        {
            let ghost before = self@;
            proof {
                lemma_rows_view_len(self.cells@);
            }
            self.cells.remove(self.scroll_bottom - 1);
            let blank = blank_row_exec(self.cols);
            self.cells.insert(self.cursor_row, blank);
            proof {
                lemma_rows_view_len(self.cells@);
                lemma_queue_down_step(g.cells, g.cursor_row, g.scroll_bottom, k as int, blank_row(g.cols));
                let want = queue_down(before.cells, g.cursor_row, g.scroll_bottom, 1, blank_row(g.cols));
                let mid = fill(1, blank_row(g.cols)) + before.cells.subrange(g.cursor_row, g.scroll_bottom);
                assert forall|i: int| 0 <= i < want.len() implies #[trigger] rows_view(self.cells@)[i] == want[i] by {
                    if g.cursor_row <= i < g.scroll_bottom {
                        assert(want[i] == mid[i - g.cursor_row]);
                    }
                }
                assert(rows_view(self.cells@) =~= want);
                lemma_shift_down_rows(before.cells, g.cursor_row, g.scroll_bottom, 1, g.cols);
                lemma_rows_from_wf(want, before.cells, g.rows, g.cols);
            }
            k = k + 1;
            assert(self@ =~= g.with_cells(queue_down(g.cells, g.cursor_row, g.scroll_bottom, k as int, blank_row(g.cols))));
        }
    }

    fn delete_lines(&mut self, n: usize)
        requires
            grid_wf(old(self)@),
        ensures
            final(self)@ == delete_lines_spec(old(self)@, n as int),
            grid_wf(final(self)@),
    {
        let ghost g = self@;
        if self.cursor_row >= self.scroll_bottom || self.cursor_row >= self.rows {
            return;
        }
        proof {
            lemma_queue_zero(g.cells, g.cursor_row, g.scroll_bottom, blank_row(g.cols));
        }
        let mut k: usize = 0;
        while k < n
            invariant
                k <= n,
                grid_wf(self@),
                grid_wf(g),
                g.cursor_row < g.scroll_bottom,
                self@ == g.with_cells(queue_up(g.cells, g.cursor_row, g.scroll_bottom, k as int, blank_row(g.cols))),
            decreases n - k,
        {
            let ghost before = self@;
            proof {
                lemma_rows_view_len(self.cells@);
            }
            self.cells.remove(self.cursor_row);
            let blank = blank_row_exec(self.cols);
            let at = if self.scroll_bottom - 1 < self.cells.len() { self.scroll_bottom - 1 } else { self.cells.len() };
            self.cells.insert(at, blank);
            proof {
                lemma_rows_view_len(self.cells@);
                lemma_queue_up_step(g.cells, g.cursor_row, g.scroll_bottom, k as int, blank_row(g.cols));
                let want = queue_up(before.cells, g.cursor_row, g.scroll_bottom, 1, blank_row(g.cols));
                let mid = before.cells.subrange(g.cursor_row, g.scroll_bottom) + fill(1, blank_row(g.cols));
                assert forall|i: int| 0 <= i < want.len() implies #[trigger] rows_view(self.cells@)[i] == want[i] by {
                    if g.cursor_row <= i < g.scroll_bottom {
                        assert(want[i] == mid[1 + i - g.cursor_row]);
                    }
                }
                assert(rows_view(self.cells@) =~= want);
                lemma_shift_up_rows(before.cells, g.cursor_row, g.scroll_bottom, 1, g.cols);
                lemma_rows_from_wf(want, before.cells, g.rows, g.cols);
            }
            k = k + 1;
            assert(self@ =~= g.with_cells(queue_up(g.cells, g.cursor_row, g.scroll_bottom, k as int, blank_row(g.cols))));
        }
    }
}

impl TermGrid {
    fn scroll_up_by(&mut self, n: u16)
        requires
            grid_wf(old(self)@),
        ensures
            final(self)@ == scroll_up_spec(old(self)@, n as int),
            grid_wf(final(self)@),
    {
        let ghost g = self@;
        proof {
            if g.region_ok() {
                lemma_queue_zero(g.cells, g.scroll_top, g.scroll_bottom, blank_row(g.cols));
            }
        }
        let mut k: u16 = 0;
        while k < n
            invariant
                k <= n,
                grid_wf(self@),
                grid_wf(g),
                self@ == scroll_up_spec(g, k as int),
            decreases n - k,
        {
            self.scroll_up();
            proof {
                if g.region_ok() {
                    lemma_queue_up_step(g.cells, g.scroll_top, g.scroll_bottom, k as int, blank_row(g.cols));
                }
            }
            k = k + 1;
        }
    }

    fn scroll_down_by(&mut self, n: u16)
        requires
            grid_wf(old(self)@),
        ensures
            final(self)@ == scroll_down_spec(old(self)@, n as int),
            grid_wf(final(self)@),
    {
        let ghost g = self@;
        proof {
            if g.region_ok() {
                lemma_queue_zero(g.cells, g.scroll_top, g.scroll_bottom, blank_row(g.cols));
            }
        }
        let mut k: u16 = 0;
        while k < n
            invariant
                k <= n,
                grid_wf(self@),
                grid_wf(g),
                self@ == scroll_down_spec(g, k as int),
            decreases n - k,
        {
            self.scroll_down();
            proof {
                if g.region_ok() {
                    lemma_queue_down_step(g.cells, g.scroll_top, g.scroll_bottom, k as int, blank_row(g.cols));
                }
            }
            k = k + 1;
        }
    }

    /// A copy of every row.
    fn copy_cells(&self) -> (copy: Vec<Vec<Cell>>)
        ensures
            rows_view(copy@) == self@.cells,
    {
        let mut copy: Vec<Vec<Cell>> = Vec::new();
        let mut i: usize = 0;
        proof {
            lemma_rows_view_len(self.cells@);
        }
        while i < self.cells.len()
            invariant
                i <= self.cells@.len(),
                copy@.len() == i,
                rows_view(self.cells@).len() == self.cells@.len(),
                forall|k: int| 0 <= k < i ==> #[trigger] copy@[k]@ == self.cells@[k]@,
            decreases self.cells@.len() - i,
        {
            let row = self.cells[i].clone();
            assert(row@ == self.cells@[i as int]@);
            copy.push(row);
            i = i + 1;
        }
        proof {
            lemma_rows_view_len(copy@);
            lemma_rows_view_len(self.cells@);
        }
        assert(rows_view(copy@) =~= self@.cells);
        copy
    }

    fn enter_alt_screen(&mut self)
        requires
            grid_wf(old(self)@),
        ensures
            final(self)@ == enter_alt_spec(old(self)@),
            grid_wf(final(self)@),
    {
        let ghost g = self@;
        let saved = self.copy_cells();
        self.alt_saved = Some((saved, self.cursor_row, self.cursor_col));
        assert(self@ =~= GridState { alt_saved: Some((g.cells, g.cursor_row, g.cursor_col)), ..g });
        self.erase_display(2);
        self.cursor_row = 0;
        self.cursor_col = 0;
    }

    fn leave_alt_screen(&mut self)
        requires
            grid_wf(old(self)@),
            restore_fits(old(self)@),
        ensures
            final(self)@ == leave_alt_spec(old(self)@),
            grid_wf(final(self)@),
    {
        let ghost g = self@;
        if let Some((cells, row, col)) = self.alt_saved.take() {
            self.cells = cells;
            self.cursor_row = row;
            self.cursor_col = col;
            assert(self@ =~= leave_alt_spec(g));
        }
    }

    fn reset_attrs(&mut self)
        ensures
            final(self)@ == reset_attrs_spec(old(self)@),
    {
        self.attr_fg = TermColor::Default;
        self.attr_bg = TermColor::Default;
        self.attr_bold = false;
        self.attr_reverse = false;
    }

    /// Set graphics rendition: the colors and attributes of what gets printed next.
    fn sgr(&mut self, params: &[u16])
        ensures
            final(self)@ == sgr_spec(old(self)@, params@),
            final(self)@ == old(self)@.with_attrs(final(self)@),
    {
        if params.len() == 0 {
            self.reset_attrs();
            return;
        }
        let ghost g = self@;
        let mut i: usize = 0;
        while i < params.len()
            invariant
                0 <= i <= params@.len(),
                sgr_from(self@, params@, i as int) == sgr_from(g, params@, 0),
                self@ == g.with_attrs(self@),
            decreases params@.len() - i,
        {
            let v = params[i];
            let ghost before = self@;
            if v == 38 || v == 48 {
                let len = params.len();
                let mut used: usize = 0;
                if len - i > 2 && params[i + 1] == 5 {
                    let c = TermColor::Indexed(#[verifier::truncate] (params[i + 2] as u8));
                    if v == 38 {
                        self.attr_fg = c;
                    } else {
                        self.attr_bg = c;
                    }
                    used = 2;
                } else if len - i > 4 && params[i + 1] == 2 {
                    let c = TermColor::Rgb(
                        #[verifier::truncate] (params[i + 2] as u8),
                        #[verifier::truncate] (params[i + 3] as u8),
                        #[verifier::truncate] (params[i + 4] as u8),
                    );
                    if v == 38 {
                        self.attr_fg = c;
                    } else {
                        self.attr_bg = c;
                    }
                    used = 4;
                }
                assert(sgr_from(before, params@, i as int) == sgr_from(self@, params@, i + 1 + used));
                i = i + 1 + used;
            } else {
                if v == 0 {
                    self.reset_attrs();
                } else if v == 1 {
                    self.attr_bold = true;
                } else if v == 7 {
                    self.attr_reverse = true;
                } else if v == 22 {
                    self.attr_bold = false;
                } else if v == 27 {
                    self.attr_reverse = false;
                } else if 30 <= v && v <= 37 {
                    self.attr_fg = TermColor::Indexed((v - 30) as u8);
                } else if v == 39 {
                    self.attr_fg = TermColor::Default;
                } else if 40 <= v && v <= 47 {
                    self.attr_bg = TermColor::Indexed((v - 40) as u8);
                } else if v == 49 {
                    self.attr_bg = TermColor::Default;
                } else if 90 <= v && v <= 97 {
                    self.attr_fg = TermColor::Indexed((v - 90 + 8) as u8);
                } else if 100 <= v && v <= 107 {
                    self.attr_bg = TermColor::Indexed((v - 100 + 8) as u8);
                }
                assert(self@ =~= sgr_one(before, v as int));
                i = i + 1;
            }
        }
    }
}

impl TermGrid {
    /// `CSI ? params h` (`on`) or `l` (`!on`).
    fn set_modes(&mut self, params: &[u16], on: bool)
        requires
            grid_wf(old(self)@),
            !on && params@.contains(1049u16) ==> restore_fits(old(self)@),
        ensures
            final(self)@ == modes_from(old(self)@, params@, 0, on),
            grid_wf(final(self)@),
    {
        let ghost g = self@;
        let mut i: usize = 0;
        while i < params.len()
            invariant
                0 <= i <= params@.len(),
                grid_wf(self@),
                !on ==> restore_fits(self@) || forall|j: int| i <= j < params@.len() ==> params@[j] != 1049u16,
                modes_from(self@, params@, i as int, on) == modes_from(g, params@, 0, on),
            decreases params@.len() - i,
        {
            let v = params[i];
            let ghost before = self@;
            if v == 25 {
                self.cursor_visible = on;
            } else if v == 1000 {
                self.mouse_normal = on;
            } else if v == 1002 {
                self.mouse_button = on;
            } else if v == 1003 {
                self.mouse_any = on;
            } else if v == 1006 {
                self.mouse_sgr = on;
            } else if v == 1049 {
                if on {
                    self.enter_alt_screen();
                } else {
                    self.leave_alt_screen();
                }
            }
            assert(self@ == mode_one(before, v as int, on));
            i = i + 1;
        }
    }

    fn csi_move(&mut self, params: &[u16], action: char)
        requires
            grid_wf(old(self)@),
            is_move(action),
        ensures
            final(self)@ == csi_move_spec(old(self)@, params@, action),
            grid_wf(final(self)@),
    {
        let n = param_or(params, 0, 1) as usize;
        let (row, col, rows, cols) = (self.cursor_row, self.cursor_col, self.rows, self.cols);
        if action == 'A' {
            self.cursor_row = if row >= n { row - n } else { 0 };
        } else if action == 'B' {
            self.cursor_row = if row + n < rows - 1 { row + n } else { rows - 1 };
        } else if action == 'C' {
            self.cursor_col = if col + n < cols - 1 { col + n } else { cols - 1 };
        } else if action == 'D' {
            self.cursor_col = if col >= n { col - n } else { 0 };
        } else if action == 'H' || action == 'f' {
            let r = param_or(params, 0, 1) as usize - 1;
            let c = param_or(params, 1, 1) as usize - 1;
            self.cursor_row = if r < rows - 1 { r } else { rows - 1 };
            self.cursor_col = if c < cols - 1 { c } else { cols - 1 };
        } else if action == 'G' || action == '`' {
            let c = n - 1;
            self.cursor_col = if c < cols - 1 { c } else { cols - 1 };
        } else {
            let r = n - 1;
            self.cursor_row = if r < rows - 1 { r } else { rows - 1 };
        }
    }

    fn csi_edit(&mut self, params: &[u16], action: char)
        requires
            grid_wf(old(self)@),
            is_edit(action),
        ensures
            final(self)@ == csi_edit_spec(old(self)@, params@, action),
            grid_wf(final(self)@),
    {
        let n = param_or(params, 0, 1);
        if action == 'J' {
            self.erase_display(param_or(params, 0, 0));
        } else if action == 'K' {
            self.erase_line(param_or(params, 0, 0));
        } else if action == 'L' {
            self.insert_lines(n as usize);
        } else if action == 'M' {
            self.delete_lines(n as usize);
        } else if action == 'P' {
            self.delete_chars(n as usize);
        } else if action == 'X' {
            self.erase_chars(n as usize);
        } else if action == '@' {
            self.insert_chars(n as usize);
        } else if action == 'S' {
            self.scroll_up_by(n);
        } else {
            self.scroll_down_by(n);
        }
    }

    fn csi_state(&mut self, params: &[u16], private: bool, action: char)
        requires
            grid_wf(old(self)@),
            private && action == 'l' && params@.contains(1049u16) ==> restore_fits(old(self)@),
        ensures
            final(self)@ == csi_state_spec(old(self)@, params@, private, action),
            grid_wf(final(self)@),
    {
        let ghost g = self@;
        let (row, col, rows, cols) = (self.cursor_row, self.cursor_col, self.rows, self.cols);
        if action == 'm' {
            if params.len() == 0 {
                self.sgr(&[0]);
                proof {
                    reveal_with_fuel(sgr_from, 2);
                }
            } else {
                self.sgr(params);
            }
        } else if action == 'r' {
            let top = param_or(params, 0, 1) as usize - 1;
            let bottom = param_or(params, 1, #[verifier::truncate] (rows as u16)) as usize;
            self.scroll_top = top;
            self.scroll_bottom = if bottom < rows { bottom } else { rows };
        } else if action == 's' {
            self.saved_cursor = Some((row, col));
        } else if action == 'u' {
            if let Some((r, c)) = self.saved_cursor {
                self.cursor_row = if r < rows - 1 { r } else { rows - 1 };
                self.cursor_col = if c < cols - 1 { c } else { cols - 1 };
            }
        } else if action == 'h' && private {
            self.set_modes(params, true);
        } else if action == 'l' && private {
            self.set_modes(params, false);
        }
        assert(self@ =~= csi_state_spec(g, params@, private, action));
    }

    fn handle_csi(&mut self, params: &[u16], intermediates: &[u8], action: char)
        requires
            grid_wf(old(self)@),
            leaves_alt(params@, intermediates@, action) ==> restore_fits(old(self)@),
        ensures
            final(self)@ == csi_spec(old(self)@, params@, intermediates@, action),
            grid_wf(final(self)@),
    {
        let mut private = false;
        let mut k: usize = 0;
        while k < intermediates.len()
            invariant
                k <= intermediates@.len(),
                private == exists|j: int| 0 <= j < k && intermediates@[j] == 63u8,
            decreases intermediates@.len() - k,
        {
            if intermediates[k] == 63u8 {
                private = true;
            }
            k = k + 1;
        }
        assert(private == intermediates@.contains(63u8));
        if action == 'A' || action == 'B' || action == 'C' || action == 'D' || action == 'H' || action == 'f'
            || action == 'G' || action == '`' || action == 'd' {
            self.csi_move(params, action);
        } else if action == 'J' || action == 'K' || action == 'L' || action == 'M' || action == 'P' || action
            == 'X' || action == '@' || action == 'S' || action == 'T' {
            self.csi_edit(params, action);
        } else {
            self.csi_state(params, private, action);
        }
    }
}

/// Parameter `i`, or `def` when it is missing or zero.
fn param_or(params: &[u16], i: usize, def: u16) -> (v: u16)
    ensures
        v == param(params@, i as int, def as int),
{
    if i < params.len() && params[i] > 0 {
        params[i]
    } else {
        def
    }
}

impl TermGrid {
    /// The window changed size: rows and columns are cut or padded, the scroll
    /// region becomes the whole screen and the cursor stays on it.
    pub fn resize(&mut self, new_rows: usize, new_cols: usize)
        requires
            grid_wf(old(self)@),
            1 <= new_rows <= isize::MAX,
            1 <= new_cols <= isize::MAX,
        ensures
            final(self)@ == resize_spec(old(self)@, new_rows as int, new_cols as int),
            grid_wf(final(self)@),
    {
        let ghost g = self@;
        if new_rows == self.rows && new_cols == self.cols {
            return;
        }
        let mut cells: Vec<Vec<Cell>> = Vec::new();
        let mut i: usize = 0;
        proof {
            lemma_rows_view_len(self.cells@);
        }
        while i < new_rows
            invariant
                i <= new_rows,
                self@ == g,
                grid_wf(g),
                cells@.len() == i,
                forall|k: int| 0 <= k < i ==> #[trigger] cells@[k]@ == (if k < g.cells.len() {
                    fit_row(g.cells[k], new_cols as int)
                } else {
                    blank_row(new_cols as int)
                }),
            decreases new_rows - i,
        {
            let row = if i < self.cells.len() {
                proof {
                    lemma_rows_view_len(self.cells@);
                }
                let mut row = self.cells[i].clone();
                let ghost orig = row@;
                assert(orig == g.cells[i as int]);
                if new_cols <= row.len() {
                    row.truncate(new_cols);
                } else {
                    let extra = blank_row_exec(new_cols - row.len());
                    let mut k: usize = 0;
                    while k < extra.len()
                        invariant
                            k <= extra@.len(),
                            row@ == orig + extra@.subrange(0, k as int),
                        decreases extra@.len() - k,
                    {
                        row.push(extra[k]);
                        k = k + 1;
                        assert(row@ =~= orig + extra@.subrange(0, k as int));
                    }
                    assert(extra@.subrange(0, extra@.len() as int) =~= extra@);
                }
                assert(row@ =~= fit_row(orig, new_cols as int));
                row
            } else {
                blank_row_exec(new_cols)
            };
            cells.push(row);
            i = i + 1;
        }
        self.cells = cells;
        self.rows = new_rows;
        self.cols = new_cols;
        self.scroll_top = 0;
        self.scroll_bottom = new_rows;
        self.cursor_row = if self.cursor_row < new_rows - 1 { self.cursor_row } else { new_rows - 1 };
        self.cursor_col = if self.cursor_col < new_cols - 1 { self.cursor_col } else { new_cols - 1 };
        proof {
            lemma_rows_view_len(self.cells@);
            let want = resize_spec(g, new_rows as int, new_cols as int);
            assert(rows_view(self.cells@) =~= want.cells);
            assert forall|k: int| 0 <= k < want.cells.len() implies new_cols <= #[trigger] want.cells[k].len()
                && 1 <= want.cells[k].len() by {
            }
        }
        assert(self@ =~= resize_spec(g, new_rows as int, new_cols as int));
    }

    /// A printable character from the app.
    pub fn print(&mut self, c: char)
        requires
            grid_wf(old(self)@),
        ensures
            final(self)@ == put_char_spec(old(self)@, c),
            grid_wf(final(self)@),
    {
        self.put_char(c);
    }

    /// A C0 control byte from the app.
    pub fn execute(&mut self, byte: u8)
        requires
            grid_wf(old(self)@),
        ensures
            final(self)@ == execute_spec(old(self)@, byte),
            grid_wf(final(self)@),
    {
        if byte == 0x08 {
            self.cursor_col = if self.cursor_col >= 1 { self.cursor_col - 1 } else { 0 };
        } else if byte == 0x09 {
            let next = (self.cursor_col / 8 + 1) * 8;
            self.cursor_col = if next >= self.cols { self.cols - 1 } else { next };
        } else if 0x0A <= byte && byte <= 0x0C {
            self.line_feed();
        } else if byte == 0x0D {
            self.cursor_col = 0;
        }
    }

    /// A complete CSI sequence from the app, its parameters flattened to their
    /// first values; `ignore` (too many parameters or intermediates) drops it.
    ///
    /// Leaving the alternate screen needs the saved screen to cover the grid
    /// as it is now ([`saved_screen_fits`](Self::saved_screen_fits)). A screen
    /// saved before the grid grew does not: bringing it back leaves rows or
    /// columns short, and the next print, erase, scroll or paint would index
    /// past them.
    pub fn csi_dispatch(&mut self, params: &[u16], intermediates: &[u8], ignore: bool, action: char)
        requires
            grid_wf(old(self)@),
            !ignore && leaves_alt(params@, intermediates@, action) ==> restore_fits(old(self)@),
        ensures
            final(self)@ == (if ignore { old(self)@ } else { csi_spec(old(self)@, params@, intermediates@, action) }),
            grid_wf(final(self)@),
    {
        if ignore {
            return;
        }
        self.handle_csi(params, intermediates, action);
    }

    /// An escape sequence from the app.
    pub fn esc_dispatch(&mut self, intermediates: &[u8], byte: u8)
        requires
            grid_wf(old(self)@),
        ensures
            final(self)@ == esc_spec(old(self)@, intermediates@, byte),
            grid_wf(final(self)@),
    {
        if intermediates.len() > 0 {
            return;
        }
        let (rows, cols) = (self.rows, self.cols);
        if byte == 0x37 {
            self.saved_cursor = Some((self.cursor_row, self.cursor_col));
        } else if byte == 0x38 {
            if let Some((r, c)) = self.saved_cursor {
                self.cursor_row = if r < rows - 1 { r } else { rows - 1 };
                self.cursor_col = if c < cols - 1 { c } else { cols - 1 };
            }
        } else if byte == 0x44 {
            self.line_feed();
        } else if byte == 0x4D {
            if self.cursor_row == self.scroll_top {
                self.scroll_down();
            } else {
                self.cursor_row = if self.cursor_row >= 1 { self.cursor_row - 1 } else { 0 };
            }
        }
    }

    /// Whether the screen saved on entering the alternate screen still
    /// covers the grid, which bringing it back needs.
    #[verifier::loop_isolation(false)]
    pub fn saved_screen_fits(&self) -> (b: bool)
        requires
            grid_wf(self@),
        ensures
            b == restore_fits(self@),
    {
        match &self.alt_saved {
            None => true,
            Some((cells, r, k)) => {
                proof {
                    lemma_rows_view_len(cells@);
                }
                assert(self@.alt_saved == Some((rows_view(cells@), *r as int, *k as int)));
                if cells.len() < self.rows {
                    return false;
                }
                let mut i: usize = 0;
                while i < cells.len()
                    invariant
                        i <= cells@.len(),
                        self.rows <= cells@.len(),
                        forall|k: int| 0 <= k < i ==> self.cols <= #[trigger] cells@[k]@.len(),
                    decreases cells@.len() - i,
                {
                    if cells[i].len() < self.cols {
                        assert(rows_view(cells@)[i as int].len() < self.cols);
                        assert(!cells_wf(rows_view(cells@), self.rows as int, self.cols as int));
                        return false;
                    }
                    i = i + 1;
                }
                true
            },
        }
    }
}


/// What the app sends, one action at a time, as the parser hands it over:
/// a printed character, a control byte, a CSI sequence (parameters,
/// intermediates, final character) or an escape sequence.
pub enum Op {
    Print(char),
    Execute(u8),
    Csi(Seq<u16>, Seq<u8>, char),
    Esc(Seq<u8>, u8),
}

pub open spec fn apply_op(g: GridState, op: Op) -> GridState {
    match op {
        Op::Print(c) => put_char_spec(g, c),
        Op::Execute(b) => execute_spec(g, b),
        Op::Csi(p, i, a) => csi_spec(g, p, i, a),
        Op::Esc(i, b) => esc_spec(g, i, b),
    }
}

/// The actions applied in order.
pub open spec fn apply_ops(g: GridState, ops: Seq<Op>) -> GridState
    decreases ops.len(),
{
    if ops.len() == 0 {
        g
    } else {
        apply_ops(apply_op(g, ops[0]), ops.drop_first())
    }
}

/// The action enters or leaves the alternate screen (`CSI ?...1049 h` or `l`).
pub open spec fn switches_screen(op: Op) -> bool {
    op matches Op::Csi(p, i, a) && i.contains(63u8) && p.contains(1049u16) && (a == 'h' || a == 'l')
}

proof fn lemma_sgr_keeps_saved(g: GridState, p: Seq<u16>, i: int)
    ensures
        sgr_from(g, p, i).alt_saved == g.alt_saved,
    decreases p.len() - i,
{
    if 0 <= i < p.len() {
        if p[i] == 38 || p[i] == 48 {
            let (color, used) = extended_color(p, i);
            let g1 = match color {
                Some(c) => if p[i] == 38 {
                    GridState { attr_fg: c, ..g }
                } else {
                    GridState { attr_bg: c, ..g }
                },
                None => g,
            };
            lemma_sgr_keeps_saved(g1, p, i + 1 + used);
        } else {
            lemma_sgr_keeps_saved(sgr_one(g, p[i] as int), p, i + 1);
        }
    }
}

proof fn lemma_modes_keep_saved(g: GridState, p: Seq<u16>, i: int, on: bool)
    requires
        !p.contains(1049u16),
    ensures
        modes_from(g, p, i, on).alt_saved == g.alt_saved,
    decreases p.len() - i,
{
    if 0 <= i < p.len() {
        assert(p[i] != 1049u16);
        lemma_modes_keep_saved(mode_one(g, p[i] as int, on), p, i + 1, on);
    }
}

/// An action that does not switch screens keeps the saved screen as it is.
proof fn lemma_op_keeps_saved(g: GridState, op: Op)
    requires
        !switches_screen(op),
    ensures
        apply_op(g, op).alt_saved == g.alt_saved,
{
    match op {
        Op::Csi(p, i, a) => {
            if !is_move(a) && !is_edit(a) {
                if a == 'm' {
                    lemma_sgr_keeps_saved(g, p, 0);
                } else if (a == 'h' || a == 'l') && i.contains(63u8) {
                    lemma_modes_keep_saved(g, p, 0, a == 'h');
                }
            }
        },
        _ => {},
    }
}

proof fn lemma_ops_keep_saved(g: GridState, ops: Seq<Op>)
    requires
        forall|k: int| 0 <= k < ops.len() ==> !switches_screen(#[trigger] ops[k]),
    ensures
        apply_ops(g, ops).alt_saved == g.alt_saved,
    decreases ops.len(),
{
    if ops.len() > 0 {
        lemma_op_keeps_saved(g, ops[0]);
        let rest = ops.drop_first();
        assert forall|k: int| 0 <= k < rest.len() implies !switches_screen(#[trigger] rest[k]) by {
            assert(rest[k] == ops[k + 1]);
        }
        lemma_ops_keep_saved(apply_op(g, ops[0]), rest);
    }
}

/// Entering the alternate screen (`CSI ?1049h`) clears the screen and puts
/// the cursor home; whatever the app does there (anything but a resize or
/// switching screens again), leaving it (`CSI ?1049l`) gives back the main
/// screen and its cursor as they were. The steps are those of
/// [`TermGrid::print`], [`TermGrid::execute`], [`TermGrid::csi_dispatch`]
/// and [`TermGrid::esc_dispatch`], whose contracts are [`apply_op`]'s cases.
pub proof fn law_alt_screen_round_trip(g: GridState, ops: Seq<Op>)
    requires
        grid_wf(g),
        forall|k: int| 0 <= k < ops.len() ==> !switches_screen(#[trigger] ops[k]),
    ensures
        ({
            let entered = csi_spec(g, seq![1049u16], seq![63u8], 'h');
            let back = csi_spec(apply_ops(entered, ops), seq![1049u16], seq![63u8], 'l');
            &&& forall|i: int, j: int| 0 <= i < g.rows && 0 <= j < g.cols ==> #[trigger] entered.cells[i][j] == blank()
            &&& entered.cursor_row == 0 && entered.cursor_col == 0
            &&& back.cells == g.cells
            &&& back.cursor_row == g.cursor_row
            &&& back.cursor_col == g.cursor_col
            &&& back.alt_saved is None
        }),
{
    let modes = seq![1049u16];
    let private = seq![63u8];
    assert(private.contains(63u8)) by {
        assert(private[0] == 63u8);
    }
    let entered = csi_spec(g, modes, private, 'h');
    assert(modes_from(enter_alt_spec(g), modes, 1, true) == enter_alt_spec(g));
    assert(entered == enter_alt_spec(g));
    let drawn = apply_ops(entered, ops);
    lemma_ops_keep_saved(entered, ops);
    assert(modes_from(leave_alt_spec(drawn), modes, 1, false) == leave_alt_spec(drawn));
    assert(csi_spec(drawn, modes, private, 'l') == leave_alt_spec(drawn));
}

/// Whether the app gets mouse reports.
pub open spec fn mouse_on(g: GridState) -> bool {
    g.mouse_normal || g.mouse_button || g.mouse_any
}

/// The mouse modes (`?1000` clicks, `?1002` with drags, `?1003` every move)
/// are switched on by `CSI ?n h` and off again by `CSI ?n l`; without the
/// `?` neither changes anything. [`csi_spec`] is what
/// [`TermGrid::csi_dispatch`] does, and [`mouse_on`] what
/// [`TermGrid::mouse_enabled`] reports.
pub proof fn law_mouse_modes_round_trip(g: GridState, m: u16, marks: Seq<u8>)
    requires
        m == 1000 || m == 1002 || m == 1003,
        !mouse_on(g),
    ensures
        mouse_on(csi_spec(g, seq![m], seq![63u8], 'h')),
        !mouse_on(csi_spec(csi_spec(g, seq![m], seq![63u8], 'h'), seq![m], seq![63u8], 'l')),
        !marks.contains(63u8) ==> csi_spec(g, seq![m], marks, 'h') == g && csi_spec(g, seq![m], marks, 'l') == g,
{
    let p = seq![m];
    let private = seq![63u8];
    assert(private.contains(63u8)) by {
        assert(private[0] == 63u8);
    }
    let on = csi_spec(g, p, private, 'h');
    assert(modes_from(mode_one(g, m as int, true), p, 1, true) == mode_one(g, m as int, true));
    assert(on == mode_one(g, m as int, true));
    assert(modes_from(mode_one(on, m as int, false), p, 1, false) == mode_one(on, m as int, false));
    assert(csi_spec(on, p, private, 'l') == mode_one(on, m as int, false));
}

/// The relative cursor moves `CSI n A` (up), `B` (down), `C` (right) and
/// `D` (left) move the cursor by `n` (the first parameter, 1 where it is
/// missing or 0) in their direction along one axis only, stopping at the
/// screen's edge, and change nothing else. In particular a move right never
/// takes the cursor left of where it was on screen, and a move left never
/// takes it right.
pub proof fn law_cursor_moves(g: GridState, p: Seq<u16>, marks: Seq<u8>)
    requires
        grid_wf(g),
    ensures
        ({
            let n: int = if p.len() > 0 && p[0] != 0 { p[0] as int } else { 1 };
            let (r, c) = (g.cursor_row, g.cursor_col);
            &&& csi_spec(g, p, marks, 'A') == GridState { cursor_row: if r >= n { r - n } else { 0 }, ..g }
            &&& csi_spec(g, p, marks, 'B') == GridState {
                cursor_row: if r + n <= g.rows - 1 { r + n } else { g.rows - 1 },
                ..g
            }
            &&& csi_spec(g, p, marks, 'C') == GridState {
                cursor_col: if c + n <= g.cols - 1 { c + n } else { g.cols - 1 },
                ..g
            }
            &&& csi_spec(g, p, marks, 'D') == GridState { cursor_col: if c >= n { c - n } else { 0 }, ..g }
        }),
        g.cursor_col < g.cols ==> csi_spec(g, p, marks, 'C').cursor_col >= g.cursor_col,
        csi_spec(g, p, marks, 'D').cursor_col <= g.cursor_col,
        g.cursor_row < g.rows ==> csi_spec(g, p, marks, 'B').cursor_row >= g.cursor_row,
        csi_spec(g, p, marks, 'A').cursor_row <= g.cursor_row,
{
}

/// The absolute cursor moves: `CSI r;c H` (and `f`) puts the cursor on row
/// `r` and column `c`, counted from 1 (0 or missing meaning 1), `CSI c G`
/// (and `` ` ``) on column `c` of its row, `CSI r d` on row `r` in its column;
/// each kept on the screen, and nothing else changes.
pub proof fn law_cursor_positions(g: GridState, p: Seq<u16>, marks: Seq<u8>)
    requires
        grid_wf(g),
    ensures
        ({
            let a: int = if p.len() > 0 && p[0] != 0 { p[0] as int } else { 1 };
            let b: int = if p.len() > 1 && p[1] != 0 { p[1] as int } else { 1 };
            let to_row = if a - 1 <= g.rows - 1 { a - 1 } else { g.rows - 1 };
            let to_col_a = if a - 1 <= g.cols - 1 { a - 1 } else { g.cols - 1 };
            let to_col_b = if b - 1 <= g.cols - 1 { b - 1 } else { g.cols - 1 };
            &&& csi_spec(g, p, marks, 'H') == GridState { cursor_row: to_row, cursor_col: to_col_b, ..g }
            &&& csi_spec(g, p, marks, 'f') == csi_spec(g, p, marks, 'H')
            &&& csi_spec(g, p, marks, 'G') == GridState { cursor_col: to_col_a, ..g }
            &&& csi_spec(g, p, marks, '`') == csi_spec(g, p, marks, 'G')
            &&& csi_spec(g, p, marks, 'd') == GridState { cursor_row: to_row, ..g }
        }),
        0 <= csi_spec(g, p, marks, 'H').cursor_row < g.rows,
        0 <= csi_spec(g, p, marks, 'H').cursor_col < g.cols,
{
}

/// The control bytes: carriage return goes to the first column, backspace
/// one column left (not past the first), tab to the next multiple of 8
/// (at most the last column), line feed one row down where that stays above
/// the bottom of the scroll region; the row stays for the first three, the
/// column for the last, and the cells are kept.
pub proof fn law_control_bytes(g: GridState)
    requires
        grid_wf(g),
    ensures
        execute_spec(g, 0x0d) == (GridState { cursor_col: 0, ..g }),
        execute_spec(g, 0x08) == (GridState { cursor_col: if g.cursor_col >= 1 { g.cursor_col - 1 } else { 0 }, ..g }),
        ({
            let t = execute_spec(g, 0x09);
            &&& t.cursor_row == g.cursor_row && t.cells == g.cells
            &&& t.cursor_col <= g.cols - 1
            &&& t.cursor_col < g.cols - 1 ==> t.cursor_col > g.cursor_col && t.cursor_col % 8 == 0
                && t.cursor_col - g.cursor_col <= 8
        }),
        g.cursor_row + 1 < g.scroll_bottom ==> execute_spec(g, 0x0a) == (GridState { cursor_row: g.cursor_row + 1, ..g }),
        execute_spec(g, 0x07) == g,
{
}

/// A blank cell: a space in the default colors.
pub open spec fn is_blank(c: Cell) -> bool {
    c.ch == ' ' && c.fg == TermColor::Default && c.bg == TermColor::Default && !c.bold && !c.reverse
}

/// A printed character lands on the cursor's cell in the current colors and
/// attributes, the cursor moves one to the right, and every other cell and
/// the row stay as they were (the cursor being on the screen).
pub proof fn law_printing(g: GridState, ch: char)
    requires
        grid_wf(g),
        g.cursor_row < g.rows,
        g.cursor_col < g.cols,
    ensures
        ({
            let o = put_char_spec(g, ch);
            let (r, c) = (g.cursor_row, g.cursor_col);
            &&& o.cursor_row == r && o.cursor_col == c + 1
            &&& o.cells[r][c].ch == ch && o.cells[r][c].fg == g.attr_fg && o.cells[r][c].bg == g.attr_bg
            &&& o.cells[r][c].bold == g.attr_bold && o.cells[r][c].reverse == g.attr_reverse
            &&& o.cells.len() == g.cells.len()
            &&& forall|i: int| 0 <= i < g.cells.len() ==> (#[trigger] o.cells[i]).len() == g.cells[i].len()
            &&& forall|i: int, j: int| 0 <= i < g.cells.len() && 0 <= j < g.cells[i].len() && (i != r || j != c)
                ==> #[trigger] o.cells[i][j] == g.cells[i][j]
        }),
{
}

/// Erasing in the line (`CSI n K`): 0 (or nothing) blanks the cursor's cell
/// and those right of it, 1 those left of it and itself, 2 the whole line;
/// other rows and the cursor stay. Erasing the display (`CSI 2 J`) blanks
/// every cell on the screen.
pub proof fn law_erasing(g: GridState, mode: u16, marks: Seq<u8>)
    requires
        grid_wf(g),
        g.cursor_row < g.rows,
        g.cursor_col < g.cols,
        mode <= 2,
    ensures
        ({
            let o = csi_spec(g, seq![mode], marks, 'K');
            let (r, c) = (g.cursor_row, g.cursor_col);
            &&& o.cursor_row == r && o.cursor_col == c && o.cells.len() == g.cells.len()
            &&& forall|i: int, j: int| 0 <= i < g.cells.len() && 0 <= j < g.cells[i].len() ==> {
                let gone = i == r && j < g.cols && (if mode == 0 { j >= c } else if mode == 1 { j <= c } else { true });
                &&& gone ==> is_blank(#[trigger] o.cells[i][j])
                &&& !gone ==> o.cells[i][j] == g.cells[i][j]
            }
        }),
        forall|i: int, j: int| 0 <= i < g.rows && 0 <= j < g.cols ==> is_blank(#[trigger] csi_spec(g, seq![2u16], marks, 'J').cells[i][j]),
{
}

/// What one SGR parameter `v` alone does.
proof fn lemma_sgr_single(g: GridState, v: u16, marks: Seq<u8>)
    requires
        v != 38 && v != 48,
    ensures
        csi_spec(g, seq![v], marks, 'm') == sgr_one(g, v as int),
{
    let p = seq![v];
    assert(p[0] == v);
    assert(sgr_from(sgr_one(g, v as int), p, 1) == sgr_one(g, v as int));
}

/// Graphics rendition with one parameter: 0 (or none) resets colors and
/// attributes, 1 and 22 set and clear bold, 7 and 27 reverse, 30 to 37 and
/// 90 to 97 pick foreground colors 0 to 7 and 8 to 15, 40 to 47 and 100 to
/// 107 the same for the background, 39 and 49 go back to the default
/// colors. Nothing but the drawing attributes changes.
pub proof fn law_colors(g: GridState, v: u16, marks: Seq<u8>)
    ensures
        csi_spec(g, seq![0u16], marks, 'm') == (GridState {
            attr_fg: TermColor::Default,
            attr_bg: TermColor::Default,
            attr_bold: false,
            attr_reverse: false,
            ..g
        }),
        csi_spec(g, Seq::empty(), marks, 'm') == csi_spec(g, seq![0u16], marks, 'm'),
        csi_spec(g, seq![1u16], marks, 'm') == (GridState { attr_bold: true, ..g }),
        csi_spec(g, seq![22u16], marks, 'm') == (GridState { attr_bold: false, ..g }),
        csi_spec(g, seq![7u16], marks, 'm') == (GridState { attr_reverse: true, ..g }),
        csi_spec(g, seq![27u16], marks, 'm') == (GridState { attr_reverse: false, ..g }),
        30 <= v <= 37 ==> csi_spec(g, seq![v], marks, 'm') == (GridState { attr_fg: TermColor::Indexed((v - 30) as u8), ..g }),
        90 <= v <= 97 ==> csi_spec(g, seq![v], marks, 'm') == (GridState { attr_fg: TermColor::Indexed((v - 82) as u8), ..g }),
        40 <= v <= 47 ==> csi_spec(g, seq![v], marks, 'm') == (GridState { attr_bg: TermColor::Indexed((v - 40) as u8), ..g }),
        100 <= v <= 107 ==> csi_spec(g, seq![v], marks, 'm') == (GridState { attr_bg: TermColor::Indexed((v - 92) as u8), ..g }),
        csi_spec(g, seq![39u16], marks, 'm') == (GridState { attr_fg: TermColor::Default, ..g }),
        csi_spec(g, seq![49u16], marks, 'm') == (GridState { attr_bg: TermColor::Default, ..g }),
{
    lemma_sgr_single(g, 0, marks);
    lemma_sgr_single(g, 1, marks);
    lemma_sgr_single(g, 22, marks);
    lemma_sgr_single(g, 7, marks);
    lemma_sgr_single(g, 27, marks);
    lemma_sgr_single(g, 39, marks);
    lemma_sgr_single(g, 49, marks);
    if v != 38 && v != 48 {
        lemma_sgr_single(g, v, marks);
    }
}

/// The extended colors: `38;5;n` and `48;5;n` pick palette entry `n` for the
/// foreground and background, `38;2;r;g;b` and `48;2;r;g;b` an RGB color;
/// nothing else changes.
pub proof fn law_extended_colors(g: GridState, n: u16, x: u16, y: u16, z: u16, marks: Seq<u8>)
    ensures
        csi_spec(g, seq![38u16, 5, n], marks, 'm') == (GridState { attr_fg: TermColor::Indexed(n as u8), ..g }),
        csi_spec(g, seq![48u16, 5, n], marks, 'm') == (GridState { attr_bg: TermColor::Indexed(n as u8), ..g }),
        csi_spec(g, seq![38u16, 2, x, y, z], marks, 'm') == (GridState { attr_fg: TermColor::Rgb(x as u8, y as u8, z as u8), ..g }),
        csi_spec(g, seq![48u16, 2, x, y, z], marks, 'm') == (GridState { attr_bg: TermColor::Rgb(x as u8, y as u8, z as u8), ..g }),
{
    let a = seq![38u16, 5, n];
    let b = seq![48u16, 5, n];
    let c = seq![38u16, 2, x, y, z];
    let d = seq![48u16, 2, x, y, z];
    assert(a[0] == 38 && a[1] == 5 && a[2] == n && a.len() == 3);
    assert(b[0] == 48 && b[1] == 5 && b[2] == n && b.len() == 3);
    assert(c[0] == 38 && c[1] == 2 && c[2] == x && c[3] == y && c[4] == z && c.len() == 5);
    assert(d[0] == 48 && d[1] == 2 && d[2] == x && d[3] == y && d[4] == z && d.len() == 5);
    assert(sgr_from(GridState { attr_fg: TermColor::Indexed(n as u8), ..g }, a, 3) == GridState { attr_fg: TermColor::Indexed(n as u8), ..g });
    assert(sgr_from(GridState { attr_bg: TermColor::Indexed(n as u8), ..g }, b, 3) == GridState { attr_bg: TermColor::Indexed(n as u8), ..g });
    assert(sgr_from(GridState { attr_fg: TermColor::Rgb(x as u8, y as u8, z as u8), ..g }, c, 5) == GridState { attr_fg: TermColor::Rgb(x as u8, y as u8, z as u8), ..g });
    assert(sgr_from(GridState { attr_bg: TermColor::Rgb(x as u8, y as u8, z as u8), ..g }, d, 5) == GridState { attr_bg: TermColor::Rgb(x as u8, y as u8, z as u8), ..g });
}

/// `CSI s` (and `ESC 7`) remembers where the cursor is and changes nothing
/// else; `CSI u` (and `ESC 8`) later puts the cursor back there, kept on the
/// screen, whatever moved it in between, and leaves the cells alone.
pub proof fn law_save_restore(g: GridState, h: GridState, p: Seq<u16>, q: Seq<u16>, marks: Seq<u8>)
    requires
        h.saved_cursor == csi_spec(g, p, marks, 's').saved_cursor,
        g.cursor_row < h.rows,
        g.cursor_col < h.cols,
    ensures
        csi_spec(g, p, marks, 's') == (GridState { saved_cursor: Some((g.cursor_row, g.cursor_col)), ..g }),
        esc_spec(g, Seq::empty(), 0x37) == csi_spec(g, p, marks, 's'),
        csi_spec(h, q, marks, 'u') == (GridState { cursor_row: g.cursor_row, cursor_col: g.cursor_col, ..h }),
        esc_spec(h, Seq::empty(), 0x38) == csi_spec(h, q, marks, 'u'),
        h.saved_cursor is None ==> csi_spec(h, q, marks, 'u') == h,
{
}

proof fn lemma_queue_up<A>(s: Seq<A>, lo: int, hi: int, n: int, a: A)
    requires
        0 <= lo <= hi <= s.len(),
        0 <= n,
    ensures
        queue_up(s, lo, hi, n, a).len() == s.len(),
        forall|i: int| 0 <= i < s.len() ==> #[trigger] queue_up(s, lo, hi, n, a)[i] == (if lo <= i < hi {
            if i + n < hi { s[i + n] } else { a }
        } else {
            s[i]
        }),
{
    let mid = s.subrange(lo, hi) + fill(n, a);
    assert forall|i: int| 0 <= i < s.len() implies #[trigger] queue_up(s, lo, hi, n, a)[i] == (if lo <= i < hi {
        if i + n < hi { s[i + n] } else { a }
    } else {
        s[i]
    }) by {
        if lo <= i < hi {
            assert(mid.subrange(n, n + (hi - lo))[i - lo] == mid[i - lo + n]);
        }
    }
}

proof fn lemma_queue_down<A>(s: Seq<A>, lo: int, hi: int, n: int, a: A)
    requires
        0 <= lo <= hi <= s.len(),
        0 <= n,
    ensures
        queue_down(s, lo, hi, n, a).len() == s.len(),
        forall|i: int| 0 <= i < s.len() ==> #[trigger] queue_down(s, lo, hi, n, a)[i] == (if lo <= i < hi {
            if i - n >= lo { s[i - n] } else { a }
        } else {
            s[i]
        }),
{
    let mid = fill(n, a) + s.subrange(lo, hi);
    assert forall|i: int| 0 <= i < s.len() implies #[trigger] queue_down(s, lo, hi, n, a)[i] == (if lo <= i < hi {
        if i - n >= lo { s[i - n] } else { a }
    } else {
        s[i]
    }) by {
        if lo <= i < hi {
            assert(mid.subrange(0, hi - lo)[i - lo] == mid[i - lo]);
        }
    }
}

/// Scrolling (`CSI n S` up, `CSI n T` down) moves the rows of the scroll
/// region by `n` (1 where missing or 0): up, row `i` shows what row `i + n`
/// showed, down what row `i - n` showed, and rows that come from outside the
/// region come in blank; rows outside the region and the cursor stay.
pub proof fn law_scrolling(g: GridState, p: Seq<u16>, marks: Seq<u8>)
    requires
        grid_wf(g),
        g.region_ok(),
    ensures
        ({
            let n: int = if p.len() > 0 && p[0] != 0 { p[0] as int } else { 1 };
            let (top, bottom) = (g.scroll_top, g.scroll_bottom);
            let up = csi_spec(g, p, marks, 'S');
            let down = csi_spec(g, p, marks, 'T');
            &&& up.cursor_row == g.cursor_row && up.cursor_col == g.cursor_col
            &&& down.cursor_row == g.cursor_row && down.cursor_col == g.cursor_col
            &&& up.cells.len() == g.cells.len() && down.cells.len() == g.cells.len()
            &&& forall|i: int| 0 <= i < g.cells.len() ==> #[trigger] up.cells[i] == (if top <= i < bottom {
                if i + n < bottom { g.cells[i + n] } else { blank_row(g.cols) }
            } else {
                g.cells[i]
            })
            &&& forall|i: int| 0 <= i < g.cells.len() ==> #[trigger] down.cells[i] == (if top <= i < bottom {
                if i - n >= top { g.cells[i - n] } else { blank_row(g.cols) }
            } else {
                g.cells[i]
            })
        }),
        forall|j: int| 0 <= j < g.cols ==> is_blank(#[trigger] blank_row(g.cols)[j]),
{
    let n: int = if p.len() > 0 && p[0] != 0 { p[0] as int } else { 1 };
    lemma_queue_up(g.cells, g.scroll_top, g.scroll_bottom, n, blank_row(g.cols));
    lemma_queue_down(g.cells, g.scroll_top, g.scroll_bottom, n, blank_row(g.cols));
}

/// Deleting lines (`CSI n M`) at the cursor row pulls the rows below it, down
/// to the bottom of the scroll region, up by `n` with blank rows coming in at
/// the bottom; inserting lines (`CSI n L`) pushes them down by `n` with blank
/// rows coming in at the cursor row. Rows above the cursor and below the
/// region stay.
pub proof fn law_lines(g: GridState, p: Seq<u16>, marks: Seq<u8>)
    requires
        grid_wf(g),
        g.cursor_row < g.scroll_bottom,
        g.scroll_bottom <= g.rows,
    ensures
        ({
            let n: int = if p.len() > 0 && p[0] != 0 { p[0] as int } else { 1 };
            let (r, bottom) = (g.cursor_row, g.scroll_bottom);
            let del = csi_spec(g, p, marks, 'M');
            let ins = csi_spec(g, p, marks, 'L');
            &&& del.cells.len() == g.cells.len() && ins.cells.len() == g.cells.len()
            &&& forall|i: int| 0 <= i < g.cells.len() ==> #[trigger] del.cells[i] == (if r <= i < bottom {
                if i + n < bottom { g.cells[i + n] } else { blank_row(g.cols) }
            } else {
                g.cells[i]
            })
            &&& forall|i: int| 0 <= i < g.cells.len() ==> #[trigger] ins.cells[i] == (if r <= i < bottom {
                if i - n >= r { g.cells[i - n] } else { blank_row(g.cols) }
            } else {
                g.cells[i]
            })
        }),
{
    let n: int = if p.len() > 0 && p[0] != 0 { p[0] as int } else { 1 };
    lemma_queue_up(g.cells, g.cursor_row, g.scroll_bottom, n, blank_row(g.cols));
    lemma_queue_down(g.cells, g.cursor_row, g.scroll_bottom, n, blank_row(g.cols));
}

/// `CSI t;b r` makes rows `t` to `b` (counted from 1; `t` 0 or missing
/// meaning 1, `b` missing or 0 meaning the last row, and at most that) the
/// scroll region; the cursor and the cells stay.
pub proof fn law_scroll_region(g: GridState, p: Seq<u16>, marks: Seq<u8>)
    requires
        grid_wf(g),
        g.rows <= u16::MAX,
    ensures
        ({
            let t: int = if p.len() > 0 && p[0] != 0 { p[0] as int } else { 1 };
            let b: int = if p.len() > 1 && p[1] != 0 { p[1] as int } else { g.rows };
            csi_spec(g, p, marks, 'r') == (GridState {
                scroll_top: t - 1,
                scroll_bottom: if b <= g.rows { b } else { g.rows },
                ..g
            })
        }),
{
    assert((g.rows as u16) as int == g.rows);
}

/// The character edits on the cursor's line, `n` being the first parameter
/// (1 where missing or 0): `CSI n P` deletes `n` cells at the cursor, the
/// rest of the line moving left and blanks coming in at its end; `CSI n X`
/// blanks `n` cells from the cursor on (within the screen); `CSI n @` puts
/// `n` blanks in at the cursor, the rest moving right and the line cut at
/// the last column. Other lines and the cursor stay.
pub proof fn law_char_edits(g: GridState, p: Seq<u16>, marks: Seq<u8>)
    requires
        grid_wf(g),
        g.cursor_row < g.rows,
        g.cursor_col < g.cols,
    ensures
        ({
            let n: int = if p.len() > 0 && p[0] != 0 { p[0] as int } else { 1 };
            let (r, c) = (g.cursor_row, g.cursor_col);
            let old = g.cells[r];
            let del = csi_spec(g, p, marks, 'P');
            let era = csi_spec(g, p, marks, 'X');
            let ins = csi_spec(g, p, marks, '@');
            &&& del.cursor_row == r && del.cursor_col == c && era.cursor_row == r && era.cursor_col == c
            &&& ins.cursor_row == r && ins.cursor_col == c
            &&& del.cells.len() == g.cells.len() && era.cells.len() == g.cells.len() && ins.cells.len() == g.cells.len()
            &&& forall|i: int| 0 <= i < g.cells.len() && i != r ==> #[trigger] del.cells[i] == g.cells[i]
                && era.cells[i] == g.cells[i] && ins.cells[i] == g.cells[i]
            &&& del.cells[r].len() == old.len()
            &&& forall|j: int| 0 <= j < old.len() ==> #[trigger] del.cells[r][j] == (if j < c {
                old[j]
            } else if j + n < old.len() {
                old[j + n]
            } else {
                blank()
            })
            &&& era.cells[r].len() == old.len()
            &&& forall|j: int| 0 <= j < old.len() ==> #[trigger] era.cells[r][j] == (if c <= j < c + n && j < g.cols {
                blank()
            } else {
                old[j]
            })
            &&& ins.cells[r].len() == g.cols
            &&& forall|j: int| 0 <= j < g.cols ==> #[trigger] ins.cells[r][j] == (if j < c {
                old[j]
            } else if j < c + n {
                blank()
            } else {
                old[j - n]
            })
        }),
{
    let n: int = if p.len() > 0 && p[0] != 0 { p[0] as int } else { 1 };
    let (r, c) = (g.cursor_row, g.cursor_col);
    let old = g.cells[r];
    lemma_queue_up(old, c, old.len() as int, n, blank());
    let joined = old.subrange(0, c) + blank_row(n) + old.subrange(c, old.len() as int);
    assert forall|j: int| 0 <= j < g.cols implies #[trigger] insert_in_row(old, c, g.cols, n)[j] == (if j < c {
        old[j]
    } else if j < c + n {
        blank()
    } else {
        old[j - n]
    }) by {
        assert(insert_in_row(old, c, g.cols, n)[j] == joined[j]);
    }
}

/// Resizing to the size the grid has changes nothing.
pub proof fn law_resize_to_same_size(g: GridState)
    ensures
        resize_spec(g, g.rows, g.cols) == g,
{
}

} // verus!
