use vstd::prelude::*;
use crossterm::style::Color;
use crate::buffer::Buffer;
use crate::text::{column_of, line_length, line_of, line_start, newlines};

verus! {

/// One screen position: a glyph and its colours.
#[derive(Clone, Copy, Debug, PartialEq)]
pub struct Cell {
    pub background: Color,
    pub foreground: Color,
    pub content: char,
}

/// The cell a fresh or resized grid is filled with.
pub open spec fn blank() -> Cell {
    Cell { background: Color::Black, foreground: Color::White, content: ' ' }
}

pub fn blank_cell() -> (r: Cell)
    ensures
        r == blank(),
{
    Cell { background: Color::Black, foreground: Color::White, content: ' ' }
}

/// A grid of cells that can be read and written by coordinates; writes
/// outside the grid are dropped.
pub trait Canvas {
    spec fn wf(&self) -> bool;

    spec fn columns_of(&self) -> nat;

    spec fn rows_of(&self) -> nat;

    /// The cell at column `x` of row `y`, for coordinates within the grid.
    spec fn cell_at(&self, x: int, y: int) -> Cell;

    fn width(&self) -> (r: u16)
        requires
            self.wf(),
        ensures
            r == self.columns_of(),
    ;

    fn height(&self) -> (r: u16)
        requires
            self.wf(),
        ensures
            r == self.rows_of(),
    ;

    fn get(&self, x: u16, y: u16) -> (r: Option<&Cell>)
        requires
            self.wf(),
        ensures
            r is Some <==> (x < self.columns_of() && y < self.rows_of()),
            r is Some ==> *r->Some_0 == self.cell_at(x as int, y as int),
    ;

    fn set(&mut self, x: u16, y: u16, cell: Cell)
        requires
            old(self).wf(),
        ensures
            final(self).wf(),
            final(self).columns_of() == old(self).columns_of(),
            final(self).rows_of() == old(self).rows_of(),
            forall|a: int, b: int|
                0 <= a < old(self).columns_of() && 0 <= b < old(self).rows_of() ==> #[trigger] final(self).cell_at(a, b) == if a == x && b == y {
                    cell
                } else {
                    old(self).cell_at(a, b)
                },
    ;
}

/// The screen as a row-major grid of cells, sized like the terminal.
pub struct Terminal {
    cells: Vec<Cell>,
    columns: u16,
    rows: u16,
}

proof fn lemma_grid_index(columns: int, rows: int, x: int, y: int)
    requires
        0 <= x < columns,
        0 <= y < rows,
    ensures
        0 <= y * columns + x < columns * rows,
{
    assert(y * columns + x < columns * rows) by (nonlinear_arith)
        requires
            0 <= x < columns,
            0 <= y < rows,
    ;
    assert(0 <= y * columns) by (nonlinear_arith)
        requires
            0 <= x < columns,
            0 <= y,
    ;
}

proof fn lemma_grid_size(columns: u16, rows: u16)
    ensures
        (columns as int) * (rows as int) <= 0xFFFF * 0xFFFF,
{
    assert((columns as int) * (rows as int) <= 0xFFFF * 0xFFFF) by (nonlinear_arith)
        requires
            columns <= 0xFFFF,
            rows <= 0xFFFF,
    ;
}

impl Terminal {
    /// The cells, row after row.
    pub closed spec fn cells_view(&self) -> Seq<Cell> {
        self.cells@
    }

    /// A grid of `columns` by `rows` blank cells.
    pub fn with_size(columns: u16, rows: u16) -> (r: Terminal)
        ensures
            r.wf(),
            r.columns_of() == columns,
            r.rows_of() == rows,
            forall|x: int, y: int| 0 <= x < columns && 0 <= y < rows ==> #[trigger] r.cell_at(x, y) == blank(),
    {
        proof {
            lemma_grid_size(columns, rows);
        }
        let n: usize = (columns as usize) * (rows as usize);
        let mut cells: Vec<Cell> = Vec::new();
        let mut i: usize = 0;
        while i < n
            invariant
                i <= n,
                cells@.len() == i,
                forall|k: int| 0 <= k < i ==> cells@[k] == blank(),
            decreases n - i,
        {
            cells.push(blank_cell());
            i = i + 1;
        }
        let r = Terminal { cells, columns, rows };
        assert forall|x: int, y: int| 0 <= x < columns && 0 <= y < rows implies #[trigger] r.cell_at(x, y) == blank() by {
            lemma_grid_index(columns as int, rows as int, x, y);
        }
        r
    }

    /// Takes the new terminal size; every cell becomes blank.
    pub fn resize(&mut self, columns: u16, rows: u16)
        ensures
            final(self).wf(),
            final(self).columns_of() == columns,
            final(self).rows_of() == rows,
            forall|x: int, y: int| 0 <= x < columns && 0 <= y < rows ==> #[trigger] final(self).cell_at(x, y) == blank(),
    {
        *self = Terminal::with_size(columns, rows);
    }

    /// Every cell with its coordinates, row after row, left to right.
    pub fn frame(&self) -> (r: Vec<(u16, u16, Cell)>)
        requires
            self.wf(),
        ensures
            r@.len() == self.columns_of() * self.rows_of(),
            forall|i: int| 0 <= i < r@.len() ==> {
                &&& #[trigger] r@[i].0 == i % (self.columns_of() as int)
                &&& r@[i].1 == i / (self.columns_of() as int)
                &&& r@[i].2 == self.cell_at(i % (self.columns_of() as int), i / (self.columns_of() as int))
            },
    {
        let n = self.cells.len();
        let mut r: Vec<(u16, u16, Cell)> = Vec::new();
        let mut i: usize = 0;
        while i < n
            invariant
                self.wf(),
                n == self.cells@.len(),
                i <= n,
                r@.len() == i,
                forall|k: int| 0 <= k < i ==> {
                    &&& #[trigger] r@[k].0 == k % (self.columns as int)
                    &&& r@[k].1 == k / (self.columns as int)
                    &&& r@[k].2 == self.cells@[k]
                },
            decreases n - i,
        {
            let c = self.columns as usize;
            proof {
                if c == 0 {
                    assert((self.columns as int) * (self.rows as int) == 0) by (nonlinear_arith)
                        requires
                            self.columns == 0,
                    ;
                }
            }
            let x = i % c;
            let y = i / c;
            proof {
                let ci = c as int;
                let ii = i as int;
                let ri = self.rows as int;
                assert(ii / ci < ri) by (nonlinear_arith)
                    requires
                        0 <= ii < ci * ri,
                        ci > 0,
                ;
                assert(ii == (ii / ci) * ci + ii % ci) by (nonlinear_arith)
                    requires
                        ci > 0,
                ;
            }
            r.push((x as u16, y as u16, self.cells[i]));
            i = i + 1;
        }
        proof {
            assert forall|k: int| 0 <= k < r@.len() implies {
                &&& #[trigger] r@[k].0 == k % (self.columns_of() as int)
                &&& r@[k].1 == k / (self.columns_of() as int)
                &&& r@[k].2 == self.cell_at(k % (self.columns_of() as int), k / (self.columns_of() as int))
            } by {
                let ci = self.columns as int;
                let ri = self.rows as int;
                if ci == 0 {
                    assert(ci * ri == 0) by (nonlinear_arith)
                        requires
                            ci == 0,
                    ;
                }
                assert(r@[k].0 == k % ci);
                assert(r@[k].2 == self.cells@[k]);
                assert(k == (k / ci) * ci + k % ci) by (nonlinear_arith)
                    requires
                        ci > 0,
                ;
            }
        }
        r
    }
}

impl Canvas for Terminal {
    closed spec fn wf(&self) -> bool {
        self.cells@.len() == (self.columns as int) * (self.rows as int)
    }

    closed spec fn columns_of(&self) -> nat {
        self.columns as nat
    }

    closed spec fn rows_of(&self) -> nat {
        self.rows as nat
    }

    closed spec fn cell_at(&self, x: int, y: int) -> Cell {
        self.cells@[y * (self.columns as int) + x]
    }

    fn width(&self) -> (r: u16) {
        self.columns
    }

    fn height(&self) -> (r: u16) {
        self.rows
    }

    fn get(&self, x: u16, y: u16) -> (r: Option<&Cell>) {
        if x < self.columns && y < self.rows {
            proof {
                lemma_grid_index(self.columns as int, self.rows as int, x as int, y as int);
                lemma_grid_size(self.columns, self.rows);
                assert(0 <= (y as int) * (self.columns as int)) by (nonlinear_arith);
            }
            let index = (y as usize) * (self.columns as usize) + (x as usize);
            Some(&self.cells[index])
        } else {
            None
        }
    }

    fn set(&mut self, x: u16, y: u16, cell: Cell) {
        if x < self.columns && y < self.rows {
            proof {
                lemma_grid_index(self.columns as int, self.rows as int, x as int, y as int);
                lemma_grid_size(self.columns, self.rows);
                assert(0 <= (y as int) * (self.columns as int)) by (nonlinear_arith);
            }
            let index = (y as usize) * (self.columns as usize) + (x as usize);
            self.cells.set(index, cell);
            assert forall|a: int, b: int|
                0 <= a < old(self).columns_of() && 0 <= b < old(self).rows_of() implies #[trigger] self.cell_at(a, b) == if a == x && b == y {
                    cell
                } else {
                    old(self).cell_at(a, b)
                } by {
                lemma_grid_index(self.columns as int, self.rows as int, a, b);
                if !(a == x && b == y) {
                    lemma_grid_cells_differ(self.columns as int, a, b, x as int, y as int);
                }
            }
        }
    }
}

/// What the text puts at column `x` of row `y`: the `x`-th character of line
/// `y` in the given colours, or nothing past the line's end.
pub open spec fn text_cell(s: Seq<char>, background: Color, foreground: Color, x: int, y: int) -> Option<Cell> {
    if 0 <= y <= newlines(s) && 0 <= x < line_length(s, y as nat) {
        Some(Cell { background, foreground, content: s[line_start(s, y as nat) + x] })
    } else {
        None
    }
}

/// The cell after painting the text over `old`.
pub open spec fn painted(s: Seq<char>, background: Color, foreground: Color, x: int, y: int, old: Cell) -> Cell {
    match text_cell(s, background, foreground, x, y) {
        Some(c) => c,
        None => old,
    }
}

/// Lays the buffer's lines onto the canvas from its top-left corner, one
/// line per row, clipped at the canvas edges; other cells stay as they were.
pub fn paint_text<T: Canvas>(buffer: &Buffer, background: Color, foreground: Color, canvas: &mut T)
    requires
        buffer.wf(),
        old(canvas).wf(),
    ensures
        final(canvas).wf(),
        final(canvas).columns_of() == old(canvas).columns_of(),
        final(canvas).rows_of() == old(canvas).rows_of(),
        forall|a: int, b: int|
            0 <= a < old(canvas).columns_of() && 0 <= b < old(canvas).rows_of() ==> #[trigger] final(canvas).cell_at(a, b) == painted(
                buffer@.content,
                background,
                foreground,
                a,
                b,
                old(canvas).cell_at(a, b),
            ),
{
    let ghost s = buffer@.content;
    let w = canvas.width();
    let h = canvas.height();
    let n = buffer.len_chars();
    let last = buffer.line_of(n);
    proof {
        crate::text::lemma_newlines_take_all(s);
    }
    let mut y: u16 = 0;
    while y < h && (y as usize) <= last
        invariant
            buffer.wf(),
            s == buffer@.content,
            n == s.len(),
            last == newlines(s),
            canvas.wf(),
            w == old(canvas).columns_of(),
            h == old(canvas).rows_of(),
            canvas.columns_of() == w,
            canvas.rows_of() == h,
            y <= h,
            forall|a: int, b: int|
                0 <= a < w && 0 <= b < h ==> #[trigger] canvas.cell_at(a, b) == if b < y {
                    painted(s, background, foreground, a, b, old(canvas).cell_at(a, b))
                } else {
                    old(canvas).cell_at(a, b)
                },
        decreases h - y,
    {
        let start = buffer.offset_of_line_start(y as usize);
        let length = buffer.line_length(y as usize);
        let mut x: u16 = 0;
        while x < w && (x as usize) < length
            invariant
                buffer.wf(),
                s == buffer@.content,
                n == s.len(),
                last == newlines(s),
                canvas.wf(),
                w == old(canvas).columns_of(),
                h == old(canvas).rows_of(),
                canvas.columns_of() == w,
                canvas.rows_of() == h,
                y < h,
                y <= last,
                x <= w,
                start == line_start(s, y as nat),
                length == line_length(s, y as nat),
                start + length <= s.len(),
                forall|a: int, b: int|
                    0 <= a < w && 0 <= b < h ==> #[trigger] canvas.cell_at(a, b) == if b < y || (b == y
                        && a < x) {
                        painted(s, background, foreground, a, b, old(canvas).cell_at(a, b))
                    } else {
                        old(canvas).cell_at(a, b)
                    },
            decreases w - x,
        {
            let c = buffer.char_at(start + x as usize);
            canvas.set(x, y, Cell { background, foreground, content: c });
            x = x + 1;
        }
        assert forall|a: int, b: int| 0 <= a < w && 0 <= b < h implies #[trigger] canvas.cell_at(a, b)
            == if b < y + 1 {
            painted(s, background, foreground, a, b, old(canvas).cell_at(a, b))
        } else {
            old(canvas).cell_at(a, b)
        } by {
            if b == y && a >= x {
                assert(a >= length);
            }
        }
        y = y + 1;
    }
}

/// The decimal digit for `d` below ten.
pub open spec fn digit(d: nat) -> char {
    seq!['0', '1', '2', '3', '4', '5', '6', '7', '8', '9'][d as int]
}

/// `n` written in decimal, without sign or leading zeros.
pub open spec fn decimal(n: nat) -> Seq<char>
    decreases n,
{
    if n < 10 {
        seq![digit(n)]
    } else {
        decimal(n / 10).push(digit(n % 10))
    }
}

fn digit_char(d: usize) -> (r: char)
    requires
        d < 10,
    ensures
        r == digit(d as nat),
{
    match d {
        0 => '0',
        1 => '1',
        2 => '2',
        3 => '3',
        4 => '4',
        5 => '5',
        6 => '6',
        7 => '7',
        8 => '8',
        _ => '9',
    }
}

/// The decimal digits of `n`, most significant first.
fn decimal_digits(n: usize) -> (r: Vec<char>)
    ensures
        r@ == decimal(n as nat),
    decreases n,
{
    if n < 10 {
        let mut r: Vec<char> = Vec::new();
        r.push(digit_char(n));
        assert(r@ =~= decimal(n as nat));
        r
    } else {
        let mut r = decimal_digits(n / 10);
        r.push(digit_char(n % 10));
        r
    }
}

/// The status text `(<line>, <column>)`.
pub open spec fn status_label(line: nat, column: nat) -> Seq<char> {
    seq!['('] + decimal(line) + seq![',', ' '] + decimal(column) + seq![')']
}

pub open spec fn status_cell(c: char) -> Cell {
    Cell { background: Color::White, foreground: Color::Black, content: c }
}

/// The status row's cell at column `x`: the label's character, then blanks.
pub open spec fn status_row_cell(label: Seq<char>, x: int) -> Cell {
    if x < label.len() {
        status_cell(label[x])
    } else {
        status_cell(' ')
    }
}

/// Something that paints itself onto a canvas.
pub trait Element {
    spec fn ready(&self) -> bool;

    fn render<T: Canvas>(&self, canvas: &mut T)
        requires
            self.ready(),
            old(canvas).wf(),
        ensures
            final(canvas).wf(),
            final(canvas).columns_of() == old(canvas).columns_of(),
            final(canvas).rows_of() == old(canvas).rows_of(),
    ;
}

/// The bottom row, showing where the cursor of a buffer stands.
pub struct StatusBar<'a> {
    pub buffer: &'a Buffer,
}

impl<'a> StatusBar<'a> {
    /// The status text for the buffer's cursor.
    pub fn label(&self) -> (r: Vec<char>)
        requires
            self.buffer.wf(),
        ensures
            r@ == status_label(
                line_of(self.buffer@.content, self.buffer@.position),
                column_of(self.buffer@.content, self.buffer@.position) as nat,
            ),
    {
        let mut label: Vec<char> = Vec::new();
        label.push('(');
        let mut line = decimal_digits(self.buffer.get_line());
        label.append(&mut line);
        label.push(',');
        label.push(' ');
        let mut column = decimal_digits(self.buffer.get_column());
        label.append(&mut column);
        label.push(')');
        assert(label@ =~= status_label(
            line_of(self.buffer@.content, self.buffer@.position),
            column_of(self.buffer@.content, self.buffer@.position) as nat,
        ));
        label
    }

    /// Fills the bottom row of `canvas` with the status colours and writes
    /// the label from its left edge; other rows stay as they were.
    pub fn paint<T: Canvas>(&self, canvas: &mut T)
        requires
            self.buffer.wf(),
            old(canvas).wf(),
        ensures
            final(canvas).wf(),
            final(canvas).columns_of() == old(canvas).columns_of(),
            final(canvas).rows_of() == old(canvas).rows_of(),
            forall|a: int, b: int|
                0 <= a < old(canvas).columns_of() && 0 <= b < old(canvas).rows_of() ==> #[trigger] final(canvas).cell_at(a, b) == if b == old(canvas).rows_of() - 1 {
                    status_row_cell(
                        status_label(
                            line_of(self.buffer@.content, self.buffer@.position),
                            column_of(self.buffer@.content, self.buffer@.position) as nat,
                        ),
                        a,
                    )
                } else {
                    old(canvas).cell_at(a, b)
                },
    {
        let label = self.label();
        let w = canvas.width();
        let h = canvas.height();
        if h == 0 {
            return ;
        }
        let y = h - 1;
        let mut x: u16 = 0;
        while x < w
            invariant
                canvas.wf(),
                w == old(canvas).columns_of(),
                h == old(canvas).rows_of(),
                y == h - 1,
                x <= w,
                canvas.columns_of() == w,
                canvas.rows_of() == h,
                forall|a: int, b: int|
                    0 <= a < w && 0 <= b < h ==> #[trigger] canvas.cell_at(a, b) == if b == y && a < x {
                        status_cell(' ')
                    } else {
                        old(canvas).cell_at(a, b)
                    },
            decreases w - x,
        {
            canvas.set(x, y, Cell { background: Color::White, foreground: Color::Black, content: ' ' });
            x = x + 1;
        }
        let mut i: usize = 0;
        while i < label.len() && i < w as usize
            invariant
                canvas.wf(),
                w == old(canvas).columns_of(),
                h == old(canvas).rows_of(),
                y == h - 1,
                i <= w,
                i <= label@.len(),
                canvas.columns_of() == w,
                canvas.rows_of() == h,
                forall|a: int, b: int|
                    0 <= a < w && 0 <= b < h ==> #[trigger] canvas.cell_at(a, b) == if b == y {
                        if a < i {
                            status_cell(label@[a])
                        } else {
                            status_cell(' ')
                        }
                    } else {
                        old(canvas).cell_at(a, b)
                    },
            decreases label.len() - i,
        {
            canvas.set(i as u16, y, Cell { background: Color::White, foreground: Color::Black, content: label[i] });
            i = i + 1;
        }
        assert forall|a: int, b: int| 0 <= a < w && 0 <= b < h implies #[trigger] canvas.cell_at(a, b)
            == if b == y {
            status_row_cell(label@, a)
        } else {
            old(canvas).cell_at(a, b)
        } by {
            if b == y && a < label@.len() {
                assert(a < i);
            }
        }
    }
}

impl<'a> Element for StatusBar<'a> {
    open spec fn ready(&self) -> bool {
        self.buffer.wf()
    }

    fn render<T: Canvas>(&self, canvas: &mut T)
        ensures
            forall|a: int, b: int|
                0 <= a < old(canvas).columns_of() && 0 <= b < old(canvas).rows_of() ==> #[trigger] final(canvas).cell_at(a, b) == if b == old(canvas).rows_of() - 1 {
                    status_row_cell(
                        status_label(
                            line_of(self.buffer@.content, self.buffer@.position),
                            column_of(self.buffer@.content, self.buffer@.position) as nat,
                        ),
                        a,
                    )
                } else {
                    old(canvas).cell_at(a, b)
                },
    {
        self.paint(canvas);
    }
}

proof fn lemma_grid_cells_differ(columns: int, a: int, b: int, x: int, y: int)
    requires
        0 <= a < columns,
        0 <= x < columns,
        0 <= b,
        0 <= y,
        !(a == x && b == y),
    ensures
        b * columns + a != y * columns + x,
{
    if b == y {
    } else if b < y {
        assert(b * columns + a < y * columns + x) by (nonlinear_arith)
            requires
                0 <= a < columns,
                0 <= x,
                b < y,
        ;
    } else {
        assert(y * columns + x < b * columns + a) by (nonlinear_arith)
            requires
                0 <= x < columns,
                0 <= a,
                y < b,
        ;
    }
}

} // verus!
