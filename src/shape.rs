//! Cells, cell buffers and bit-packed shapes, and the stamp that composites a
//! shape into a buffer.

use vstd::prelude::*;
use vstd::arithmetic::div_mod::{
    lemma_div_pos_is_pos, lemma_fundamental_div_mod, lemma_fundamental_div_mod_converse, lemma_mod_pos_bound,
};
use crate::geometry::Size2D;

verus! {

/// A terminal colour.
#[derive(Clone, Copy, Debug, PartialEq, Eq, Structural)]
pub enum Color {
    Reset,
    Black,
    Red,
    Green,
    Yellow,
    Blue,
    Magenta,
    Cyan,
    Gray,
    DarkGray,
    LightRed,
    LightGreen,
    LightYellow,
    LightBlue,
    LightMagenta,
    LightCyan,
    White,
    Rgb(u8, u8, u8),
    Indexed(u8),
}

/// One character with its foreground and background colours.
#[derive(Clone, Copy, Debug, PartialEq, Eq, Structural)]
pub struct Cell {
    pub ch: char,
    pub fg: Color,
    pub bg: Color,
}

impl Cell {
    pub open spec fn blank_spec() -> Cell {
        Cell { ch: ' ', fg: Color::Reset, bg: Color::Reset }
    }

    /// A space in the terminal's own colours.
    pub fn blank() -> (r: Cell)
        ensures
            r == Cell::blank_spec(),
    {
        Cell { ch: ' ', fg: Color::Reset, bg: Color::Reset }
    }

    pub fn new(ch: char, fg: Color) -> (r: Cell)
        ensures
            r == (Cell { ch, fg, bg: Color::Reset }),
    {
        Cell { ch, fg, bg: Color::Reset }
    }
}

/// A rectangle of filled and empty positions.
pub trait Stencil {
    spec fn spec_width(&self) -> int;

    spec fn spec_height(&self) -> int;

    /// Whether column `c`, row `r` of the shape is filled.
    spec fn spec_filled(&self, c: int, r: int) -> bool;

    spec fn wf(&self) -> bool;

    fn width(&self) -> (r: u16)
        requires
            self.wf(),
        ensures
            r == self.spec_width(),
    ;

    fn height(&self) -> (r: u16)
        requires
            self.wf(),
        ensures
            r == self.spec_height(),
    ;

    fn filled(&self, c: u16, r: u16) -> (b: bool)
        requires
            self.wf(),
            c < self.spec_width(),
            r < self.spec_height(),
        ensures
            b == self.spec_filled(c as int, r as int),
    ;
}

/// A shape as one integer per row; the most significant of a row's `size.x` low
/// bits is its leftmost column.
#[derive(Clone, Debug)]
pub struct BitShape {
    pub rows: Vec<u128>,
    pub size: Size2D,
}

impl BitShape {
    pub fn new(rows: Vec<u128>, size: Size2D) -> (r: BitShape)
        requires
            size.x <= 128,
            rows@.len() == size.y,
        ensures
            r.rows@ == rows@,
            r.size == size,
            r.wf(),
    {
        BitShape { rows, size }
    }
}

impl Stencil for BitShape {
    open spec fn spec_width(&self) -> int {
        self.size.x as int
    }

    open spec fn spec_height(&self) -> int {
        self.size.y as int
    }

    open spec fn spec_filled(&self, c: int, r: int) -> bool {
        (self.rows@[r] >> ((self.size.x - 1 - c) as u128)) & 1 == 1
    }

    open spec fn wf(&self) -> bool {
        self.size.x <= 128 && self.rows@.len() == self.size.y
    }

    fn width(&self) -> (r: u16) {
        self.size.x
    }

    fn height(&self) -> (r: u16) {
        self.size.y
    }

    fn filled(&self, c: u16, r: u16) -> (b: bool) {
        let shift: u16 = self.size.x - 1 - c;
        (self.rows[r as usize] >> (shift as u128)) & 1 == 1
    }
}

/// A shape packed into one integer, row after row; the most significant of its
/// `size.x * size.y` low bits is the top left position.
#[derive(Clone, Copy, Debug)]
pub struct BitShape128 {
    pub bits: u128,
    pub size: Size2D,
}

impl BitShape128 {
    pub fn new(bits: u128, size: Size2D) -> (r: BitShape128)
        requires
            size.x * size.y <= 128,
        ensures
            r.bits == bits,
            r.size == size,
            r.wf(),
    {
        BitShape128 { bits, size }
    }
}

impl Stencil for BitShape128 {
    open spec fn spec_width(&self) -> int {
        self.size.x as int
    }

    open spec fn spec_height(&self) -> int {
        self.size.y as int
    }

    open spec fn spec_filled(&self, c: int, r: int) -> bool {
        (self.bits >> ((self.size.x * self.size.y - 1 - (r * self.size.x + c)) as u128)) & 1 == 1
    }

    open spec fn wf(&self) -> bool {
        self.size.x * self.size.y <= 128
    }

    fn width(&self) -> (r: u16) {
        self.size.x
    }

    fn height(&self) -> (r: u16) {
        self.size.y
    }

    fn filled(&self, c: u16, r: u16) -> (b: bool) {
        let w = self.size.x as u32;
        let h = self.size.y as u32;
        assert((r as u32) * w + (c as u32) < w * h) by (nonlinear_arith)
            requires r < h, c < w;
        let shift: u32 = w * h - 1 - ((r as u32) * w + (c as u32));
        (self.bits >> (shift as u128)) & 1 == 1
    }
}

/// A frame of cells, row after row.
#[derive(Clone, Debug)]
pub struct CellBuffer {
    pub width: u16,
    pub height: u16,
    pub cells: Vec<Cell>,
}

/// The cell that index `j` of a buffer `w` wide holds after `shape` was stamped with
/// `cell` at (`ox`, `oy`) over a buffer that held `before` there.
pub open spec fn stamped_at<S: Stencil>(shape: S, cell: Cell, ox: int, oy: int, w: int, before: Cell, j: int) -> Cell {
    let c = j % w - ox;
    let r = j / w - oy;
    if 0 <= c < shape.spec_width() && 0 <= r < shape.spec_height() && shape.spec_filled(c, r) {
        cell
    } else {
        before
    }
}

proof fn lemma_index(j: int, w: int)
    requires
        0 <= j,
        0 < w,
    ensures
        j == (j / w) * w + j % w,
        0 <= j % w < w,
        0 <= j / w,
{
    lemma_fundamental_div_mod(j, w);
    assert((j / w) * w == w * (j / w)) by (nonlinear_arith);
    lemma_mod_pos_bound(j, w);
    lemma_div_pos_is_pos(j, w);
}

impl CellBuffer {
    pub open spec fn wf(&self) -> bool {
        self.cells@.len() == self.width * self.height
    }

    /// The cell at column `x`, row `y`.
    pub open spec fn at(&self, x: int, y: int) -> Cell {
        self.cells@[y * self.width + x]
    }

    /// A buffer of the given extent with every cell set to `fill`.
    pub fn new(width: u16, height: u16, fill: Cell) -> (r: CellBuffer)
        requires
            width * height <= usize::MAX,
        ensures
            r.wf(),
            r.width == width,
            r.height == height,
            forall|j: int| 0 <= j < r.cells@.len() ==> r.cells@[j] == fill,
    {
        let n: usize = (width as usize) * (height as usize);
        let mut cells: Vec<Cell> = Vec::with_capacity(n);
        let mut i: usize = 0;
        while i < n
            invariant
                i <= n,
                cells@.len() == i,
                forall|j: int| 0 <= j < i ==> cells@[j] == fill,
            decreases n - i,
        {
            cells.push(fill);
            i = i + 1;
        }
        CellBuffer { width, height, cells }
    }

    /// The cell at column `x`, row `y`.
    pub fn get(&self, x: u16, y: u16) -> (r: Cell)
        requires
            self.wf(),
            x < self.width,
            y < self.height,
        ensures
            r == self.at(x as int, y as int),
    {
        assert((y as int) * (self.width as int) + (x as int) < (self.width as int) * (self.height as int))
            by (nonlinear_arith)
            requires x < self.width, y < self.height;
        let n: usize = self.cells.len();
        self.cells[(y as usize) * (self.width as usize) + (x as usize)]
    }

    /// Writes `cell` over every position of the buffer that a filled position of
    /// `shape` covers when its top left corner lies at (`ox`, `oy`); positions that fall
    /// outside the buffer are dropped and every other cell keeps its value.
    pub fn stamp<S: Stencil>(&mut self, shape: &S, cell: Cell, ox: i32, oy: i32)
        requires
            old(self).wf(),
            shape.wf(),
        ensures
            final(self).wf(),
            final(self).width == old(self).width,
            final(self).height == old(self).height,
            forall|j: int| 0 <= j < final(self).cells@.len() ==>
                #[trigger] final(self).cells@[j]
                    == stamped_at(*shape, cell, ox as int, oy as int, old(self).width as int, old(self).cells@[j], j),
    {
        let ghost before = self.cells@;
        let w = self.width as i64;
        let h = self.height as i64;
        let sw = shape.width() as i64;
        let sh = shape.height() as i64;
        let x0: i64 = if ox < 0 { 0 } else if (ox as i64) > w { w } else { ox as i64 };
        let y0: i64 = if oy < 0 { 0 } else if (oy as i64) > h { h } else { oy as i64 };
        let x1: i64 = if (ox as i64) + sw < x0 { x0 } else if (ox as i64) + sw > w { w } else { (ox as i64) + sw };
        let y1: i64 = if (oy as i64) + sh < y0 { y0 } else if (oy as i64) + sh > h { h } else { (oy as i64) + sh };
        let mut y: i64 = y0;
        while y < y1
            invariant
                self.wf(),
                self.width as i64 == w,
                self.height as i64 == h,
                shape.wf(),
                sw == shape.spec_width(),
                sh == shape.spec_height(),
                0 <= sw <= u16::MAX,
                0 <= sh <= u16::MAX,
                0 <= x0 <= x1 <= w,
                0 <= y0 <= y <= y1 <= h,
                x0 == 0 || x0 <= ox,
                y0 == 0 || y0 <= oy,
                x1 == w || x1 >= ox + sw,
                y1 == h || y1 >= oy + sh,
                x0 < x1 ==> (ox <= x0 && x1 <= ox + sw),
                y0 < y1 ==> (oy <= y0 && y1 <= oy + sh),
                before.len() == w * h,
                forall|j: int| 0 <= j < self.cells@.len() ==> #[trigger] self.cells@[j] == if j / (w as int) < y {
                    stamped_at(*shape, cell, ox as int, oy as int, w as int, before[j], j)
                } else {
                    before[j]
                },
            decreases y1 - y,
        {
            let mut x: i64 = x0;
            while x < x1
                invariant
                    self.wf(),
                    self.width as i64 == w,
                    self.height as i64 == h,
                    shape.wf(),
                    sw == shape.spec_width(),
                    sh == shape.spec_height(),
                    0 <= sw <= u16::MAX,
                    0 <= sh <= u16::MAX,
                0 <= sw <= u16::MAX,
                0 <= sh <= u16::MAX,
                    0 <= x0 <= x <= x1 <= w,
                    0 <= y0 <= y < y1 <= h,
                    x0 == 0 || x0 <= ox,
                    y0 == 0 || y0 <= oy,
                    x1 == w || x1 >= ox + sw,
                    y1 == h || y1 >= oy + sh,
                    x0 < x1 ==> (ox <= x0 && x1 <= ox + sw),
                    y0 < y1 ==> (oy <= y0 && y1 <= oy + sh),
                    before.len() == w * h,
                    forall|j: int| 0 <= j < self.cells@.len() ==> #[trigger] self.cells@[j] == if j / (w as int) < y
                        || (j / (w as int) == y && j % (w as int) < x) {
                        stamped_at(*shape, cell, ox as int, oy as int, w as int, before[j], j)
                    } else {
                        before[j]
                    },
                decreases x1 - x,
            {
                assert(0 <= x - ox < sw && 0 <= y - oy < sh);
                let c = (x - ox as i64) as u16;
                let r = (y - oy as i64) as u16;
                assert((y as int) * (w as int) + (x as int) < (w as int) * (h as int)) by (nonlinear_arith)
                    requires 0 <= x < w, 0 <= y < h;
                assert((y as int) * (w as int) <= (w as int) * (h as int)) by (nonlinear_arith)
                    requires 0 <= x < w, 0 <= y < h;
                let n: usize = self.cells.len();
                let k: usize = (y as usize) * (self.width as usize) + (x as usize);
                proof {
                    assert((y as int) * (w as int) + (x as int) < (w as int) * (h as int)) by (nonlinear_arith)
                        requires 0 <= x < w, 0 <= y < h;
                    lemma_fundamental_div_mod_converse(k as int, w as int, y as int, x as int);
                }
                if shape.filled(c, r) {
                    self.cells.set(k, cell);
                }
                proof {
                    assert forall|j: int| 0 <= j < self.cells@.len() implies #[trigger] self.cells@[j] == if j / (w as int) < y
                        || (j / (w as int) == y && j % (w as int) < x + 1) {
                        stamped_at(*shape, cell, ox as int, oy as int, w as int, before[j], j)
                    } else {
                        before[j]
                    } by {
                        lemma_index(j, w as int);
                        if j == k as int {
                            assert(j % (w as int) == x && j / (w as int) == y);
                            assert(stamped_at(*shape, cell, ox as int, oy as int, w as int, before[j], j)
                                == if shape.spec_filled(c as int, r as int) { cell } else { before[j] });
                        } else {
                            assert(j / (w as int) != y || j % (w as int) != x);
                        }
                    }
                }
                x = x + 1;
            }
            proof {
                assert forall|j: int| 0 <= j < self.cells@.len() implies #[trigger] self.cells@[j] == if j / (w as int) < y + 1 {
                    stamped_at(*shape, cell, ox as int, oy as int, w as int, before[j], j)
                } else {
                    before[j]
                } by {
                    lemma_index(j, w as int);
                }
            }
            y = y + 1;
        }
        proof {
            assert forall|j: int| 0 <= j < self.cells@.len() implies #[trigger] self.cells@[j]
                == stamped_at(*shape, cell, ox as int, oy as int, w as int, before[j], j) by {
                lemma_index(j, w as int);
                if j / (w as int) >= y {
                    assert((j / (w as int)) * (w as int) < (w as int) * (h as int));
                    assert(j / (w as int) < h) by (nonlinear_arith)
                        requires (j / (w as int)) * (w as int) < (w as int) * (h as int), w > 0;
                }
            }
        }
    }
}

/// The filled positions of a shape, as (column, row).
pub open spec fn filled_set<S: Stencil>(shape: S) -> Set<(int, int)> {
    Set::new(|p: (int, int)| 0 <= p.0 < shape.spec_width() && 0 <= p.1 < shape.spec_height() && shape.spec_filled(p.0, p.1))
}

/// Whether a stamp of `shape` at (`ox`, `oy`) covers index `j` of a buffer `w` wide.
pub open spec fn covers<S: Stencil>(shape: S, ox: int, oy: int, w: int, j: int) -> bool {
    let c = j % w - ox;
    let r = j / w - oy;
    0 <= c < shape.spec_width() && 0 <= r < shape.spec_height() && shape.spec_filled(c, r)
}

/// The indices of a buffer `w` wide and `len` long that a stamp at (`ox`, `oy`) writes.
pub open spec fn written<S: Stencil>(shape: S, ox: int, oy: int, w: int, len: int) -> Set<int> {
    Set::new(|j: int| 0 <= j < len && covers(shape, ox, oy, w, j))
}

/// A stamp that lies wholly inside a buffer writes the template cell into exactly one
/// cell for each filled position of the shape, so into as many cells as the shape has
/// filled positions, and leaves every other cell as it was.
pub proof fn lemma_stamp_inside<S: Stencil>(buf: CellBuffer, shape: S, cell: Cell, ox: int, oy: int)
    requires
        buf.wf(),
        shape.wf(),
        0 <= ox,
        ox + shape.spec_width() <= buf.width,
        0 <= oy,
        oy + shape.spec_height() <= buf.height,
    ensures
        written(shape, ox, oy, buf.width as int, buf.cells@.len() as int)
            == filled_set(shape).map(|p: (int, int)| (oy + p.1) * buf.width + ox + p.0),
        written(shape, ox, oy, buf.width as int, buf.cells@.len() as int).len() == filled_set(shape).len(),
        forall|j: int| 0 <= j < buf.cells@.len() ==> {
            let after = #[trigger] stamped_at(shape, cell, ox, oy, buf.width as int, buf.cells@[j], j);
            if written(shape, ox, oy, buf.width as int, buf.cells@.len() as int).contains(j) {
                after == cell
            } else {
                after == buf.cells@[j]
            }
        },
{
    let w = buf.width as int;
    let h = buf.height as int;
    let len = buf.cells@.len() as int;
    let t = written(shape, ox, oy, w, len);
    let fs = filled_set(shape);
    let f = |p: (int, int)| (oy + p.1) * buf.width + ox + p.0;
    let g = |j: int| (j % w - ox, j / w - oy);
    if w == 0 {
        assert(t =~= Set::empty());
        assert(fs =~= Set::empty());
        assert(fs.map(f) =~= Set::empty());
        return;
    }
    assert forall|j: int| t.contains(j) implies fs.map(f).contains(j) by {
        lemma_index(j, w);
        assert(fs.contains(g(j)));
        assert(f(g(j)) == j);
    }
    assert forall|j: int| fs.map(f).contains(j) implies t.contains(j) by {
        let p = choose|p: (int, int)| fs.contains(p) && f(p) == j;
        let c = p.0 + ox;
        let r = p.1 + oy;
        assert(0 <= c < w && 0 <= r < h);
        assert(j == r * w + c);
        assert(r * w + c < w * h) by (nonlinear_arith)
            requires 0 <= c < w, 0 <= r < h;
        assert(0 <= r * w) by (nonlinear_arith)
            requires 0 <= w, 0 <= r;
        lemma_fundamental_div_mod_converse(j, w, r, c);
    }
    assert(t =~= fs.map(f));
    assert(t.subset_of(vstd::set_lib::set_int_range(0, len)));
    vstd::set_lib::lemma_int_range(0, len);
    vstd::set_lib::lemma_len_subset(t, vstd::set_lib::set_int_range(0, len));
    assert forall|p: (int, int)| fs.contains(p) implies t.map(g).contains(p) by {
        let j = f(p);
        assert(t.contains(j));
        let c = p.0 + ox;
        let r = p.1 + oy;
        assert(j == r * w + c);
        lemma_fundamental_div_mod_converse(j, w, r, c);
        assert(g(j) == p);
    }
    assert(fs.subset_of(t.map(g)));
    t.lemma_map_finite(g);
    vstd::set_lib::lemma_len_subset(fs, t.map(g));
    assert forall|p1: (int, int), p2: (int, int)| fs.contains(p1) && fs.contains(p2) && #[trigger] f(p1) == #[trigger] f(p2)
        implies p1 == p2 by {
        let j = f(p1);
        lemma_fundamental_div_mod_converse(j, w, p1.1 + oy, p1.0 + ox);
        lemma_fundamental_div_mod_converse(j, w, p2.1 + oy, p2.0 + ox);
    }
    assert(vstd::relations::injective_on(f, fs));
    vstd::set_lib::lemma_map_size(fs, t, f);
}

} // verus!
