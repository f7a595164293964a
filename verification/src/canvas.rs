//! The canvas: a grid of fixed size, stored row after row.

use crate::pixel::Pixel;
use vstd::prelude::*;

verus! {

/// The width of the canvas that the server is started with.
pub const WIDTH: usize = 800;

/// The height of the canvas that the server is started with.
pub const HEIGHT: usize = 600;

/// The canvas as a mathematical value: `width * height` slots, the slot of
/// `(x, y)` at index `y * width + x`.
pub struct Grid {
    pub width: nat,
    pub height: nat,
    pub cells: Seq<Pixel>,
}

impl Grid {
    /// There is one slot for each coordinate pair, and no other.
    pub open spec fn wf(self) -> bool {
        self.cells.len() == self.width * self.height
    }

    /// Whether `(x, y)` lies on the canvas.
    pub open spec fn contains(self, x: nat, y: nat) -> bool {
        x < self.width && y < self.height
    }

    /// The index of the slot of `(x, y)`.
    pub open spec fn slot(self, x: nat, y: nat) -> int {
        (y * self.width + x) as int
    }

    /// The colour at `(x, y)`; none off the canvas.
    pub open spec fn get(self, x: nat, y: nat) -> Option<Pixel> {
        if self.contains(x, y) {
            Some(self.cells[self.slot(x, y)])
        } else {
            None
        }
    }

    /// The canvas after `color` is written at `(x, y)`; the same canvas if
    /// `(x, y)` lies off it.
    pub open spec fn set(self, x: nat, y: nat, color: Pixel) -> Grid {
        if self.contains(x, y) {
            Grid { cells: self.cells.update(self.slot(x, y), color), ..self }
        } else {
            self
        }
    }

    /// A canvas of the given size with every slot opaque black.
    pub open spec fn blank(width: nat, height: nat) -> Grid {
        Grid { width, height, cells: Seq::new(width * height, |i: int| Pixel::opaque_black()) }
    }
}

/// Every coordinate pair on the canvas has a slot.
pub proof fn lemma_slot_in_range(g: Grid, x: nat, y: nat)
    requires
        g.wf(),
        g.contains(x, y),
    ensures
        0 <= y * g.width <= g.slot(x, y) < g.cells.len(),
{
    assert(0 <= y * g.width && y * g.width + x < g.width * g.height) by (nonlinear_arith)
        requires
            x < g.width,
            y < g.height,
    ;
}

/// Two coordinate pairs on the canvas share a slot only if they are the same
/// pair.
pub proof fn lemma_slot_unique(g: Grid, x1: nat, y1: nat, x2: nat, y2: nat)
    requires
        g.contains(x1, y1),
        g.contains(x2, y2),
        g.slot(x1, y1) == g.slot(x2, y2),
    ensures
        x1 == x2,
        y1 == y2,
{
    assert(y1 == y2 && x1 == x2) by (nonlinear_arith)
        requires
            x1 < g.width,
            x2 < g.width,
            y1 * g.width + x1 == y2 * g.width + x2,
    ;
}

/// The canvas. Its size never changes after `new`.
///
/// A canvas made by `new` is well formed (`self@.wf()`), and every method
/// keeps it so.
pub struct Canvas {
    width: usize,
    height: usize,
    area: Vec<Pixel>,
}

impl View for Canvas {
    type V = Grid;

    closed spec fn view(&self) -> Grid {
        Grid { width: self.width as nat, height: self.height as nat, cells: self.area@ }
    }
}

impl Canvas {
    /// A canvas of `width` by `height` slots, all opaque black.
    pub fn new(width: usize, height: usize) -> (canvas: Canvas)
        requires
            width * height <= usize::MAX,
        ensures
            canvas@ == Grid::blank(width as nat, height as nat),
            canvas@.wf(),
    {
        let area = vec![Pixel::black(); width * height];
        assert(area@ =~= Grid::blank(width as nat, height as nat).cells);
        Canvas { width, height, area }
    }

    /// The number of columns.
    pub fn width(&self) -> (w: usize)
        ensures
            w == self@.width,
    {
        self.width
    }

    /// The number of rows.
    pub fn height(&self) -> (h: usize)
        ensures
            h == self@.height,
    {
        self.height
    }

    /// The colour stored at `(x, y)`, alpha included; none off the canvas.
    pub fn get(&self, x: usize, y: usize) -> (p: Option<Pixel>)
        requires
            self@.wf(),
        ensures
            p == self@.get(x as nat, y as nat),
    {
        if x < self.width && y < self.height {
            proof {
                lemma_slot_in_range(self@, x as nat, y as nat);
                assert(self.area@.len() == self.area.len());
            }
            Some(self.area[y * self.width + x])
        } else {
            None
        }
    }

    /// Writes `color` at `(x, y)`. Off the canvas nothing changes.
    pub fn set(&mut self, x: usize, y: usize, color: Pixel)
        requires
            old(self)@.wf(),
        ensures
            final(self)@ == old(self)@.set(x as nat, y as nat, color),
            final(self)@.wf(),
    {
        if x < self.width && y < self.height {
            proof {
                lemma_slot_in_range(self@, x as nat, y as nat);
                assert(self.area@.len() == self.area.len());
            }
            let at = y * self.width + x;
            self.area.set(at, color);
        }
    }
}

} // verus!
