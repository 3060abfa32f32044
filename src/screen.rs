use vstd::prelude::*;

verus! {

/// Number of pixel columns of the display.
pub const SCREEN_WIDTH: usize = 64;

/// Number of pixel rows of the display.
pub const SCREEN_HEIGHT: usize = 32;

/// Number of cells of the display (`SCREEN_WIDTH * SCREEN_HEIGHT`).
pub const SCREEN_CELLS: usize = 2048;

/// Row-major position of the cell at column `x`, row `y`.
pub open spec fn cell_index(x: int, y: int) -> int {
    y * SCREEN_WIDTH as int + x
}

/// A monochrome pixel grid, stored row-major.
pub struct Screen {
    width: usize,
    height: usize,
    pixels: [bool; 2048],
}

impl View for Screen {
    type V = Seq<bool>;

    /// The cells of the grid, row-major.
    closed spec fn view(&self) -> Seq<bool> {
        self.pixels@
    }
}

/// A grid in which no cell is lit.
pub open spec fn blank() -> Seq<bool> {
    Seq::new(SCREEN_CELLS as nat, |i: int| false)
}

impl Screen {
    /// The grid keeps the fixed dimensions it was made with.
    pub closed spec fn wf(&self) -> bool {
        &&& self.width == SCREEN_WIDTH
        &&& self.height == SCREEN_HEIGHT
    }

    /// The grid always has `SCREEN_CELLS` cells.
    pub proof fn lemma_len(&self)
        ensures
            self@.len() == SCREEN_CELLS,
    {
    }

    /// A blank grid of `SCREEN_WIDTH` by `SCREEN_HEIGHT` cells.
    pub fn new() -> (s: Screen)
        ensures
            s.wf(),
            s@ == blank(),
    {
        let s = Screen { width: SCREEN_WIDTH, height: SCREEN_HEIGHT, pixels: [false; 2048] };
        assert(s@ =~= blank());
        s
    }

    /// Row-major index of the cell at (`x`, `y`); the caller keeps both in range.
    pub fn get_index(&self, x: usize, y: usize) -> (r: usize)
        requires
            self.wf(),
            x < SCREEN_WIDTH,
            y < SCREEN_HEIGHT,
        ensures
            r == cell_index(x as int, y as int),
            r < SCREEN_CELLS,
    {
        y * self.width + x
    }

    /// Whether the cell at (`x`, `y`) is lit.
    pub fn get_pixel(&self, x: usize, y: usize) -> (r: bool)
        requires
            self.wf(),
            x < SCREEN_WIDTH,
            y < SCREEN_HEIGHT,
        ensures
            r == self@[cell_index(x as int, y as int)],
    {
        let i = self.get_index(x, y);
        self.pixels[i]
    }

    /// Writes `value` into the cell at (`x`, `y`) and leaves every other cell.
    pub fn set_pixel(&mut self, x: usize, y: usize, value: bool)
        requires
            old(self).wf(),
            x < SCREEN_WIDTH,
            y < SCREEN_HEIGHT,
        ensures
            final(self).wf(),
            final(self)@ == old(self)@.update(cell_index(x as int, y as int), value),
    {
        let i = self.get_index(x, y);
        self.pixels[i] = value;
    }

    /// Turns every cell off.
    pub fn clear(&mut self)
        requires
            old(self).wf(),
        ensures
            final(self).wf(),
            final(self)@ == blank(),
    {
        self.pixels = [false; 2048];
        assert(self@ =~= blank());
    }

    pub fn width(&self) -> (r: usize)
        requires
            self.wf(),
        ensures
            r == SCREEN_WIDTH,
    {
        self.width
    }

    pub fn height(&self) -> (r: usize)
        requires
            self.wf(),
        ensures
            r == SCREEN_HEIGHT,
    {
        self.height
    }

    /// All cells, row-major, for a renderer to read.
    pub fn pixels(&self) -> (r: &[bool])
        ensures
            r@ == self@,
    {
        self.pixels.as_slice()
    }
}

impl Default for Screen {
    fn default() -> (s: Screen)
        ensures
            s.wf(),
            s@ == blank(),
    {
        Screen::new()
    }
}

} // verus!
