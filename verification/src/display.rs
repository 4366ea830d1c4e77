use vstd::prelude::*;
use vstd::string::StringExecFns;

verus! {

/// Framebuffer width in cells.
pub const WIDTH: usize = 64;
/// Framebuffer height in cells.
pub const HEIGHT: usize = 32;

/// Cell index of column `x`, row `y` in the row-major framebuffer.
pub open spec fn pixel_index(x: int, y: int) -> int {
    y * 64 + x
}

/// The character `dump` renders a cell as.
pub open spec fn cell_char(on: bool) -> char {
    if on {
        '1'
    } else {
        '0'
    }
}

/// The character a dump of `buf` holds at position `p`: rows of `WIDTH`
/// cell characters, each row closed by a newline.
pub open spec fn dump_char(buf: Seq<bool>, p: int) -> char {
    let y = p / 65;
    let x = p % 65;
    if x == 64 {
        '\n'
    } else {
        cell_char(buf[pixel_index(x, y)])
    }
}

/// A monochrome framebuffer of `WIDTH` by `HEIGHT` cells with XOR-sprite
/// plotting and collision reporting. Handing the cells to a rendering
/// backend is the run loop's business, not the core's.
pub struct Display {
    pub buffer: Vec<bool>,
}

impl Display {
    /// A display is well formed when its buffer spans every cell.
    pub open spec fn wf(&self) -> bool {
        self.buffer@.len() == WIDTH * HEIGHT
    }

    pub fn new() -> (d: Display)
        ensures
            d.wf(),
            forall|p: int| 0 <= p < WIDTH * HEIGHT ==> !d.buffer@[p],
    {
        let mut buffer: Vec<bool> = Vec::new();
        let mut k: usize = 0;
        while k < WIDTH * HEIGHT
            invariant
                k <= WIDTH * HEIGHT,
                buffer@.len() == k,
                forall|j: int| 0 <= j < k ==> !buffer@[j],
            decreases WIDTH * HEIGHT - k,
        {
            buffer.push(false);
            k = k + 1;
        }
        Display { buffer }
    }

    /// Sets every cell off.
    pub fn clear(&mut self)
        requires
            old(self).wf(),
        ensures
            final(self).wf(),
            forall|p: int| 0 <= p < WIDTH * HEIGHT ==> !final(self).buffer@[p],
    {
        let mut k: usize = 0;
        while k < WIDTH * HEIGHT
            invariant
                k <= WIDTH * HEIGHT,
                self.buffer@.len() == WIDTH * HEIGHT,
                forall|j: int| 0 <= j < k ==> !self.buffer@[j],
            decreases WIDTH * HEIGHT - k,
        {
            self.buffer[k] = false;
            k = k + 1;
        }
    }

    /// XOR-plots `on` at the wrapped coordinates and reports whether the
    /// cell was on immediately before the XOR.
    pub fn draw_pixel(&mut self, x: u8, y: u8, on: bool) -> (was: bool)
        requires
            old(self).wf(),
        ensures
            final(self).wf(),
            was == old(self).buffer@[pixel_index(x as int % 64, y as int % 32)],
            final(self).buffer@ == old(self).buffer@.update(
                pixel_index(x as int % 64, y as int % 32),
                old(self).buffer@[pixel_index(x as int % 64, y as int % 32)] ^ on,
            ),
    {
        let xi = (x as usize) % WIDTH;
        let yi = (y as usize) % HEIGHT;
        let p = yi * WIDTH + xi;
        let was = self.buffer[p];
        self.buffer[p] = was ^ on;
        was
    }

    /// Reads the cell at the wrapped coordinates.
    pub fn get_pixel(&self, x: u8, y: u8) -> (on: bool)
        requires
            self.wf(),
        ensures
            on == self.buffer@[pixel_index(x as int % 64, y as int % 32)],
    {
        let xi = (x as usize) % WIDTH;
        let yi = (y as usize) % HEIGHT;
        self.buffer[yi * WIDTH + xi]
    }

    /// Hand-off point for the external rendering collaborator; the core
    /// itself changes nothing here.
    pub fn present(&self) {
    }

    /// Renders the buffer as one character per cell, row by row, each row
    /// ended by a newline.
    pub fn dump(&self) -> (out: String)
        requires
            self.wf(),
        ensures
            out@.len() == HEIGHT * (WIDTH + 1),
            forall|p: int| 0 <= p < out@.len() ==> out@[p] == dump_char(self.buffer@, p),
    {
        proof {
            reveal_strlit("1");
            reveal_strlit("0");
            reveal_strlit("\n");
        }
        let mut out = String::new();
        let mut y: usize = 0;
        while y < HEIGHT
            invariant
                y <= HEIGHT,
                self.wf(),
                out@.len() == y * 65,
                forall|p: int| 0 <= p < out@.len() ==> out@[p] == dump_char(self.buffer@, p),
                "1"@ == seq!['1'],
                "0"@ == seq!['0'],
                "\n"@ == seq!['\n'],
            decreases HEIGHT - y,
        {
            let mut x: usize = 0;
            while x < WIDTH
                invariant
                    x <= WIDTH,
                    y < HEIGHT,
                    self.wf(),
                    out@.len() == y * 65 + x,
                    forall|p: int| 0 <= p < out@.len() ==> out@[p] == dump_char(self.buffer@, p),
                    "1"@ == seq!['1'],
                    "0"@ == seq!['0'],
                    "\n"@ == seq!['\n'],
                decreases WIDTH - x,
            {
                proof {
                    let q = (y * 65 + x) as int;
                    assert(q / 65 == y && q % 65 == x) by (nonlinear_arith)
                        requires
                            q == y * 65 + x,
                            0 <= x < 65,
                            0 <= y,
                    ;
                }
                if self.buffer[y * WIDTH + x] {
                    out.append("1");
                } else {
                    out.append("0");
                }
                x = x + 1;
            }
            proof {
                let q = (y * 65 + 64) as int;
                assert(q / 65 == y && q % 65 == 64) by (nonlinear_arith)
                    requires
                        q == y * 65 + 64,
                        0 <= y,
                ;
            }
            out.append("\n");
            y = y + 1;
        }
        out
    }
}

} // verus!
