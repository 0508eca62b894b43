//! The 64 x 32 monochrome framebuffer with XOR-toggle drawing semantics,
//! viewed as a sequence of 32 rows of 64 booleans.

use vstd::prelude::*;

verus! {

/// The framebuffer width, in pixels.
pub const DISPLAY_WIDTH: usize = 64;

/// The framebuffer height, in pixels.
pub const DISPLAY_HEIGHT: usize = 32;

/// A framebuffer with every pixel off.
pub open spec fn blank_screen() -> Seq<Seq<bool>> {
    Seq::new(32, |y: int| Seq::new(64, |x: int| false))
}

/// `screen` with the pixel at column `x` of row `y` inverted.
pub open spec fn toggled(screen: Seq<Seq<bool>>, x: int, y: int) -> Seq<Seq<bool>> {
    screen.update(y, screen[y].update(x, !screen[y][x]))
}

/// The framebuffer.
pub struct Display {
    buffer: [[bool; 64]; 32],
}

impl View for Display {
    type V = Seq<Seq<bool>>;

    closed spec fn view(&self) -> Seq<Seq<bool>> {
        Seq::new(32, |y: int| self.buffer@[y]@)
    }
}

impl Display {
    /// Shape of a well-formed framebuffer: 32 rows of 64 pixels. It holds
    /// of every `Display`; it is stated so that callers may rely on it.
    pub open spec fn wf(&self) -> bool {
        self@.len() == 32 && forall|y: int| 0 <= y < 32 ==> (#[trigger] self@[y]).len() == 64
    }

    proof fn lemma_wf(&self)
        ensures
            self.wf(),
    {
    }

    /// A framebuffer with every pixel off.
    pub fn new() -> (r: Display)
        ensures
            r.wf(),
            r@ == blank_screen(),
    {
        let r = Display { buffer: [[false; 64]; 32] };
        proof {
            r.lemma_wf();
            assert(r@ =~~= blank_screen());
        }
        r
    }

    /// Turns every pixel off.
    pub fn clear(&mut self)
        ensures
            final(self).wf(),
            final(self)@ == blank_screen(),
    {
        self.buffer = [[false; 64]; 32];
        proof {
            self.lemma_wf();
            assert(self@ =~~= blank_screen());
        }
    }

    /// Read access to the whole framebuffer, row by row.
    pub fn get_buffer(&self) -> (r: &[[bool; 64]; 32])
        ensures
            forall|y: int| 0 <= y < 32 ==> (#[trigger] r@[y])@ == self@[y],
    {
        &self.buffer
    }

    /// Inverts the pixel at column `x` of row `y` and reports whether it was
    /// on before the call.
    pub fn toggle_pixel(&mut self, x: usize, y: usize) -> (r: bool)
        requires
            x < 64,
            y < 32,
        ensures
            final(self).wf(),
            final(self)@ == toggled(old(self)@, x as int, y as int),
            r == old(self)@[y as int][x as int],
    {
        let pixel_on = self.buffer[y][x];
        let mut row = self.buffer[y];
        row[x] = !pixel_on;
        self.buffer[y] = row;
        proof {
            self.lemma_wf();
            assert(self@ =~~= toggled(old(self)@, x as int, y as int));
        }
        pixel_on
    }
}

} // verus!
