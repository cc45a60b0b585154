//! The frame buffer: a 64 by 32 grid of one-bit pixels on which sprites are
//! drawn by exclusive or, wrapping at the edges.

use vstd::prelude::*;

verus! {

/// Width of the display in pixels.
pub const DISPLAY_WIDTH: usize = 64;

/// Height of the display in pixels.
pub const DISPLAY_HEIGHT: usize = 32;

/// Largest number of rows a sprite has.
pub const MAX_SPRITE_ROWS: usize = 15;

/// Number of pixels in one sprite row.
pub const SPRITE_WIDTH: usize = 8;

/// What the frame buffer holds: the pixel rows from top to bottom, each
/// from left to right, and whether a draw has happened since the pixels
/// were last handed out.
#[verifier::ext_equal]
pub struct ScreenState {
    pub pixels: Seq<Seq<bool>>,
    pub changed: bool,
}

/// A grid of the display's size.
pub open spec fn is_grid(pixels: Seq<Seq<bool>>) -> bool {
    &&& pixels.len() == DISPLAY_HEIGHT
    &&& forall|py: int| 0 <= py < DISPLAY_HEIGHT ==> (#[trigger] pixels[py]).len() == DISPLAY_WIDTH
}

/// The pixel in column `px` of row `py`.
pub open spec fn pixel_at(pixels: Seq<Seq<bool>>, px: int, py: int) -> bool {
    pixels[py][px]
}

/// The grid with every pixel off.
pub open spec fn blank_grid() -> Seq<Seq<bool>> {
    Seq::new(DISPLAY_HEIGHT as nat, |py: int| Seq::new(DISPLAY_WIDTH as nat, |px: int| false))
}

/// The rows of an array of pixels as a grid.
pub open spec fn grid_of(cells: [[bool; DISPLAY_WIDTH]; DISPLAY_HEIGHT]) -> Seq<Seq<bool>> {
    Seq::new(DISPLAY_HEIGHT as nat, |py: int| cells@[py]@)
}

/// Pixel `bit` of a sprite row, counted from the left: the most significant
/// bit of the byte is pixel 0.
pub open spec fn sprite_bit(row: u8, bit: u8) -> bool {
    (row >> ((7 - bit) as u8)) & 1 == 1
}

/// Whether the sprite `rows`, put down with its top left corner at
/// (`x`, `y`), has a set pixel on the display position (`px`, `py`).
/// Columns wrap at the display width and rows at its height, so the
/// sprite's column under `px` is the distance from `x` to `px` going right
/// around the display, and likewise for the row.
pub open spec fn sprite_covers(x: u8, y: u8, rows: Seq<u8>, px: int, py: int) -> bool {
    let dx = (px - x) % (DISPLAY_WIDTH as int);
    let dy = (py - y) % (DISPLAY_HEIGHT as int);
    dx < SPRITE_WIDTH && dy < rows.len() && sprite_bit(rows[dy], dx as u8)
}

/// The grid after the sprite was drawn: each pixel under a set sprite
/// pixel is flipped, every other pixel stays.
pub open spec fn draw(pixels: Seq<Seq<bool>>, x: u8, y: u8, rows: Seq<u8>) -> Seq<Seq<bool>> {
    Seq::new(
        DISPLAY_HEIGHT as nat,
        |py: int|
            Seq::new(
                DISPLAY_WIDTH as nat,
                |px: int| pixel_at(pixels, px, py) != sprite_covers(x, y, rows, px, py),
            ),
    )
}

/// Whether a set sprite pixel lies on the lit pixel (`px`, `py`).
pub open spec fn erases(pixels: Seq<Seq<bool>>, x: u8, y: u8, rows: Seq<u8>, px: int, py: int) -> bool {
    &&& 0 <= px < DISPLAY_WIDTH
    &&& 0 <= py < DISPLAY_HEIGHT
    &&& pixel_at(pixels, px, py)
    &&& sprite_covers(x, y, rows, px, py)
}

/// Whether drawing the sprite turns some lit pixel off.
pub open spec fn collides(pixels: Seq<Seq<bool>>, x: u8, y: u8, rows: Seq<u8>) -> bool {
    exists|px: int, py: int| erases(pixels, x, y, rows, px, py)
}

/// Whether a set sprite pixel lies on the dark pixel (`px`, `py`).
pub open spec fn lights(pixels: Seq<Seq<bool>>, x: u8, y: u8, rows: Seq<u8>, px: int, py: int) -> bool {
    &&& 0 <= px < DISPLAY_WIDTH
    &&& 0 <= py < DISPLAY_HEIGHT
    &&& !pixel_at(pixels, px, py)
    &&& sprite_covers(x, y, rows, px, py)
}

/// Whether a draw that goes through the sprite row by row, and through each
/// row from the left, has come to the display position (`px`, `py`) before
/// it comes to pixel `b` of row `r`.
spec fn reached(x: u8, y: u8, px: int, py: int, r: int, b: int) -> bool {
    let dx = (px - x) % (DISPLAY_WIDTH as int);
    let dy = (py - y) % (DISPLAY_HEIGHT as int);
    dx < SPRITE_WIDTH && (dy < r || (dy == r && dx < b))
}

/// The grid in the middle of a draw, when pixel `b` of row `r` is next.
spec fn drawn_so_far(pixels: Seq<Seq<bool>>, x: u8, y: u8, rows: Seq<u8>, r: int, b: int) -> Seq<
    Seq<bool>,
> {
    Seq::new(
        DISPLAY_HEIGHT as nat,
        |py: int|
            Seq::new(
                DISPLAY_WIDTH as nat,
                |px: int|
                    pixel_at(pixels, px, py) != (sprite_covers(x, y, rows, px, py) && reached(
                        x,
                        y,
                        px,
                        py,
                        r,
                        b,
                    )),
            ),
    )
}

/// Whether a lit pixel has been turned off in the middle of a draw, when
/// pixel `b` of row `r` is next.
spec fn erased_so_far(pixels: Seq<Seq<bool>>, x: u8, y: u8, rows: Seq<u8>, r: int, b: int) -> bool {
    exists|px: int, py: int| #[trigger]
        erases(pixels, x, y, rows, px, py) && reached(x, y, px, py, r, b)
}

/// A draw starts from the grid as it is, with nothing turned off.
proof fn lemma_draw_start(pixels: Seq<Seq<bool>>, x: u8, y: u8, rows: Seq<u8>)
    requires
        is_grid(pixels),
    ensures
        drawn_so_far(pixels, x, y, rows, 0, 0) == pixels,
        !erased_so_far(pixels, x, y, rows, 0, 0),
{
    assert(drawn_so_far(pixels, x, y, rows, 0, 0) =~~= pixels);
}

/// Pixel `b` of row `r` lands on a display position that the draw has not
/// come to before, flips it if the sprite pixel is set, and turns it off if
/// it was lit as well.
proof fn lemma_draw_pixel(pixels: Seq<Seq<bool>>, x: u8, y: u8, rows: Seq<u8>, r: int, b: int)
    requires
        rows.len() <= MAX_SPRITE_ROWS,
        0 <= r < rows.len(),
        0 <= b < SPRITE_WIDTH,
    ensures
        ({
            let px = (x + b) % (DISPLAY_WIDTH as int);
            let py = (y + r) % (DISPLAY_HEIGHT as int);
            let now = drawn_so_far(pixels, x, y, rows, r, b);
            let fill = sprite_bit(rows[r], b as u8);
            &&& now[py][px] == pixel_at(pixels, px, py)
            &&& drawn_so_far(pixels, x, y, rows, r, b + 1) == now.update(
                py,
                now[py].update(px, now[py][px] != fill),
            )
            &&& erased_so_far(pixels, x, y, rows, r, b + 1) == (erased_so_far(pixels, x, y, rows, r, b)
                || (fill && now[py][px]))
        }),
{
    let px = (x + b) % (DISPLAY_WIDTH as int);
    let py = (y + r) % (DISPLAY_HEIGHT as int);
    let now = drawn_so_far(pixels, x, y, rows, r, b);
    let next = drawn_so_far(pixels, x, y, rows, r, b + 1);
    let fill = sprite_bit(rows[r], b as u8);
    assert((px - x) % (DISPLAY_WIDTH as int) == b);
    assert forall|qx: int, qy: int|
        0 <= qx < DISPLAY_WIDTH && 0 <= qy < DISPLAY_HEIGHT && !(qx == px && qy == py) implies reached(
        x,
        y,
        qx,
        qy,
        r,
        b + 1,
    ) == reached(x, y, qx, qy, r, b) by {
        assert(!((qx - x) % (DISPLAY_WIDTH as int) == b && (qy - y) % (DISPLAY_HEIGHT as int) == r));
    }
    assert(next =~~= now.update(py, now[py].update(px, now[py][px] != fill)));
    if fill && now[py][px] {
        assert(erases(pixels, x, y, rows, px, py) && reached(x, y, px, py, r, b + 1));
    }
    if erased_so_far(pixels, x, y, rows, r, b) {
        let (wx, wy) = choose|wx: int, wy: int| #[trigger]
            erases(pixels, x, y, rows, wx, wy) && reached(x, y, wx, wy, r, b);
        assert(erases(pixels, x, y, rows, wx, wy) && reached(x, y, wx, wy, r, b + 1));
    }
    if erased_so_far(pixels, x, y, rows, r, b + 1) {
        let (wx, wy) = choose|wx: int, wy: int| #[trigger]
            erases(pixels, x, y, rows, wx, wy) && reached(x, y, wx, wy, r, b + 1);
        if wx == px && wy == py {
        } else {
            assert(erases(pixels, x, y, rows, wx, wy) && reached(x, y, wx, wy, r, b));
        }
    }
}

/// After the last pixel of a row comes the first of the next.
proof fn lemma_draw_row_done(pixels: Seq<Seq<bool>>, x: u8, y: u8, rows: Seq<u8>, r: int)
    ensures
        drawn_so_far(pixels, x, y, rows, r, SPRITE_WIDTH as int) == drawn_so_far(
            pixels,
            x,
            y,
            rows,
            r + 1,
            0,
        ),
        erased_so_far(pixels, x, y, rows, r, SPRITE_WIDTH as int) == erased_so_far(
            pixels,
            x,
            y,
            rows,
            r + 1,
            0,
        ),
{
    assert(drawn_so_far(pixels, x, y, rows, r, SPRITE_WIDTH as int) =~~= drawn_so_far(
        pixels,
        x,
        y,
        rows,
        r + 1,
        0,
    ));
}

/// After the last row the sprite is drawn.
proof fn lemma_draw_done(pixels: Seq<Seq<bool>>, x: u8, y: u8, rows: Seq<u8>)
    ensures
        drawn_so_far(pixels, x, y, rows, rows.len() as int, 0) == draw(pixels, x, y, rows),
        erased_so_far(pixels, x, y, rows, rows.len() as int, 0) == collides(pixels, x, y, rows),
{
    assert(drawn_so_far(pixels, x, y, rows, rows.len() as int, 0) =~~= draw(pixels, x, y, rows));
}

/// The 64 by 32 grid of one-bit pixels.
pub struct FrameBuffer {
    vram: [[bool; DISPLAY_WIDTH]; DISPLAY_HEIGHT],
    changed: bool,
}

impl View for FrameBuffer {
    type V = ScreenState;

    closed spec fn view(&self) -> ScreenState {
        ScreenState { pixels: grid_of(self.vram), changed: self.changed }
    }
}

impl FrameBuffer {
    /// The pixels of a frame buffer always form a grid of the display's size.
    pub proof fn lemma_view_is_grid(&self)
        ensures
            is_grid(self@.pixels),
    {
    }

    /// A frame buffer with every pixel off and nothing to redraw.
    pub fn new() -> (r: FrameBuffer)
        ensures
            r@ == (ScreenState { pixels: blank_grid(), changed: false }),
    {
        let r = FrameBuffer { vram: [[false; DISPLAY_WIDTH]; DISPLAY_HEIGHT], changed: false };
        assert(r@.pixels =~~= blank_grid());
        r
    }

    /// Turns every pixel off and marks the frame buffer as changed.
    pub fn clear(&mut self)
        ensures
            final(self)@ == (ScreenState { pixels: blank_grid(), changed: true }),
    {
        self.vram = [[false; DISPLAY_WIDTH]; DISPLAY_HEIGHT];
        self.changed = true;
        assert(self@.pixels =~~= blank_grid());
    }

    /// The pixel at column `x mod 64` of row `y mod 32`.
    pub fn pixel(&self, x: usize, y: usize) -> (r: bool)
        ensures
            r == pixel_at(self@.pixels, (x % DISPLAY_WIDTH) as int, (y % DISPLAY_HEIGHT) as int),
    {
        self.vram[y % DISPLAY_HEIGHT][x % DISPLAY_WIDTH]
    }

    /// Whether a draw has happened since the pixels were last handed out.
    pub fn is_changed(&self) -> (r: bool)
        ensures
            r == self@.changed,
    {
        self.changed
    }

    /// Hands out the pixels, and takes the frame buffer as redrawn.
    pub fn get_vram(&mut self) -> (r: &[[bool; DISPLAY_WIDTH]; DISPLAY_HEIGHT])
        ensures
            grid_of(*r) == old(self)@.pixels,
            final(self)@ == (ScreenState { pixels: old(self)@.pixels, changed: false }),
    {
        self.changed = false;
        &self.vram
    }

    /// Draws a sprite by exclusive or, with its top left corner at column
    /// `x mod 64` of row `y mod 32`, wrapping at the edges of the display.
    /// Returns whether a lit pixel was turned off.
    pub fn draw_sprite(&mut self, x: u8, y: u8, rows: &[u8]) -> (collision: bool)
        requires
            rows@.len() <= MAX_SPRITE_ROWS,
        ensures
            final(self)@.pixels == draw(old(self)@.pixels, x, y, rows@),
            final(self)@.changed,
            collision == collides(old(self)@.pixels, x, y, rows@),
    {
        let ghost before = self@.pixels;
        proof {
            self.lemma_view_is_grid();
            lemma_draw_start(before, x, y, rows@);
        }
        let mut collision = false;
        let mut r: usize = 0;
        while r < rows.len()
            invariant
                r <= rows@.len() <= MAX_SPRITE_ROWS,
                self@.pixels == drawn_so_far(before, x, y, rows@, r as int, 0),
                collision == erased_so_far(before, x, y, rows@, r as int, 0),
            decreases rows@.len() - r,
        {
            let py: usize = (y as usize + r) % DISPLAY_HEIGHT;
            let row: u8 = rows[r];
            let mut b: u8 = 0;
            while b < 8
                invariant
                    r < rows@.len() <= MAX_SPRITE_ROWS,
                    b <= SPRITE_WIDTH,
                    py == (y + r) % (DISPLAY_HEIGHT as int),
                    row == rows@[r as int],
                    self@.pixels == drawn_so_far(before, x, y, rows@, r as int, b as int),
                    collision == erased_so_far(before, x, y, rows@, r as int, b as int),
                decreases SPRITE_WIDTH - b,
            {
                let px: usize = (x as usize + b as usize) % DISPLAY_WIDTH;
                let fill: bool = (row >> (7 - b)) & 1 == 1;
                let lit: bool = self.vram[py][px];
                collision = collision || (fill && lit);
                self.vram[py][px] = lit != fill;
                proof {
                    lemma_draw_pixel(before, x, y, rows@, r as int, b as int);
                }
                b += 1;
            }
            proof {
                lemma_draw_row_done(before, x, y, rows@, r as int);
            }
            r += 1;
        }
        self.changed = true;
        proof {
            lemma_draw_done(before, x, y, rows@);
        }
        collision
    }
}

/// Where the pixels of a sprite land: pixel `b` of row `r` lies `b` columns
/// right of `x` and `r` rows below `y`, counted around the edges of the
/// display, and no other sprite pixel lies there.
pub proof fn lemma_sprite_pixel_lands(x: u8, y: u8, rows: Seq<u8>, r: int, b: u8)
    requires
        rows.len() <= DISPLAY_HEIGHT,
        0 <= r < rows.len(),
        b < SPRITE_WIDTH,
    ensures
        sprite_covers(
            x,
            y,
            rows,
            (x + b) % (DISPLAY_WIDTH as int),
            (y + r) % (DISPLAY_HEIGHT as int),
        ) == sprite_bit(rows[r], b),
{
}

/// Drawing a sprite twice at the same place gives the pixels back as they
/// were. The second draw turns a pixel off exactly where the sprite lies on
/// a pixel that was dark before the first draw, so it reports a collision
/// if and only if there is such a pixel.
pub proof fn lemma_draw_twice(pixels: Seq<Seq<bool>>, x: u8, y: u8, rows: Seq<u8>)
    requires
        is_grid(pixels),
    ensures
        draw(draw(pixels, x, y, rows), x, y, rows) == pixels,
        collides(draw(pixels, x, y, rows), x, y, rows) <==> exists|px: int, py: int|
            lights(pixels, x, y, rows, px, py),
{
    let once = draw(pixels, x, y, rows);
    assert(draw(once, x, y, rows) =~~= pixels);
    if collides(once, x, y, rows) {
        let (px, py) = choose|px: int, py: int| erases(once, x, y, rows, px, py);
        assert(lights(pixels, x, y, rows, px, py));
    }
    if exists|px: int, py: int| lights(pixels, x, y, rows, px, py) {
        let (px, py) = choose|px: int, py: int| lights(pixels, x, y, rows, px, py);
        assert(erases(once, x, y, rows, px, py));
    }
}

/// A draw changes no pixel that the sprite does not cover.
pub proof fn lemma_draw_keeps_uncovered(
    pixels: Seq<Seq<bool>>,
    x: u8,
    y: u8,
    rows: Seq<u8>,
    px: int,
    py: int,
)
    requires
        0 <= px < DISPLAY_WIDTH,
        0 <= py < DISPLAY_HEIGHT,
        !sprite_covers(x, y, rows, px, py),
    ensures
        pixel_at(draw(pixels, x, y, rows), px, py) == pixel_at(pixels, px, py),
{
}

} // verus!
