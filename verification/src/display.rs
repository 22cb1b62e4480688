//! The 64 x 32 monochrome screen and the sprites drawn onto it.
//!
//! A sprite is up to fifteen rows of eight pixels, one byte per row, most
//! significant bit leftmost; rows beyond the fifteenth are ignored. Drawing
//! XORs it onto the screen; whatever falls off one edge comes back in at the
//! opposite one.
use vstd::prelude::*;

verus! {

/// Pixels per row.
pub const DISPLAY_WIDTH: usize = 64;

/// Rows.
pub const DISPLAY_HEIGHT: usize = 32;

/// Pixels in all.
pub const DISPLAY_PIXELS: usize = 2048;

/// Pixels per sprite row.
pub const SPRITE_WIDTH: usize = 8;

/// The most rows a sprite can have.
pub const MAX_SPRITE_ROWS: usize = 15;

/// Position in the pixel sequence of the pixel at column `x`, row `y`,
/// both taken modulo the screen's size.
pub open spec fn pixel_index(x: int, y: int) -> int {
    (y % 32) * 64 + (x % 64)
}

/// Whether the sprite row `row` has its pixel `column` set, column 0 being
/// the leftmost.
pub open spec fn sprite_bit(row: u8, column: u8) -> bool {
    row & (0x80u8 >> column) != 0
}

/// The number of rows of `rows` that are drawn.
pub open spec fn sprite_height(rows: Seq<u8>) -> int {
    if rows.len() <= MAX_SPRITE_ROWS {
        rows.len() as int
    } else {
        MAX_SPRITE_ROWS as int
    }
}

/// Whether the sprite `rows`, drawn with its top left corner at `(x, y)`,
/// has a set pixel on the screen position `(px, py)`.
pub open spec fn sprite_pixel(x: u8, y: u8, rows: Seq<u8>, px: int, py: int) -> bool {
    let column = (px - x) % 64;
    let row = (py - y) % 32;
    &&& column < SPRITE_WIDTH
    &&& row < sprite_height(rows)
    &&& sprite_bit(rows[row], column as u8)
}

/// The same, looking only at the first `limit` sprite pixels in row-major
/// order.
spec fn sprite_pixel_before(x: u8, y: u8, rows: Seq<u8>, px: int, py: int, limit: int) -> bool {
    &&& sprite_pixel(x, y, rows, px, py)
    &&& ((py - y) % 32) * 8 + (px - x) % 64 < limit
}

/// Whether the screen position `p` is lit in `pixels` and also set in the
/// sprite.
pub open spec fn overlaps_at(pixels: Seq<bool>, x: u8, y: u8, rows: Seq<u8>, p: int) -> bool {
    &&& 0 <= p < DISPLAY_PIXELS
    &&& pixels[p]
    &&& sprite_pixel(x, y, rows, p % 64, p / 64)
}

/// Whether drawing the sprite would turn a lit pixel off.
pub open spec fn collides(pixels: Seq<bool>, x: u8, y: u8, rows: Seq<u8>) -> bool {
    exists|p: int| overlaps_at(pixels, x, y, rows, p)
}

/// The screen after the sprite was XORed onto it.
pub open spec fn drawn(pixels: Seq<bool>, x: u8, y: u8, rows: Seq<u8>) -> Seq<bool> {
    Seq::new(
        DISPLAY_PIXELS as nat,
        |p: int| pixels[p] != sprite_pixel(x, y, rows, p % 64, p / 64),
    )
}

/// A blank screen.
pub open spec fn blank() -> Seq<bool> {
    Seq::new(DISPLAY_PIXELS as nat, |p: int| false)
}

/// Drawing a sprite a second time at the same place gives back the screen
/// as it was before the first time.
pub proof fn lemma_draw_twice_restores(pixels: Seq<bool>, x: u8, y: u8, rows: Seq<u8>)
    requires
        pixels.len() == DISPLAY_PIXELS,
    ensures
        drawn(drawn(pixels, x, y, rows), x, y, rows) == pixels,
{
    assert(drawn(drawn(pixels, x, y, rows), x, y, rows) =~= pixels);
}

/// A sprite collides exactly when drawing it turns some lit pixel off.
pub proof fn lemma_collision_turns_a_pixel_off(pixels: Seq<bool>, x: u8, y: u8, rows: Seq<u8>)
    requires
        pixels.len() == DISPLAY_PIXELS,
    ensures
        collides(pixels, x, y, rows) <==> exists|p: int|
            0 <= p < DISPLAY_PIXELS && pixels[p] && !#[trigger] drawn(pixels, x, y, rows)[p],
{
    if collides(pixels, x, y, rows) {
        let p = choose|p: int| overlaps_at(pixels, x, y, rows, p);
        assert(!drawn(pixels, x, y, rows)[p]);
    }
    if exists|p: int|
        0 <= p < DISPLAY_PIXELS && pixels[p] && !#[trigger] drawn(pixels, x, y, rows)[p] {
        let p = choose|p: int|
            0 <= p < DISPLAY_PIXELS && pixels[p] && !#[trigger] drawn(pixels, x, y, rows)[p];
        assert(overlaps_at(pixels, x, y, rows, p));
    }
}

/// A sprite together with the place where it is to be drawn.
#[derive(Clone, Debug, PartialEq, Eq)]
pub struct DrawRequest {
    pub origin_x: u8,
    pub origin_y: u8,
    pub rows: Vec<u8>,
}

/// A draw request as a mathematical value.
pub struct DrawRequestView {
    pub origin_x: u8,
    pub origin_y: u8,
    pub rows: Seq<u8>,
}

impl View for DrawRequest {
    type V = DrawRequestView;

    open spec fn view(&self) -> DrawRequestView {
        DrawRequestView { origin_x: self.origin_x, origin_y: self.origin_y, rows: self.rows@ }
    }
}

/// The screen: one flag per pixel, row by row from the top, each row from
/// the left.
#[derive(Clone, Copy, Debug, PartialEq, Eq)]
pub struct Display {
    pixels: [bool; DISPLAY_PIXELS],
}

impl View for Display {
    type V = Seq<bool>;

    /// One flag per pixel; `true` means lit.
    open spec fn view(&self) -> Seq<bool> {
        Seq::new(DISPLAY_PIXELS as nat, |p: int| self.pixel_at(p))
    }
}

/// The number of rows of `rows` that are drawn.
fn sprite_height_of(rows: &Vec<u8>) -> (height: usize)
    ensures
        height == sprite_height(rows@),
{
    if rows.len() <= MAX_SPRITE_ROWS {
        rows.len()
    } else {
        MAX_SPRITE_ROWS
    }
}

/// The `k`-th sprite pixel in row-major order lands on exactly one screen
/// position, and no other sprite pixel lands there.
proof fn lemma_sprite_target(x: u8, y: u8, k: int, p: int)
    requires
        0 <= k < 8 * MAX_SPRITE_ROWS,
        0 <= p < DISPLAY_PIXELS,
    ensures
        p == pixel_index(x + k % 8, y + k / 8) <==> ((p % 64 - x) % 64 == k % 8 && (p / 64 - y)
            % 32 == k / 8),
{
}

impl Display {
    /// Whether the pixel at position `p` of the pixel sequence is lit.
    pub closed spec fn pixel_at(&self, p: int) -> bool {
        self.pixels@[p]
    }

    /// The screen with every pixel off.
    pub closed spec fn cleared() -> Display {
        Display { pixels: [false; DISPLAY_PIXELS] }
    }

    /// A screen is what its view says: two with equal views are equal.
    pub proof fn lemma_view_decides(&self, other: &Display)
        requires
            self@ == other@,
        ensures
            *self == *other,
    {
        assert forall|p: int| 0 <= p < DISPLAY_PIXELS implies self.pixels[p] == other.pixels[p] by {
            assert(self@[p] == self.pixel_at(p));
            assert(other@[p] == other.pixel_at(p));
        }
        assert(self.pixels =~= other.pixels);
    }

    /// Builds a blank screen.
    pub fn new() -> (d: Self)
        ensures
            d == Display::cleared(),
            d@ == blank(),
    {
        let d = Display { pixels: [false; DISPLAY_PIXELS] };
        assert(d@ =~= blank());
        d
    }

    /// Turns every pixel off.
    pub fn clear(&mut self)
        ensures
            *final(self) == Display::cleared(),
            final(self)@ == blank(),
    {
        self.pixels = [false; DISPLAY_PIXELS];
        assert(self@ =~= blank());
    }

    /// Whether the pixel at column `x`, row `y` is lit; coordinates wrap
    /// around the screen.
    pub fn pixel(&self, x: u8, y: u8) -> (lit: bool)
        ensures
            lit == self@[pixel_index(x as int, y as int)],
    {
        self.pixels[(y as usize % DISPLAY_HEIGHT) * DISPLAY_WIDTH + (x as usize % DISPLAY_WIDTH)]
    }

    /// Whether drawing the sprite `rows` at `(x, y)` would turn a lit pixel
    /// off. The screen is left as it is.
    pub fn collides(&self, x: u8, y: u8, rows: &Vec<u8>) -> (hit: bool)
        ensures
            hit == collides(self@, x, y, rows@),
    {
        let total: usize = sprite_height_of(rows) * SPRITE_WIDTH;
        let mut k: usize = 0;
        while k < total
            invariant
                total == sprite_height(rows@) * 8,
                k <= total,
                forall|p: int|
                    0 <= p < DISPLAY_PIXELS && self@[p] ==> !sprite_pixel_before(
                        x,
                        y,
                        rows@,
                        p % 64,
                        p / 64,
                        k as int,
                    ),
            decreases total - k,
        {
            let r: usize = k / SPRITE_WIDTH;
            let c: u8 = (k % SPRITE_WIDTH) as u8;
            let px: usize = (x as usize + c as usize) % DISPLAY_WIDTH;
            let py: usize = (y as usize + r) % DISPLAY_HEIGHT;
            let q: usize = py * DISPLAY_WIDTH + px;
            assert(q == pixel_index(x + k % 8, y + k / 8));
            if rows[r] & (0x80u8 >> c) != 0 && self.pixels[q] {
                proof {
                    lemma_sprite_target(x, y, k as int, q as int);
                    assert(overlaps_at(self@, x, y, rows@, q as int));
                }
                return true;
            }
            proof {
                assert forall|p: int| 0 <= p < DISPLAY_PIXELS && self@[p] implies !sprite_pixel_before(
                    x,
                    y,
                    rows@,
                    p % 64,
                    p / 64,
                    k + 1,
                ) by {
                    lemma_sprite_target(x, y, k as int, p);
                }
            }
            k += 1;
        }
        assert forall|p: int| !overlaps_at(self@, x, y, rows@, p) by {
            if 0 <= p < DISPLAY_PIXELS && self@[p] {
                assert(!sprite_pixel_before(x, y, rows@, p % 64, p / 64, k as int));
            }
        }
        false
    }

    /// XORs the requested sprite onto the screen.
    ///
    /// Returns whether a lit pixel was turned off.
    pub fn draw(&mut self, request: &DrawRequest) -> (hit: bool)
        ensures
            final(self)@ == drawn(old(self)@, request.origin_x, request.origin_y, request.rows@),
            hit == collides(old(self)@, request.origin_x, request.origin_y, request.rows@),
    {
        let x = request.origin_x;
        let y = request.origin_y;
        let hit = self.collides(x, y, &request.rows);
        let total: usize = sprite_height_of(&request.rows) * SPRITE_WIDTH;
        let mut k: usize = 0;
        while k < total
            invariant
                x == request.origin_x,
                y == request.origin_y,
                total == sprite_height(request.rows@) * 8,
                k <= total,
                forall|p: int|
                    0 <= p < DISPLAY_PIXELS ==> self@[p] == (old(self)@[p] != sprite_pixel_before(
                        x,
                        y,
                        request.rows@,
                        p % 64,
                        p / 64,
                        k as int,
                    )),
            decreases total - k,
        {
            let r: usize = k / SPRITE_WIDTH;
            let c: u8 = (k % SPRITE_WIDTH) as u8;
            let px: usize = (x as usize + c as usize) % DISPLAY_WIDTH;
            let py: usize = (y as usize + r) % DISPLAY_HEIGHT;
            let q: usize = py * DISPLAY_WIDTH + px;
            assert(q == pixel_index(x + k % 8, y + k / 8));
            if request.rows[r] & (0x80u8 >> c) != 0 {
                self.pixels[q] = !self.pixels[q];
            }
            proof {
                assert forall|p: int| 0 <= p < DISPLAY_PIXELS implies self@[p] == (old(self)@[p]
                    != sprite_pixel_before(x, y, request.rows@, p % 64, p / 64, k + 1)) by {
                    lemma_sprite_target(x, y, k as int, p);
                }
            }
            k += 1;
        }
        assert(self@ =~= drawn(old(self)@, x, y, request.rows@));
        hit
    }
}

} // verus!
