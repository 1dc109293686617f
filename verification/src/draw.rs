//! Sprite drawing: which pixels a sprite covers, and the drawing itself.
use vstd::prelude::*;
use crate::chip8::Chip8;
use crate::constants::{DISPLAY_HEIGHT, DISPLAY_SIZE, DISPLAY_WIDTH, RAM_SIZE};
use crate::model::MachineState;

verus! {

/// Bit `column` of a sprite row, counted from 0 at the most significant end.
pub open spec fn sprite_bit(row: u8, column: int) -> bool {
    row & (0x80u8 >> (column as u8)) != 0
}

/// The column of the sprite that falls on `pixel` when the sprite's left edge is
/// at `left`: the distance to the right of the edge, around the display.
pub open spec fn sprite_column(pixel: int, left: int) -> int {
    ((pixel % DISPLAY_WIDTH as int) - left) % DISPLAY_WIDTH as int
}

/// The row of the sprite that falls on `pixel` when the sprite's top edge is at
/// `top`: the distance below the edge, around the display.
pub open spec fn sprite_row(pixel: int, top: int) -> int {
    ((pixel / DISPLAY_WIDTH as int) - top) % DISPLAY_HEIGHT as int
}

/// The index of the pixel on which `column`, `row` of a sprite falls. Columns
/// and rows beyond the right and bottom edge come back in at the left and the
/// top, each pixel by itself.
pub open spec fn pixel_under(left: int, top: int, row: int, column: int) -> int {
    (left + column) % DISPLAY_WIDTH as int + DISPLAY_WIDTH * ((top + row) % DISPLAY_HEIGHT as int)
}

/// The pixel at index `pixel` lies under a set bit of the sprite of `height`
/// rows that is held in `ram` at `start` and drawn with its corner at `left`,
/// `top`.
pub open spec fn covers(
    ram: Seq<u8>,
    start: int,
    height: int,
    left: int,
    top: int,
    pixel: int,
) -> bool {
    &&& 0 <= pixel < DISPLAY_SIZE
    &&& sprite_column(pixel, left) < 8
    &&& sprite_row(pixel, top) < height
    &&& sprite_bit(ram[start + sprite_row(pixel, top)], sprite_column(pixel, left))
}

/// The display after the sprite has been drawn: every covered pixel toggled,
/// every other pixel as before.
pub open spec fn drawn(
    ram: Seq<u8>,
    start: int,
    height: int,
    left: int,
    top: int,
    display: Seq<bool>,
) -> Seq<bool> {
    Seq::new(
        DISPLAY_SIZE as nat,
        |pixel: int| display[pixel] != covers(ram, start, height, left, top, pixel),
    )
}

/// Some pixel that the sprite covers was lit before the drawing.
pub open spec fn collides(
    ram: Seq<u8>,
    start: int,
    height: int,
    left: int,
    top: int,
    display: Seq<bool>,
) -> bool {
    exists|pixel: int| #[trigger] covers(ram, start, height, left, top, pixel) && display[pixel]
}

/// The pixel is covered, and by a bit that comes before `column` of `row` when
/// the sprite is read row by row.
spec fn covers_before(
    ram: Seq<u8>,
    start: int,
    height: int,
    left: int,
    top: int,
    row: int,
    column: int,
    pixel: int,
) -> bool {
    &&& covers(ram, start, height, left, top, pixel)
    &&& (sprite_row(pixel, top) < row || (sprite_row(pixel, top) == row && sprite_column(
        pixel,
        left,
    ) < column))
}

/// Some pixel covered by a bit before `column` of `row` was lit.
spec fn collides_before(
    ram: Seq<u8>,
    start: int,
    height: int,
    left: int,
    top: int,
    row: int,
    column: int,
    display: Seq<bool>,
) -> bool {
    exists|pixel: int| #[trigger]
        covers_before(ram, start, height, left, top, row, column, pixel) && display[pixel]
}

/// Each place of a sprite falls on exactly one pixel, and `pixel_under` names it.
pub proof fn lemma_pixel_under(left: int, top: int, row: int, column: int)
    requires
        0 <= left < DISPLAY_WIDTH,
        0 <= top < DISPLAY_HEIGHT,
        0 <= row < DISPLAY_HEIGHT,
        0 <= column < DISPLAY_WIDTH,
    ensures
        0 <= pixel_under(left, top, row, column) < DISPLAY_SIZE,
        sprite_row(pixel_under(left, top, row, column), top) == row,
        sprite_column(pixel_under(left, top, row, column), left) == column,
        forall|pixel: int|
            0 <= pixel < DISPLAY_SIZE && sprite_row(pixel, top) == row && #[trigger] sprite_column(
                pixel,
                left,
            ) == column ==> pixel == pixel_under(left, top, row, column),
{
}

impl Chip8 {
    /// Toggles every pixel that a set bit of the sprite at the index register
    /// covers, and tells whether one of them was lit.
    pub(crate) fn draw_sprite(&mut self, left: u8, top: u8, height: u8) -> (hit: bool)
        requires
            left < 64,
            top < 32,
            height < 16,
            height > 0 ==> old(self).ireg + height <= RAM_SIZE,
        ensures
            final(self)@ == (MachineState {
                display: drawn(
                    old(self).ram@,
                    old(self).ireg as int,
                    height as int,
                    left as int,
                    top as int,
                    old(self).display@,
                ),
                ..old(self)@
            }),
            hit == collides(
                old(self).ram@,
                old(self).ireg as int,
                height as int,
                left as int,
                top as int,
                old(self).display@,
            ),
    {
        let ghost ram = self.ram@;
        let ghost start = self.ireg as int;
        let ghost before = self.display@;
        let ghost h = height as int;
        let ghost l = left as int;
        let ghost t = top as int;
        let mut flipped: bool = false;
        let mut row: u8 = 0;
        while row < height
            invariant
                row <= height < 16,
                left < 64,
                top < 32,
                height > 0 ==> start + height <= RAM_SIZE,
                ram == old(self).ram@,
                start == old(self).ireg,
                before == old(self).display@,
                h == height,
                l == left,
                t == top,
                self@ == (MachineState { display: self.display@, ..old(self)@ }),
                forall|p: int|
                    0 <= p < DISPLAY_SIZE ==> self.display@[p] == (before[p] != covers_before(
                        ram,
                        start,
                        h,
                        l,
                        t,
                        row as int,
                        0,
                        p,
                    )),
                flipped == collides_before(ram, start, h, l, t, row as int, 0, before),
            decreases height - row,
        {
            let pixels: u8 = self.ram[self.ireg as usize + row as usize];
            let mut column: u8 = 0;
            while column < 8
                invariant
                    row < height < 16,
                    column <= 8,
                    left < 64,
                    top < 32,
                    height > 0 ==> start + height <= RAM_SIZE,
                    ram == old(self).ram@,
                    start == old(self).ireg,
                    before == old(self).display@,
                    h == height,
                    l == left,
                    t == top,
                    pixels == ram[start + row],
                    self@ == (MachineState { display: self.display@, ..old(self)@ }),
                    forall|p: int|
                        0 <= p < DISPLAY_SIZE ==> self.display@[p] == (before[p] != covers_before(
                            ram,
                            start,
                            h,
                            l,
                            t,
                            row as int,
                            column as int,
                            p,
                        )),
                    flipped == collides_before(
                        ram,
                        start,
                        h,
                        l,
                        t,
                        row as int,
                        column as int,
                        before,
                    ),
                decreases 8 - column,
            {
                let ghost shown = self.display@;
                let ghost was = flipped;
                let ghost r = row as int;
                let ghost c = column as int;
                let ghost target = pixel_under(l, t, r, c);
                proof {
                    lemma_pixel_under(l, t, r, c);
                }
                if pixels & (0x80u8 >> column) != 0 {
                    let x: usize = (left + column) as usize % DISPLAY_WIDTH;
                    let y: usize = (top + row) as usize % DISPLAY_HEIGHT;
                    let idx: usize = x + DISPLAY_WIDTH * y;
                    assert(idx == target);
                    flipped = flipped || self.display[idx];
                    self.display[idx] = !self.display[idx];
                }
                proof {
                    let set = sprite_bit(pixels, c);
                    assert(set == (pixels & (0x80u8 >> column) != 0));
                    assert forall|p: int| 0 <= p < DISPLAY_SIZE implies covers_before(
                        ram,
                        start,
                        h,
                        l,
                        t,
                        r,
                        c + 1,
                        p,
                    ) == (covers_before(ram, start, h, l, t, r, c, p) || (p == target && set)) by {
                        if sprite_row(p, t) == r && sprite_column(p, l) == c {
                            assert(p == target);
                        }
                    }
                    assert(!covers_before(ram, start, h, l, t, r, c, target));
                    assert forall|p: int| 0 <= p < DISPLAY_SIZE implies self.display@[p] == (
                    before[p] != covers_before(ram, start, h, l, t, r, c + 1, p)) by {
                        assert(shown[p] == (before[p] != covers_before(
                            ram,
                            start,
                            h,
                            l,
                            t,
                            r,
                            c,
                            p,
                        )));
                    }
                    if collides_before(ram, start, h, l, t, r, c + 1, before) {
                        let p = choose|p: int| #[trigger]
                            covers_before(ram, start, h, l, t, r, c + 1, p) && before[p];
                        if p != target || !set {
                            assert(covers_before(ram, start, h, l, t, r, c, p));
                        }
                        assert(flipped);
                    }
                    if flipped {
                        if was {
                            let p = choose|p: int| #[trigger]
                                covers_before(ram, start, h, l, t, r, c, p) && before[p];
                            assert(covers_before(ram, start, h, l, t, r, c + 1, p));
                        } else {
                            assert(covers_before(ram, start, h, l, t, r, c + 1, target));
                            assert(before[target]);
                        }
                        assert(collides_before(ram, start, h, l, t, r, c + 1, before));
                    }
                }
                column += 1;
            }
            proof {
                let r = row as int;
                assert forall|p: int| 0 <= p < DISPLAY_SIZE implies covers_before(
                    ram,
                    start,
                    h,
                    l,
                    t,
                    r,
                    8,
                    p,
                ) == covers_before(ram, start, h, l, t, r + 1, 0, p) by {}
                assert(collides_before(ram, start, h, l, t, r, 8, before) == collides_before(
                    ram,
                    start,
                    h,
                    l,
                    t,
                    r + 1,
                    0,
                    before,
                )) by {
                    if collides_before(ram, start, h, l, t, r, 8, before) {
                        let p = choose|p: int| #[trigger]
                            covers_before(ram, start, h, l, t, r, 8, p) && before[p];
                        assert(covers_before(ram, start, h, l, t, r + 1, 0, p));
                    }
                    if collides_before(ram, start, h, l, t, r + 1, 0, before) {
                        let p = choose|p: int| #[trigger]
                            covers_before(ram, start, h, l, t, r + 1, 0, p) && before[p];
                        assert(covers_before(ram, start, h, l, t, r, 8, p));
                    }
                }
            }
            row += 1;
        }
        proof {
            assert forall|p: int| 0 <= p < DISPLAY_SIZE implies covers_before(
                ram,
                start,
                h,
                l,
                t,
                h,
                0,
                p,
            ) == covers(ram, start, h, l, t, p) by {}
            assert(self.display@ =~= drawn(ram, start, h, l, t, before));
            if collides(ram, start, h, l, t, before) {
                let p = choose|p: int| #[trigger] covers(ram, start, h, l, t, p) && before[p];
                assert(covers_before(ram, start, h, l, t, h, 0, p));
            }
            if collides_before(ram, start, h, l, t, h, 0, before) {
                let p = choose|p: int| #[trigger]
                    covers_before(ram, start, h, l, t, h, 0, p) && before[p];
                assert(covers(ram, start, h, l, t, p));
            }
        }
        flipped
    }
}

} // verus!
