use vstd::prelude::*;
use crate::collider::{shield_collider, Collider};
use crate::entity::{Kind, Size, Sprite, Transform};
use crate::formation::{sat_i32, ARENA_WIDTH};
use crate::shots::{at, spawn_outcome};
use crate::world::{World, WorldView};

verus! {

/// Height of the top row of every shield.
pub const SHIELD_TOP: i32 = 77;
/// Height of the line of blocks along the bottom of the arena.
pub const BOTTOM_LINE_Y: i32 = 20;
/// An image pixel becomes a block when its alpha is above this.
pub const ALPHA_THRESHOLD: u8 = 128;
pub const SHIELD_COUNT: usize = 4;

/// Left edge of shield `s`.
pub open spec fn shield_x(s: int) -> int {
    if s == 0 {
        33
    } else if s == 1 {
        79
    } else if s == 2 {
        124
    } else {
        168
    }
}

/// Pixel `q` of an RGBA image is there and opaque enough to become a block.
pub open spec fn pixel_visible(data: Seq<u8>, q: int) -> bool {
    4 * q + 3 < data.len() && data[4 * q + 3] > ALPHA_THRESHOLD
}

/// Block positions of the first `n` pixels of row `y` of a shield at `sx`.
pub open spec fn row_blocks(sx: int, y: int, w: int, data: Seq<u8>, n: int) -> Seq<(i32, i32)>
    decreases n,
{
    if n <= 0 {
        Seq::empty()
    } else {
        let prev = row_blocks(sx, y, w, data, n - 1);
        if pixel_visible(data, y * w + n - 1) {
            prev.push((sat_i32(sx + n - 1), sat_i32(SHIELD_TOP - y)))
        } else {
            prev
        }
    }
}

/// Block positions of the first `m` rows of a shield at `sx`.
pub open spec fn shield_blocks(sx: int, w: int, data: Seq<u8>, m: int) -> Seq<(i32, i32)>
    decreases m,
{
    if m <= 0 {
        Seq::empty()
    } else {
        shield_blocks(sx, w, data, m - 1) + row_blocks(sx, m - 1, w, data, w)
    }
}

/// Block positions of the first `s` shields.
pub open spec fn shields_upto(w: int, h: int, data: Seq<u8>, s: int) -> Seq<(i32, i32)>
    decreases s,
{
    if s <= 0 {
        Seq::empty()
    } else {
        shields_upto(w, h, data, s - 1) + shield_blocks(shield_x(s - 1), w, data, h)
    }
}

/// The first `n` blocks of the line along the bottom.
pub open spec fn bottom_line(n: int) -> Seq<(i32, i32)>
    decreases n,
{
    if n <= 0 {
        Seq::empty()
    } else {
        bottom_line(n - 1).push(((n - 1) as i32, BOTTOM_LINE_Y))
    }
}

/// Every block position, from a `w` by `h` RGBA image.
pub open spec fn shield_layout(w: int, h: int, data: Seq<u8>) -> Seq<(i32, i32)> {
    shields_upto(w, h, data, SHIELD_COUNT as int) + bottom_line(ARENA_WIDTH as int)
}

pub open spec fn block_sprite() -> Option<Sprite> {
    Some(Sprite { custom_size: Some(Size { w: 1, h: 1 }), image_size: None, frame: 0 })
}

/// The state after a shield block is spawned at each position, in order.
pub open spec fn spawn_blocks(v: WorldView, ps: Seq<(i32, i32)>) -> WorldView
    decreases ps.len(),
{
    if ps.len() == 0 {
        v
    } else {
        spawn_outcome(
            spawn_blocks(v, ps.drop_last()),
            Kind::ShieldBlock,
            at(ps.last().0, ps.last().1),
            block_sprite(),
            shield_collider(),
        )
    }
}

impl World {
    fn spawn_block(&mut self, x: i32, y: i32, Ghost(done): Ghost<Seq<(i32, i32)>>, Ghost(v0): Ghost<WorldView>)
        requires
            old(self)@ == spawn_blocks(v0, done),
        ensures
            final(self)@ == spawn_blocks(v0, done.push((x, y))),
    {
        assert(done.push((x, y)).drop_last() =~= done);
        let sprite = Some(Sprite { custom_size: Some(Size { w: 1, h: 1 }), image_size: None, frame: 0 });
        self.spawn(Kind::ShieldBlock, Transform { x, y, scale_x: 1, scale_y: 1 }, sprite, Collider::shield_layer());
    }

    /// Populates the shields, once, from a `width` by `height` RGBA image:
    /// each shield gets a block for every pixel whose alpha is above the
    /// threshold, and a line of blocks runs along the bottom. Pixels missing
    /// from `data` count as transparent. A second call does nothing.
    pub fn spawn_sprites(&mut self, width: usize, height: usize, data: &Vec<u8>) -> (spawned: bool)
        ensures
            spawned == !old(self).shields_spawned,
            spawned ==> final(self)@ == spawn_blocks(
                WorldView { shields_spawned: true, ..old(self)@ },
                shield_layout(width as int, height as int, data@),
            ),
            !spawned ==> final(self)@ == old(self)@,
    {
        if self.shields_spawned {
            return false;
        }
        self.shields_spawned = true;
        let ghost v0 = self@;
        let ghost w = width as int;
        let ghost h = height as int;
        let offsets: [i32; 4] = [33, 79, 124, 168];
        let mut s: usize = 0;
        while s < SHIELD_COUNT
            invariant
                s <= SHIELD_COUNT,
                offsets@ == seq![33i32, 79, 124, 168],
                self@ == spawn_blocks(v0, shields_upto(w, h, data@, s as int)),
                w == width,
                h == height,
            decreases SHIELD_COUNT - s,
        {
            let sx = offsets[s];
            assert(sx == shield_x(s as int));
            let ghost before = shields_upto(w, h, data@, s as int);
            let mut y: usize = 0;
            while y < height
                invariant
                    s < SHIELD_COUNT,
                    y <= height,
                    sx == shield_x(s as int),
                    offsets@ == seq![33i32, 79, 124, 168],
                    before == shields_upto(w, h, data@, s as int),
                    self@ == spawn_blocks(v0, before + shield_blocks(sx as int, w, data@, y as int)),
                    w == width,
                    h == height,
                decreases height - y,
            {
                let ghost rows = before + shield_blocks(sx as int, w, data@, y as int);
                let mut x: usize = 0;
                while x < width
                    invariant
                        y < height,
                        x <= width,
                        s < SHIELD_COUNT,
                        sx == shield_x(s as int),
                        before == shields_upto(w, h, data@, s as int),
                        rows == before + shield_blocks(sx as int, w, data@, y as int),
                        self@ == spawn_blocks(v0, rows + row_blocks(sx as int, y as int, w, data@, x as int)),
                        w == width,
                        h == height,
                    decreases width - x,
                {
                    let ghost cur = row_blocks(sx as int, y as int, w, data@, x as int);
                    proof {
                        assert((y as int) * (w as int) <= (height as int) * (width as int)) by (nonlinear_arith)
                            requires y < height, w == width, 0 <= y;
                        assert((height as int) * (width as int) <= 0xffff_ffff_ffff_ffff * 0xffff_ffff_ffff_ffff) by (nonlinear_arith)
                            requires height <= 0xffff_ffff_ffff_ffff, width <= 0xffff_ffff_ffff_ffff;
                    }
                    let q: u128 = (y as u128) * (width as u128) + (x as u128);
                    let visible = if q < data.len() as u128 && 4 * q + 3 < data.len() as u128 {
                        data[(4 * q + 3) as usize] > ALPHA_THRESHOLD
                    } else {
                        false
                    };
                    assert(visible == pixel_visible(data@, y * w + (x + 1) - 1));
                    if visible {
                        let bx = sat_add_i32(sx, x);
                        let by = sat_sub_i32(SHIELD_TOP, y);
                        assert((rows + cur).push((bx, by)) =~= rows + cur.push((bx, by)));
                        self.spawn_block(bx, by, Ghost(rows + cur), Ghost(v0));
                    }
                    x += 1;
                }
                assert(rows + row_blocks(sx as int, y as int, w, data@, w) =~= before + shield_blocks(sx as int, w, data@, y as int + 1));
                y += 1;
            }
            assert(before + shield_blocks(sx as int, w, data@, h) =~= shields_upto(w, h, data@, s as int + 1));
            s += 1;
        }
        let ghost shields = shields_upto(w, h, data@, SHIELD_COUNT as int);
        let mut x: i32 = 0;
        while x < ARENA_WIDTH
            invariant
                0 <= x <= ARENA_WIDTH,
                shields == shields_upto(w, h, data@, SHIELD_COUNT as int),
                self@ == spawn_blocks(v0, shields + bottom_line(x as int)),
            decreases ARENA_WIDTH - x,
        {
            assert((shields + bottom_line(x as int)).push((x, BOTTOM_LINE_Y)) =~= shields + bottom_line(x as int + 1));
            self.spawn_block(x, BOTTOM_LINE_Y, Ghost(shields + bottom_line(x as int)), Ghost(v0));
            x += 1;
        }
        true
    }
}

/// `v` clamped to the range of `i32`.
fn clamp_i32(v: i64) -> (r: i32)
    ensures
        r == sat_i32(v as int),
{
    if v > i32::MAX as i64 {
        i32::MAX
    } else if v < i32::MIN as i64 {
        i32::MIN
    } else {
        v as i32
    }
}

/// `a + b` for a block column, clamped to the range of `i32`.
fn sat_add_i32(a: i32, b: usize) -> (r: i32)
    requires
        a >= 0,
    ensures
        r == sat_i32(a + b),
{
    if b as u64 > 0x100_0000_0000u64 {
        i32::MAX
    } else {
        clamp_i32(a as i64 + b as i64)
    }
}

/// `a - b` for a block row, clamped to the range of `i32`.
fn sat_sub_i32(a: i32, b: usize) -> (r: i32)
    requires
        a >= 0,
    ensures
        r == sat_i32(a - b),
{
    if b as u64 > 0x100_0000_0000u64 {
        i32::MIN
    } else {
        clamp_i32(a as i64 - b as i64)
    }
}

} // verus!
