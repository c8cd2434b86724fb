//! The sprite buffer: a fixed-size RGBA raster with bounds-checked
//! pixel access and 4-connected flood fill.

use vstd::prelude::*;

verus! {

/// Largest accepted side length of a sprite. Keeps `width * height * 4`
/// well under the smallest address space the buffer could live in.
pub const MAX_DIM: u32 = 16384;

/// The four bytes of cell `i` of a row-major RGBA byte buffer.
pub open spec fn cell_bytes(pixels: Seq<u8>, i: int) -> Seq<u8> {
    pixels.subrange(4 * i, 4 * i + 4)
}

/// How many of the first `n` cells hold exactly the bytes `target`.
pub open spec fn count_cells_matching(pixels: Seq<u8>, n: int, target: Seq<u8>) -> nat
    decreases n,
{
    if n <= 0 {
        0
    } else {
        count_cells_matching(pixels, n - 1, target) + (if cell_bytes(pixels, n - 1) == target {
            1nat
        } else {
            0nat
        })
    }
}

/// Whether two grid coordinates are 4-connected neighbours.
pub open spec fn adjacent(a: (u32, u32), b: (u32, u32)) -> bool {
    ||| (a.0 == b.0 && a.1 + 1 == b.1)
    ||| (a.0 == b.0 && b.1 + 1 == a.1)
    ||| (a.1 == b.1 && a.0 + 1 == b.0)
    ||| (a.1 == b.1 && b.0 + 1 == a.0)
}

/// Replacing the bytes of cell `k` changes that cell and no other.
proof fn lemma_cells_after_update(p1: Seq<u8>, p2: Seq<u8>, k: int, c: Seq<u8>, n: int)
    requires
        c.len() == 4,
        p1.len() == 4 * n,
        0 <= k < n,
        p2 == p1.subrange(0, 4 * k) + c + p1.subrange(4 * k + 4, p1.len() as int),
    ensures
        p2.len() == p1.len(),
        cell_bytes(p2, k) == c,
        forall|j: int| 0 <= j < n && j != k ==> cell_bytes(p2, j) == cell_bytes(p1, j),
{
    assert(cell_bytes(p2, k) =~= c);
    assert forall|j: int| 0 <= j < n && j != k implies cell_bytes(p2, j) == cell_bytes(p1, j) by {
        assert(cell_bytes(p2, j) =~= cell_bytes(p1, j));
    }
}

/// Counting is unchanged when every counted cell is unchanged.
proof fn lemma_count_congruence(p1: Seq<u8>, p2: Seq<u8>, n: int, target: Seq<u8>)
    requires
        forall|j: int| 0 <= j < n ==> cell_bytes(p2, j) == cell_bytes(p1, j),
    ensures
        count_cells_matching(p2, n, target) == count_cells_matching(p1, n, target),
    decreases n,
{
    if n > 0 {
        lemma_count_congruence(p1, p2, n - 1, target);
    }
}

/// Overwriting one matching cell with non-matching bytes lowers the
/// count of matching cells by exactly one.
proof fn lemma_count_after_change(p1: Seq<u8>, p2: Seq<u8>, k: int, n: int, target: Seq<u8>)
    requires
        0 <= k < n,
        cell_bytes(p1, k) == target,
        cell_bytes(p2, k) != target,
        forall|j: int| 0 <= j < n && j != k ==> cell_bytes(p2, j) == cell_bytes(p1, j),
    ensures
        count_cells_matching(p2, n, target) + 1 == count_cells_matching(p1, n, target),
    decreases n,
{
    if k == n - 1 {
        lemma_count_congruence(p1, p2, n - 1, target);
    } else {
        lemma_count_after_change(p1, p2, k, n - 1, target);
    }
}

/// Distinct in-bounds coordinates have distinct row-major cell indices.
proof fn lemma_cell_index_injective(w: u32, x1: u32, y1: u32, x2: u32, y2: u32)
    requires
        x1 < w,
        x2 < w,
        y1 * w + x1 == y2 * w + x2,
    ensures
        x1 == x2 && y1 == y2,
{
    assert(x1 == x2 && y1 == y2) by (nonlinear_arith)
        requires
            x1 < w,
            x2 < w,
            y1 * w + x1 == y2 * w + x2,
    ;
}

/// Componentwise equality of two RGBA colors, as equality of their views.
pub fn rgba_eq(a: &[u8; 4], b: &[u8; 4]) -> (r: bool)
    ensures
        r == (a@ == b@),
{
    let r = a[0] == b[0] && a[1] == b[1] && a[2] == b[2] && a[3] == b[3];
    proof {
        if r {
            assert(a@ =~= b@);
        }
    }
    r
}



/// A chain of 4-connected in-bounds cells that all hold `target`.
pub open spec fn is_fill_path(s: Sprite, target: Seq<u8>, path: Seq<(u32, u32)>) -> bool {
    forall|i: int|
        0 <= i < path.len() ==> {
            let p = #[trigger] path[i];
            &&& s.in_bounds(p.0, p.1)
            &&& s.spec_pixel(p.0, p.1) == target
            &&& (i > 0 ==> adjacent(path[i - 1], p))
        }
}

/// Whether `p` can be reached from `from` through a chain of
/// 4-connected cells that all hold the color of `from`.
#[verifier::opaque]
pub open spec fn fill_reachable(s: Sprite, from: (u32, u32), p: (u32, u32)) -> bool {
    exists|path: Seq<(u32, u32)>|
        #[trigger] is_fill_path(s, s.spec_pixel(from.0, from.1), path) && path.len() > 0 && path[0]
            == from && path.last() == p
}

/// A cell reaches itself.
proof fn lemma_fill_reach_self(s: Sprite, from: (u32, u32))
    requires
        s.in_bounds(from.0, from.1),
    ensures
        fill_reachable(s, from, from),
{
    reveal(fill_reachable);
    let path = seq![from];
    assert(is_fill_path(s, s.spec_pixel(from.0, from.1), path));
    assert(path[0] == from && path.last() == from);
}

/// Reachability extends across one step to a neighbour of the same
/// color.
proof fn lemma_fill_reach_step(s: Sprite, from: (u32, u32), c: (u32, u32), n: (u32, u32))
    requires
        fill_reachable(s, from, c),
        adjacent(c, n),
        s.in_bounds(n.0, n.1),
        s.spec_pixel(n.0, n.1) == s.spec_pixel(from.0, from.1),
    ensures
        fill_reachable(s, from, n),
{
    reveal(fill_reachable);
    let target = s.spec_pixel(from.0, from.1);
    let path = choose|path: Seq<(u32, u32)>|
        #[trigger] is_fill_path(s, target, path) && path.len() > 0 && path[0] == from
            && path.last() == c;
    let path2 = path.push(n);
    assert forall|i: int| 0 <= i < path2.len() implies {
        let p = #[trigger] path2[i];
        &&& s.in_bounds(p.0, p.1)
        &&& s.spec_pixel(p.0, p.1) == target
        &&& (i > 0 ==> adjacent(path2[i - 1], p))
    } by {
        if i < path.len() {
            assert(path2[i] == path[i]);
            if i > 0 {
                assert(path2[i - 1] == path[i - 1]);
            }
        } else {
            assert(path2[i] == n);
            assert(path2[i - 1] == path.last());
        }
    }
    assert(is_fill_path(s, target, path2) && path2.len() > 0 && path2[0] == from && path2.last()
        == n);
}

/// A pixel that a fill from `(x, y)` cannot reach through cells of the
/// seed's color is left untouched: a one-pixel wall of another color
/// confines the fill to its side.
pub proof fn lemma_fill_confined(
    pre: Sprite,
    post: Sprite,
    x: u32,
    y: u32,
    fill: Seq<u8>,
    p: (u32, u32),
)
    requires
        flood_filled(pre, post, x, y, fill),
        pre.in_bounds(p.0, p.1),
        !fill_reachable(pre, (x, y), p),
    ensures
        post.spec_pixel(p.0, p.1) == pre.spec_pixel(p.0, p.1),
{
}

/// The relation `set_pixel` establishes between the buffer before and
/// after the call: the addressed in-bounds pixel holds `c`, every other
/// pixel is untouched, and an out-of-bounds write changes nothing.
pub open spec fn pixel_written(pre: Sprite, post: Sprite, x: u32, y: u32, c: Seq<u8>) -> bool {
    &&& post.wf()
    &&& post.width == pre.width
    &&& post.height == pre.height
    &&& (pre.in_bounds(x, y) ==> post.spec_pixel(x, y) == c)
    &&& (forall|px: u32, py: u32|
        pre.in_bounds(px, py) && !(px == x && py == y) ==> post.spec_pixel(px, py)
            == pre.spec_pixel(px, py))
    &&& (!pre.in_bounds(x, y) ==> post == pre)
}

/// The relation `flood_fill` establishes between the buffer before and
/// after the call: a fill with the seed's own color changes nothing;
/// otherwise only pixels that held the seed's color change, they change
/// to the fill color, the seed is filled, and no changed pixel borders a
/// pixel that still holds the seed's old color.
pub open spec fn flood_filled(pre: Sprite, post: Sprite, x: u32, y: u32, fill: Seq<u8>) -> bool {
    &&& post.wf()
    &&& post.width == pre.width
    &&& post.height == pre.height
    &&& (pre.spec_pixel(x, y) == fill ==> post.pixels@ == pre.pixels@)
    &&& (forall|px: u32, py: u32|
        pre.in_bounds(px, py) ==> post.spec_pixel(px, py) == pre.spec_pixel(px, py) || (
        pre.spec_pixel(px, py) == pre.spec_pixel(x, y) && post.spec_pixel(px, py) == fill))
    &&& post.spec_pixel(x, y) == fill
    &&& (forall|p: (u32, u32), q: (u32, u32)|
        #[trigger] adjacent(p, q) && pre.in_bounds(p.0, p.1) && pre.in_bounds(q.0, q.1)
            && post.spec_pixel(p.0, p.1) != pre.spec_pixel(p.0, p.1) ==> post.spec_pixel(q.0, q.1)
            != pre.spec_pixel(x, y))
    &&& (forall|p: (u32, u32)|
        pre.in_bounds(p.0, p.1) && post.spec_pixel(p.0, p.1) != pre.spec_pixel(p.0, p.1)
            ==> #[trigger] fill_reachable(pre, (x, y), p))
}

/// An RGBA raster image: `width * height` pixels, four bytes each
/// (red, green, blue, alpha), row-major.
pub struct Sprite {
    pub width: u32,
    pub height: u32,
    pub pixels: Vec<u8>,
}

impl Sprite {
    /// Well-formedness: positive bounded dimensions and a byte buffer of
    /// exactly `width * height * 4` bytes.
    pub open spec fn wf(&self) -> bool {
        &&& 1 <= self.width <= MAX_DIM
        &&& 1 <= self.height <= MAX_DIM
        &&& self.pixels@.len() == self.width * self.height * 4
    }

    /// Byte offset of the first channel of pixel `(x, y)`.
    pub open spec fn spec_index(&self, x: u32, y: u32) -> int {
        (y * self.width + x) * 4
    }

    /// Whether `(x, y)` lies on the sprite.
    pub open spec fn in_bounds(&self, x: u32, y: u32) -> bool {
        x < self.width && y < self.height
    }

    /// The four RGBA bytes of pixel `(x, y)`.
    pub open spec fn spec_pixel(&self, x: u32, y: u32) -> Seq<u8> {
        self.pixels@.subrange(self.spec_index(x, y), self.spec_index(x, y) + 4)
    }

    /// The byte offset of an in-bounds pixel stays within the buffer.
    proof fn lemma_index_in_range(&self, x: u32, y: u32)
        requires
            self.wf(),
            self.in_bounds(x, y),
        ensures
            0 <= self.spec_index(x, y),
            self.spec_index(x, y) + 4 <= self.pixels@.len(),
            self.spec_index(x, y) + 4 <= 0x4000_0000,
    {
        assert((y * self.width + x) * 4 + 4 <= self.width * self.height * 4 <= 0x4000_0000)
            by (nonlinear_arith)
            requires
                x < self.width,
                y < self.height,
                1 <= self.width <= MAX_DIM,
                1 <= self.height <= MAX_DIM,
        ;
    }

    /// A fully transparent sprite of the given size.
    pub fn new(width: u32, height: u32) -> (s: Sprite)
        requires
            1 <= width <= MAX_DIM,
            1 <= height <= MAX_DIM,
        ensures
            s.wf(),
            s.width == width,
            s.height == height,
            forall|i: int| 0 <= i < s.pixels@.len() ==> s.pixels@[i] == 0u8,
    {
        proof {
            assert(width * height * 4 <= 0x4000_0000) by (nonlinear_arith)
                requires
                    width <= MAX_DIM,
                    height <= MAX_DIM,
            ;
        }
        let n: usize = (width as usize) * (height as usize) * 4;
        let pixels: Vec<u8> = vec![0u8; n];
        Sprite { width, height, pixels }
    }

    /// The color of an in-bounds pixel.
    pub fn get_pixel(&self, x: u32, y: u32) -> (c: [u8; 4])
        requires
            self.wf(),
            self.in_bounds(x, y),
        ensures
            c@ == self.spec_pixel(x, y),
    {
        proof {
            self.lemma_index_in_range(x, y);
        }
        let idx: usize = ((y as usize) * (self.width as usize) + (x as usize)) * 4;
        let c = [self.pixels[idx], self.pixels[idx + 1], self.pixels[idx + 2], self.pixels[idx
            + 3]];
        proof {
            assert(c@ =~= self.spec_pixel(x, y));
        }
        c
    }

    /// Overwrite an in-bounds pixel with `color`; out of bounds, leave the
    /// buffer byte for byte unchanged.
    pub fn set_pixel(&mut self, x: u32, y: u32, color: [u8; 4])
        requires
            old(self).wf(),
        ensures
            final(self).wf(),
            final(self).width == old(self).width,
            final(self).height == old(self).height,
            old(self).in_bounds(x, y) ==> final(self).pixels@ == old(self).pixels@.subrange(
                0,
                old(self).spec_index(x, y),
            ) + color@ + old(self).pixels@.subrange(
                old(self).spec_index(x, y) + 4,
                old(self).pixels@.len() as int,
            ),
            old(self).in_bounds(x, y) ==> final(self).spec_pixel(x, y) == color@,
            forall|px: u32, py: u32|
                old(self).in_bounds(px, py) && !(px == x && py == y) ==> final(self).spec_pixel(
                    px,
                    py,
                ) == old(self).spec_pixel(px, py),
            !old(self).in_bounds(x, y) ==> *final(self) == *old(self),
    {
        if x < self.width && y < self.height {
            proof {
                self.lemma_index_in_range(x, y);
            }
            let idx: usize = ((y as usize) * (self.width as usize) + (x as usize)) * 4;
            self.pixels.set(idx, color[0]);
            self.pixels.set(idx + 1, color[1]);
            self.pixels.set(idx + 2, color[2]);
            self.pixels.set(idx + 3, color[3]);
            proof {
                let ow = old(self).width;
                let oh = old(self).height;
                let olen = old(self).pixels@.len();
                let k = y * ow + x;
                let n = ow * oh;
                assert(self.pixels@ =~= old(self).pixels@.subrange(0, old(self).spec_index(x, y))
                    + color@ + old(self).pixels@.subrange(
                    old(self).spec_index(x, y) + 4,
                    old(self).pixels@.len() as int,
                ));
                assert(olen == 4 * n) by (nonlinear_arith)
                    requires
                        olen == ow * oh * 4,
                        n == ow * oh,
                ;
                assert(k < n) by (nonlinear_arith)
                    requires
                        x < ow,
                        y < oh,
                        k == y * ow + x,
                        n == ow * oh,
                ;
                lemma_cells_after_update(old(self).pixels@, self.pixels@, k, color@, n);
                assert(final(self).spec_pixel(x, y) == cell_bytes(self.pixels@, k));
                assert forall|px: u32, py: u32|
                    old(self).in_bounds(px, py) && !(px == x && py == y) implies self.spec_pixel(
                    px,
                    py,
                ) == old(self).spec_pixel(px, py) by {
                    let j = py * ow + px;
                    if j == k {
                        lemma_cell_index_injective(ow, px, py, x, y);
                    }
                    assert(j < n) by (nonlinear_arith)
                        requires
                            px < ow,
                            py < oh,
                            j == py * ow + px,
                            n == ow * oh,
                    ;
                    assert(self.spec_pixel(px, py) == cell_bytes(self.pixels@, j));
                    assert(old(self).spec_pixel(px, py) == cell_bytes(old(self).pixels@, j));
                }
            }
        }
    }

    /// 4-connected flood fill from the seed `(x, y)`.
    ///
    /// If the seed already has `fill_color` the buffer is left untouched.
    /// Otherwise only pixels that held the seed's color change, they change
    /// to `fill_color`, the seed itself is filled, and no changed pixel
    /// borders a pixel that still holds the seed's old color.
    #[verifier::rlimit(100)]
    pub fn flood_fill(&mut self, x: u32, y: u32, fill_color: [u8; 4])
        requires
            old(self).wf(),
            old(self).in_bounds(x, y),
        ensures
            flood_filled(*old(self), *final(self), x, y, fill_color@),
    {
        let target_color = self.get_pixel(x, y);
        if rgba_eq(&target_color, &fill_color) {
            return ;
        }
        let ghost orig = *self;
        let mut stack: Vec<(u32, u32)> = Vec::new();
        stack.push((x, y));
        proof {
            assert(stack@[0] == (x, y));
            lemma_fill_reach_self(orig, (x, y));
            assert forall|q: (u32, u32)| #[trigger] stack@.contains(q) implies q == (x, y) by {
                let i = choose|i: int| 0 <= i < stack@.len() && stack@[i] == q;
            }
        }
        loop
            invariant
                self.wf(),
                self.width == orig.width,
                self.height == orig.height,
                orig.wf(),
                orig.in_bounds(x, y),
                target_color@ == orig.spec_pixel(x, y),
                fill_color@ != target_color@,
                forall|px: u32, py: u32|
                    orig.in_bounds(px, py) ==> self.spec_pixel(px, py) == orig.spec_pixel(px, py)
                        || (orig.spec_pixel(px, py) == target_color@ && self.spec_pixel(px, py)
                        == fill_color@),
                stack@.contains((x, y)) || self.spec_pixel(x, y) == fill_color@,
                forall|p: (u32, u32), q: (u32, u32)|
                    #[trigger] adjacent(p, q) && orig.in_bounds(p.0, p.1) && orig.in_bounds(
                        q.0,
                        q.1,
                    ) && self.spec_pixel(p.0, p.1) != orig.spec_pixel(p.0, p.1) ==> self.spec_pixel(
                        q.0,
                        q.1,
                    ) != target_color@ || stack@.contains(q),
                forall|p: (u32, u32)|
                    orig.in_bounds(p.0, p.1) && self.spec_pixel(p.0, p.1) != orig.spec_pixel(
                        p.0,
                        p.1,
                    ) ==> #[trigger] fill_reachable(orig, (x, y), p),
                forall|q: (u32, u32)|
                    #[trigger] stack@.contains(q) ==> (orig.in_bounds(q.0, q.1)
                        && orig.spec_pixel(q.0, q.1) == target_color@ ==> fill_reachable(
                        orig,
                        (x, y),
                        q,
                    )),
            ensures
                self.wf(),
                self.width == orig.width,
                self.height == orig.height,
                forall|px: u32, py: u32|
                    orig.in_bounds(px, py) ==> self.spec_pixel(px, py) == orig.spec_pixel(px, py)
                        || (orig.spec_pixel(px, py) == target_color@ && self.spec_pixel(px, py)
                        == fill_color@),
                self.spec_pixel(x, y) == fill_color@,
                forall|p: (u32, u32), q: (u32, u32)|
                    #[trigger] adjacent(p, q) && orig.in_bounds(p.0, p.1) && orig.in_bounds(
                        q.0,
                        q.1,
                    ) && self.spec_pixel(p.0, p.1) != orig.spec_pixel(p.0, p.1) ==> self.spec_pixel(
                        q.0,
                        q.1,
                    ) != target_color@,
                forall|p: (u32, u32)|
                    orig.in_bounds(p.0, p.1) && self.spec_pixel(p.0, p.1) != orig.spec_pixel(
                        p.0,
                        p.1,
                    ) ==> #[trigger] fill_reachable(orig, (x, y), p),
            decreases 5 * count_cells_matching(
                self.pixels@,
                self.width * self.height,
                target_color@,
            ) + stack@.len(),
        {
            if stack.len() == 0 {
                break ;
            }
            let ghost stack0 = stack@;
            let popped = stack.pop().unwrap();
            let ghost pre = *self;
            let (cx, cy) = popped;
            proof {
                assert forall|q: (u32, u32)| #[trigger] stack@.contains(q)
                    implies stack0.contains(q) by {
                    let i = choose|i: int| 0 <= i < stack@.len() && stack@[i] == q;
                    assert(stack0[i] == q);
                }
                assert(stack0.contains(popped)) by {
                    assert(stack0[stack0.len() - 1] == popped);
                }
            }
            if cx < self.width && cy < self.height {
                let cur = self.get_pixel(cx, cy);
                if rgba_eq(&cur, &target_color) {
                    self.set_pixel(cx, cy, fill_color);
                    let ghost base = stack@;
                    if cx > 0 {
                        stack.push((cx - 1, cy));
                    }
                    if cy > 0 {
                        stack.push((cx, cy - 1));
                    }
                    stack.push((cx + 1, cy));
                    stack.push((cx, cy + 1));
                    proof {
                        let w = orig.width;
                        let h = orig.height;
                        let k = cy * w + cx;
                        let n = w * h;
                        assert(pre.pixels@.len() == 4 * n) by (nonlinear_arith)
                            requires
                                pre.pixels@.len() == w * h * 4,
                                n == w * h,
                        ;
                        assert(k < n) by (nonlinear_arith)
                            requires
                                cx < w,
                                cy < h,
                                k == cy * w + cx,
                                n == w * h,
                        ;
                        lemma_cells_after_update(pre.pixels@, self.pixels@, k, fill_color@, n);
                        assert(cell_bytes(pre.pixels@, k) == pre.spec_pixel(cx, cy));
                        lemma_count_after_change(pre.pixels@, self.pixels@, k, n, target_color@);

                        // Everything that survived the pop, plus the pushed
                        // neighbours, is on the new stack.
                        let sf = stack@;
                        assert(sf[sf.len() - 1] == (cx, (cy + 1) as u32));
                        assert(sf[sf.len() - 2] == ((cx + 1) as u32, cy));
                        if cx > 0 {
                            assert(sf[base.len() as int] == ((cx - 1) as u32, cy));
                        }
                        if cy > 0 {
                            if cx > 0 {
                                assert(sf[base.len() as int + 1] == (cx, (cy - 1) as u32));
                            } else {
                                assert(sf[base.len() as int] == (cx, (cy - 1) as u32));
                            }
                        }
                        assert forall|u: (u32, u32)| base.contains(u) implies sf.contains(u) by {
                            let i = choose|i: int| 0 <= i < base.len() && base[i] == u;
                            assert(sf[i] == u);
                        }

                        // The painted cell held the target, so it is
                        // reachable, and each cell pushed for it is one
                        // step further.
                        assert(pre.spec_pixel(cx, cy) == target_color@);
                        assert(orig.spec_pixel(cx, cy) == target_color@);
                        assert(fill_reachable(orig, (x, y), popped));
                        assert forall|q: (u32, u32)|
                            #[trigger] sf.contains(q) && orig.in_bounds(q.0, q.1)
                                && orig.spec_pixel(q.0, q.1) == target_color@ implies fill_reachable(
                            orig,
                            (x, y),
                            q,
                        ) by {
                            let i = choose|i: int| 0 <= i < sf.len() && sf[i] == q;
                            if i < base.len() {
                                assert(base[i] == q);
                                assert(stack0.contains(q)) by {
                                    assert(stack0[i] == q);
                                }
                            } else {
                                assert(adjacent(popped, q));
                                lemma_fill_reach_step(orig, (x, y), popped, q);
                            }
                        }
                        assert forall|p: (u32, u32)|
                            orig.in_bounds(p.0, p.1) && self.spec_pixel(p.0, p.1)
                                != orig.spec_pixel(p.0, p.1) implies #[trigger] fill_reachable(
                            orig,
                            (x, y),
                            p,
                        ) by {
                            if !(p.0 == cx && p.1 == cy) {
                                assert(self.spec_pixel(p.0, p.1) == pre.spec_pixel(p.0, p.1));
                            }
                        }

                        // Seed pixel: still on the stack, or already filled.
                        if pre.spec_pixel(x, y) == fill_color@ {
                            if x == cx && y == cy {
                                assert(self.spec_pixel(x, y) == fill_color@);
                            } else {
                                assert(self.spec_pixel(x, y) == pre.spec_pixel(x, y));
                            }
                        } else {
                            assert(stack0.contains((x, y)));
                            lemma_contains_after_pop(stack0, (x, y));
                            if base.contains((x, y)) {
                                assert(sf.contains((x, y)));
                            } else {
                                assert(popped == (x, y));
                                assert(self.spec_pixel(x, y) == fill_color@);
                            }
                        }

                        // Border guarantee.
                        assert forall|p: (u32, u32), q: (u32, u32)|
                            #[trigger] adjacent(p, q) && orig.in_bounds(p.0, p.1)
                                && orig.in_bounds(q.0, q.1) && self.spec_pixel(p.0, p.1)
                                != orig.spec_pixel(p.0, p.1) implies self.spec_pixel(q.0, q.1)
                            != target_color@ || sf.contains(q) by {
                            if self.spec_pixel(q.0, q.1) == target_color@ {
                                assert(!(q.0 == cx && q.1 == cy));
                                if p.0 == cx && p.1 == cy {
                                    // Neighbour of the freshly painted cell:
                                    // it was pushed just now.
                                    if q.1 == cy + 1 && q.0 == cx {
                                        assert(sf[sf.len() - 1] == q);
                                    } else if q.0 == cx + 1 && q.1 == cy {
                                        assert(sf[sf.len() - 2] == q);
                                    } else if q.0 == cx && q.1 + 1 == cy {
                                        assert(cy > 0 && q == (cx, (cy - 1) as u32));
                                        assert(sf.contains(q));
                                    } else {
                                        assert(q.1 == cy && q.0 + 1 == cx);
                                        assert(cx > 0 && q == ((cx - 1) as u32, cy));
                                        assert(sf.contains(q));
                                    }
                                } else {
                                    assert(self.spec_pixel(p.0, p.1) == pre.spec_pixel(p.0, p.1));
                                    assert(self.spec_pixel(q.0, q.1) == pre.spec_pixel(q.0, q.1));
                                    assert(pre.spec_pixel(q.0, q.1) != target_color@
                                        || stack0.contains(q));
                                    lemma_contains_after_pop(stack0, q);
                                    if base.contains(q) {
                                        assert(sf.contains(q));
                                    } else {
                                        assert(popped == q);
                                        assert(false);
                                    }
                                }
                            }
                        }
                    }
                } else {
                    proof {
                        lemma_pop_keeps_guarantee(
                            *self,
                            orig,
                            stack0,
                            stack@,
                            popped,
                            target_color@,
                        );
                        if self.spec_pixel(x, y) != fill_color@ && !stack@.contains((x, y)) {
                            assert(stack0.contains((x, y)));
                            lemma_contains_after_pop(stack0, (x, y));
                            assert(popped == (x, y));
                            assert(self.spec_pixel(x, y) != target_color@);
                            assert(false);
                        }
                    }
                }
            } else {
                proof {
                    lemma_pop_keeps_guarantee(
                        *self,
                        orig,
                        stack0,
                        stack@,
                        popped,
                        target_color@,
                    );
                    if self.spec_pixel(x, y) != fill_color@ && !stack@.contains((x, y)) {
                        assert(stack0.contains((x, y)));
                        lemma_contains_after_pop(stack0, (x, y));
                        assert(popped == (x, y));
                        assert(false);
                    }
                }
            }
        }
        proof {
            assert(flood_filled(*old(self), *self, x, y, fill_color@));
        }
    }
}

/// An element of a non-empty sequence is still present after dropping the
/// last entry, unless it was exactly that last entry.
proof fn lemma_contains_after_pop<T>(s0: Seq<T>, u: T)
    requires
        s0.len() > 0,
        s0.contains(u),
    ensures
        s0.subrange(0, s0.len() - 1).contains(u) || s0.last() == u,
{
    let i = choose|i: int| 0 <= i < s0.len() && s0[i] == u;
    if i < s0.len() - 1 {
        assert(s0.subrange(0, s0.len() - 1)[i] == u);
    }
}

/// Popping an entry that is not repainted keeps the border guarantee of
/// the fill loop: the popped cell either no longer matches the target or
/// lies out of bounds, so no changed cell needs it on the stack.
proof fn lemma_pop_keeps_guarantee(
    s: Sprite,
    orig: Sprite,
    stack_before: Seq<(u32, u32)>,
    stack_after: Seq<(u32, u32)>,
    popped: (u32, u32),
    target: Seq<u8>,
)
    requires
        s.width == orig.width,
        s.height == orig.height,
        stack_before.len() > 0,
        stack_before.last() == popped,
        stack_after == stack_before.subrange(0, stack_before.len() - 1),
        s.in_bounds(popped.0, popped.1) ==> s.spec_pixel(popped.0, popped.1) != target,
        forall|p: (u32, u32), q: (u32, u32)|
            #[trigger] adjacent(p, q) && orig.in_bounds(p.0, p.1) && orig.in_bounds(q.0, q.1)
                && s.spec_pixel(p.0, p.1) != orig.spec_pixel(p.0, p.1) ==> s.spec_pixel(q.0, q.1)
                != target || stack_before.contains(q),
    ensures
        forall|p: (u32, u32), q: (u32, u32)|
            #[trigger] adjacent(p, q) && orig.in_bounds(p.0, p.1) && orig.in_bounds(q.0, q.1)
                && s.spec_pixel(p.0, p.1) != orig.spec_pixel(p.0, p.1) ==> s.spec_pixel(q.0, q.1)
                != target || stack_after.contains(q),
{
    assert forall|p: (u32, u32), q: (u32, u32)|
        #[trigger] adjacent(p, q) && orig.in_bounds(p.0, p.1) && orig.in_bounds(q.0, q.1)
            && s.spec_pixel(p.0, p.1) != orig.spec_pixel(p.0, p.1) implies s.spec_pixel(q.0, q.1)
        != target || stack_after.contains(q) by {
        if s.spec_pixel(q.0, q.1) == target {
            assert(stack_before.contains(q));
            lemma_contains_after_pop(stack_before, q);
            if !stack_after.contains(q) {
                assert(popped == q);
                assert(s.in_bounds(q.0, q.1));
                assert(false);
            }
        }
    }
}

} // verus!
