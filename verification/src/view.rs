//! The projection engine: pure coordinate math between the pixel grid
//! and screen space, in flat or isometric mode, under pan and zoom.
//!
//! Screen distances are held in fixed point, `SUB_SCALE` subunits per
//! screen unit, so the view math stays exact integer arithmetic. The
//! zoom factor is the screen size of one sprite pixel, in subunits.

use vstd::prelude::*;
use crate::sprite::MAX_DIM;

verus! {

/// Subunits per screen unit of the fixed-point screen coordinates.
pub const SUB_SCALE: i64 = 1000;

/// Smallest zoom factor: two screen units per sprite pixel.
pub const ZOOM_MIN: i64 = 2000;

/// Largest zoom factor: 128 screen units per sprite pixel.
pub const ZOOM_MAX: i64 = 128_000;

/// Zoom factor of a fresh view: 20 screen units per sprite pixel.
pub const ZOOM_DEFAULT: i64 = 20_000;

/// Bound on viewport-center and cursor coordinates handed in from the
/// window system, in subunits.
pub const COORD_LIMIT: i64 = 0x100_0000_0000;

/// Bound within which the pan offset is kept, in subunits.
pub const OFFSET_LIMIT: i64 = 0x400_0000_0000;

/// `v` clamped into `[lo, hi]`.
pub open spec fn spec_clamp(v: int, lo: int, hi: int) -> int {
    if v < lo {
        lo
    } else if v > hi {
        hi
    } else {
        v
    }
}

/// Quotient of `a / b` rounded toward zero, for positive `b`.
pub open spec fn div_toward_zero(a: int, b: int) -> int {
    if a >= 0 {
        a / b
    } else {
        -((-a) / b)
    }
}

/// Bounds of a product from bounds on its factors.
proof fn lemma_mul_le_abs(a: int, b: int, am: int, bm: int)
    requires
        -am <= a <= am,
        -bm <= b <= bm,
        0 <= am,
        0 <= bm,
    ensures
        -(am * bm) <= a * b <= am * bm,
{
    assert(-(am * bm) <= a * b <= am * bm) by (nonlinear_arith)
        requires
            -am <= a <= am,
            -bm <= b <= bm,
            0 <= am,
            0 <= bm,
    ;
}

/// The view state: zoom, pan offset, projection mode and grid options.
pub struct CanvasState {
    pub zoom: i64,
    pub offset_x: i64,
    pub offset_y: i64,
    pub show_grid: bool,
    pub isometric: bool,
    pub pixels_per_grid: u32,
}

impl CanvasState {
    /// Well-formedness: the zoom factor sits in its clamp range and the
    /// pan offset within its working bound.
    pub open spec fn wf(&self) -> bool {
        &&& ZOOM_MIN <= self.zoom <= ZOOM_MAX
        &&& -OFFSET_LIMIT <= self.offset_x <= OFFSET_LIMIT
        &&& -OFFSET_LIMIT <= self.offset_y <= OFFSET_LIMIT
        &&& 1 <= self.pixels_per_grid
    }
}

impl Default for CanvasState {
    /// A fresh view: default zoom, centred, grid on, flat projection.
    fn default() -> (s: CanvasState)
        ensures
            s.wf(),
            s.zoom == ZOOM_DEFAULT,
            s.offset_x == 0,
            s.offset_y == 0,
            s.show_grid == true,
            s.isometric == false,
            s.pixels_per_grid == 1,
    {
        CanvasState {
            zoom: ZOOM_DEFAULT,
            offset_x: 0,
            offset_y: 0,
            show_grid: true,
            isometric: false,
            pixels_per_grid: 1,
        }
    }
}

/// Top-left corner of the sprite on screen along one axis: the sprite is
/// centred on the viewport centre, then shifted by the pan offset.
pub open spec fn spec_origin(view_c: int, offset: int, dim: int, zoom: int) -> int {
    view_c - (dim * zoom) / 2 + offset
}

/// Screen position of the top-left corner of pixel cell `p` along one
/// axis, in flat mode.
pub open spec fn spec_cell_min(origin: int, p: int, zoom: int) -> int {
    origin + p * zoom
}

/// Flat-mode inverse mapping of a screen point to a pixel, along the
/// rules of the renderer: valid only when both relative coordinates are
/// non-negative and the floored cell lies inside the sprite.
pub open spec fn spec_screen_to_pixel_flat(
    mouse_x: int,
    mouse_y: int,
    view_cx: int,
    view_cy: int,
    st: CanvasState,
    w: u32,
    h: u32,
) -> Option<(u32, u32)> {
    let rel_x = mouse_x - spec_origin(view_cx, st.offset_x as int, w as int, st.zoom as int);
    let rel_y = mouse_y - spec_origin(view_cy, st.offset_y as int, h as int, st.zoom as int);
    if rel_x >= 0 && rel_y >= 0 {
        let px = rel_x / (st.zoom as int);
        let py = rel_y / (st.zoom as int);
        if px < w && py < h {
            Some((px as u32, py as u32))
        } else {
            None
        }
    } else {
        None
    }
}

/// Screen centre of the isometric lattice: the viewport centre shifted
/// by the pan offset and pre-shifted up by half the sprite's screen
/// height, so the diamond lattice is vertically centred.
pub open spec fn spec_iso_center(
    view_cx: int,
    view_cy: int,
    st: CanvasState,
    h: u32,
) -> (int, int) {
    (
        view_cx + st.offset_x,
        view_cy + st.offset_y - (h as int * ((st.zoom as int) / 2)) / 2,
    )
}

/// Screen centre of the isometric diamond tile of pixel `(x, y)`.
pub open spec fn spec_iso_tile_center(
    view_cx: int,
    view_cy: int,
    st: CanvasState,
    h: u32,
    x: int,
    y: int,
) -> (int, int) {
    let c = spec_iso_center(view_cx, view_cy, st, h);
    let half_w = (st.zoom as int) / 2;
    let half_h = ((st.zoom as int) / 2) / 2;
    (c.0 + (x - y) * half_w, c.1 + (x + y) * half_h)
}

/// Isometric inverse mapping of a screen point to a pixel: the two
/// linear lattice equations of `spec_iso_tile_center` inverted over the
/// same half-steps `zoom/2` and `(zoom/2)/2`, floored, and
/// bounds-checked, so the inverse agrees with the rendered lattice at
/// every zoom factor.
pub open spec fn spec_screen_to_pixel_iso(
    mouse_x: int,
    mouse_y: int,
    view_cx: int,
    view_cy: int,
    st: CanvasState,
    w: u32,
    h: u32,
) -> Option<(u32, u32)> {
    let c = spec_iso_center(view_cx, view_cy, st, h);
    let half_w = (st.zoom as int) / 2;
    let half_h = ((st.zoom as int) / 2) / 2;
    let rel_x = mouse_x - c.0;
    let rel_y = mouse_y - c.1;
    let col_num = rel_x * half_h + rel_y * half_w;
    let row_num = rel_y * half_w - rel_x * half_h;
    let den = 2 * (half_w * half_h);
    if col_num >= 0 && row_num >= 0 {
        let px = col_num / den;
        let py = row_num / den;
        if px < w && py < h {
            Some((px as u32, py as u32))
        } else {
            None
        }
    } else {
        None
    }
}

/// The screen origin (top-left corner) of the sprite in flat mode.
pub fn sprite_origin(
    view_cx: i64,
    view_cy: i64,
    st: &CanvasState,
    w: u32,
    h: u32,
) -> (r: (i64, i64))
    requires
        st.wf(),
        1 <= w <= MAX_DIM,
        1 <= h <= MAX_DIM,
        -COORD_LIMIT <= view_cx <= COORD_LIMIT,
        -COORD_LIMIT <= view_cy <= COORD_LIMIT,
    ensures
        r.0 == spec_origin(view_cx as int, st.offset_x as int, w as int, st.zoom as int),
        r.1 == spec_origin(view_cy as int, st.offset_y as int, h as int, st.zoom as int),
{
    proof {
        lemma_mul_le_abs(w as int, st.zoom as int, 16384, 128000);
        lemma_mul_le_abs(h as int, st.zoom as int, 16384, 128000);
    }
    let span_x: i64 = (w as i64) * st.zoom;
    let span_y: i64 = (h as i64) * st.zoom;
    let ox = view_cx - ((span_x as u64) / 2) as i64 + st.offset_x;
    let oy = view_cy - ((span_y as u64) / 2) as i64 + st.offset_y;
    (ox, oy)
}

/// Screen rectangle (top-left corner; the side is the zoom factor) of
/// pixel `(x, y)` in flat mode.
pub fn flat_cell_min(origin_x: i64, origin_y: i64, x: u32, y: u32, zoom: i64) -> (r: (i64, i64))
    requires
        ZOOM_MIN <= zoom <= ZOOM_MAX,
        x <= MAX_DIM,
        y <= MAX_DIM,
        -0x7000_0000_0000 <= origin_x <= 0x7000_0000_0000,
        -0x7000_0000_0000 <= origin_y <= 0x7000_0000_0000,
    ensures
        r.0 == spec_cell_min(origin_x as int, x as int, zoom as int),
        r.1 == spec_cell_min(origin_y as int, y as int, zoom as int),
{
    proof {
        lemma_mul_le_abs(x as int, zoom as int, 16384, 128000);
        lemma_mul_le_abs(y as int, zoom as int, 16384, 128000);
    }
    (origin_x + (x as i64) * zoom, origin_y + (y as i64) * zoom)
}

/// Screen centre of pixel `(x, y)` in flat mode: the cell corner plus
/// half a cell.
pub fn pixel_to_screen_center(
    view_cx: i64,
    view_cy: i64,
    st: &CanvasState,
    w: u32,
    h: u32,
    x: u32,
    y: u32,
) -> (r: (i64, i64))
    requires
        st.wf(),
        1 <= w <= MAX_DIM,
        1 <= h <= MAX_DIM,
        x < w,
        y < h,
        -COORD_LIMIT <= view_cx <= COORD_LIMIT,
        -COORD_LIMIT <= view_cy <= COORD_LIMIT,
    ensures
        r.0 == spec_cell_min(
            spec_origin(view_cx as int, st.offset_x as int, w as int, st.zoom as int),
            x as int,
            st.zoom as int,
        ) + (st.zoom as int) / 2,
        r.1 == spec_cell_min(
            spec_origin(view_cy as int, st.offset_y as int, h as int, st.zoom as int),
            y as int,
            st.zoom as int,
        ) + (st.zoom as int) / 2,
{
    let (ox, oy) = sprite_origin(view_cx, view_cy, st, w, h);
    let half: i64 = ((st.zoom as u64) / 2) as i64;
    proof {
        lemma_mul_le_abs(x as int, st.zoom as int, 16384, 128000);
        lemma_mul_le_abs(y as int, st.zoom as int, 16384, 128000);
        lemma_mul_le_abs(w as int, st.zoom as int, 16384, 128000);
        lemma_mul_le_abs(h as int, st.zoom as int, 16384, 128000);
    }
    (ox + (x as i64) * st.zoom + half, oy + (y as i64) * st.zoom + half)
}

/// Flat-mode hit test: the pixel under a screen point, if any.
pub fn screen_to_pixel_flat(
    mouse_x: i64,
    mouse_y: i64,
    view_cx: i64,
    view_cy: i64,
    st: &CanvasState,
    w: u32,
    h: u32,
) -> (r: Option<(u32, u32)>)
    requires
        st.wf(),
        1 <= w <= MAX_DIM,
        1 <= h <= MAX_DIM,
        -COORD_LIMIT <= view_cx <= COORD_LIMIT,
        -COORD_LIMIT <= view_cy <= COORD_LIMIT,
        -COORD_LIMIT <= mouse_x <= COORD_LIMIT,
        -COORD_LIMIT <= mouse_y <= COORD_LIMIT,
    ensures
        r == spec_screen_to_pixel_flat(
            mouse_x as int,
            mouse_y as int,
            view_cx as int,
            view_cy as int,
            *st,
            w,
            h,
        ),
{
    let (ox, oy) = sprite_origin(view_cx, view_cy, st, w, h);
    proof {
        lemma_mul_le_abs(w as int, st.zoom as int, 16384, 128000);
        lemma_mul_le_abs(h as int, st.zoom as int, 16384, 128000);
    }
    let rel_x = mouse_x - ox;
    let rel_y = mouse_y - oy;
    if rel_x >= 0 && rel_y >= 0 {
        let px = (rel_x as u64) / (st.zoom as u64);
        let py = (rel_y as u64) / (st.zoom as u64);
        if px < w as u64 && py < h as u64 {
            Some((px as u32, py as u32))
        } else {
            None
        }
    } else {
        None
    }
}

/// Isometric tile centre of pixel `(x, y)`.
pub fn iso_tile_center(
    view_cx: i64,
    view_cy: i64,
    st: &CanvasState,
    h: u32,
    x: u32,
    y: u32,
) -> (r: (i64, i64))
    requires
        st.wf(),
        1 <= h <= MAX_DIM,
        x <= MAX_DIM,
        y <= MAX_DIM,
        -COORD_LIMIT <= view_cx <= COORD_LIMIT,
        -COORD_LIMIT <= view_cy <= COORD_LIMIT,
    ensures
        r.0 == spec_iso_tile_center(view_cx as int, view_cy as int, *st, h, x as int, y as int).0,
        r.1 == spec_iso_tile_center(view_cx as int, view_cy as int, *st, h, x as int, y as int).1,
{
    let half_w: i64 = ((st.zoom as u64) / 2) as i64;
    let half_h: i64 = ((half_w as u64) / 2) as i64;
    let center_x = view_cx + st.offset_x;
    proof {
        lemma_mul_le_abs(h as int, half_w as int, 16384, 64000);
        lemma_mul_le_abs(x as int - y as int, half_w as int, 16384, 64000);
        lemma_mul_le_abs(x as int + y as int, half_h as int, 32768, 32000);
    }
    let center_y = view_cy + st.offset_y - (((h as u64) * (half_w as u64) / 2) as i64);
    let cx = center_x + ((x as i64) - (y as i64)) * half_w;
    let cy = center_y + ((x as i64) + (y as i64)) * half_h;
    (cx, cy)
}

/// The four corners of the isometric diamond tile whose top vertex is
/// `(iso_x, iso_y)`: top, right, bottom, left. The tile spans two
/// lattice half-steps vertically, so adjacent rows meet exactly.
pub fn iso_diamond(iso_x: i64, iso_y: i64, zoom: i64) -> (r: [(i64, i64); 4])
    requires
        ZOOM_MIN <= zoom <= ZOOM_MAX,
        -0x7000_0000_0000 <= iso_x <= 0x7000_0000_0000,
        -0x7000_0000_0000 <= iso_y <= 0x7000_0000_0000,
    ensures
        r@[0] == (iso_x, iso_y),
        r@[1] == ((iso_x + (zoom as int) / 2) as i64, (iso_y + ((zoom as int) / 2) / 2) as i64),
        r@[2] == (iso_x, (iso_y + 2 * (((zoom as int) / 2) / 2)) as i64),
        r@[3] == ((iso_x - (zoom as int) / 2) as i64, (iso_y + ((zoom as int) / 2) / 2) as i64),
{
    let half_w: i64 = ((zoom as u64) / 2) as i64;
    let half_h: i64 = ((half_w as u64) / 2) as i64;
    let r = [
        (iso_x, iso_y),
        (iso_x + half_w, iso_y + half_h),
        (iso_x, iso_y + 2 * half_h),
        (iso_x - half_w, iso_y + half_h),
    ];
    r
}

/// Isometric hit test: the pixel whose diamond lattice cell contains the
/// screen point, if any.
pub fn screen_to_pixel_iso(
    mouse_x: i64,
    mouse_y: i64,
    view_cx: i64,
    view_cy: i64,
    st: &CanvasState,
    w: u32,
    h: u32,
) -> (r: Option<(u32, u32)>)
    requires
        st.wf(),
        1 <= w <= MAX_DIM,
        1 <= h <= MAX_DIM,
        -COORD_LIMIT <= view_cx <= COORD_LIMIT,
        -COORD_LIMIT <= view_cy <= COORD_LIMIT,
        -COORD_LIMIT <= mouse_x <= COORD_LIMIT,
        -COORD_LIMIT <= mouse_y <= COORD_LIMIT,
    ensures
        r == spec_screen_to_pixel_iso(
            mouse_x as int,
            mouse_y as int,
            view_cx as int,
            view_cy as int,
            *st,
            w,
            h,
        ),
{
    let half_w: i64 = ((st.zoom as u64) / 2) as i64;
    let half_h: i64 = ((half_w as u64) / 2) as i64;
    let center_x = view_cx + st.offset_x;
    proof {
        lemma_mul_le_abs(h as int, half_w as int, 16384, 64000);
    }
    let center_y = view_cy + st.offset_y - (((h as u64) * (half_w as u64) / 2) as i64);
    let rel_x = mouse_x - center_x;
    let rel_y = mouse_y - center_y;
    proof {
        lemma_mul_le_abs(rel_x as int, half_h as int, 0x700_0000_0000, 32000);
        lemma_mul_le_abs(rel_y as int, half_w as int, 0x700_0000_0000, 64000);
        lemma_mul_le_abs(half_w as int, half_h as int, 64000, 32000);
        assert(half_w * half_h >= 1000 * 500) by (nonlinear_arith)
            requires
                half_w >= 1000,
                half_h >= 500,
        ;
    }
    let col_num = rel_x * half_h + rel_y * half_w;
    let row_num = rel_y * half_w - rel_x * half_h;
    let den = 2 * (half_w * half_h);
    if col_num >= 0 && row_num >= 0 {
        let px = (col_num as u64) / (den as u64);
        let py = (row_num as u64) / (den as u64);
        if px < w as u64 && py < h as u64 {
            Some((px as u32, py as u32))
        } else {
            None
        }
    } else {
        None
    }
}

/// Checkerboard parity of the sub-cell `(cx, cy)` of the flat-mode
/// transparency backdrop: the light tone on even parity.
pub fn checker_parity(cx: u32, cy: u32) -> (r: bool)
    ensures
        r == ((cx + cy) % 2 == 0),
{
    (cx % 2) == (cy % 2)
}

/// Whether gridline `i` is a major line: every `pixels_per_grid`-th line
/// counts as major once the spacing is more than one pixel.
pub fn is_major_line(i: u32, pixels_per_grid: u32) -> (r: bool)
    requires
        pixels_per_grid >= 1,
    ensures
        r == (pixels_per_grid > 1 && i % pixels_per_grid == 0),
{
    pixels_per_grid > 1 && i % pixels_per_grid == 0
}

/// Whether the flat-mode grid overlay is drawn: only when enabled and
/// the cells are at least four screen units wide.
pub fn grid_visible(st: &CanvasState) -> (r: bool)
    ensures
        r == (st.show_grid && st.zoom >= 4 * SUB_SCALE),
{
    st.show_grid && st.zoom >= 4 * SUB_SCALE
}

/// The zoom factor after one keyboard zoom-in: half again as large,
/// capped at the top of the clamp range.
pub open spec fn spec_zoom_in(z: int) -> int {
    if (z * 3) / 2 > ZOOM_MAX {
        ZOOM_MAX as int
    } else {
        (z * 3) / 2
    }
}

/// The zoom factor after one keyboard zoom-out: reduced by a third,
/// held at the bottom of the clamp range.
pub open spec fn spec_zoom_out(z: int) -> int {
    if (z * 2) / 3 < ZOOM_MIN {
        ZOOM_MIN as int
    } else {
        (z * 2) / 3
    }
}

/// The zoom factor after a scroll of `scroll` screen units: scaled by
/// `1 + scroll / 200`, clamped into the zoom range.
pub open spec fn spec_scroll_zoom(z: int, scroll: int) -> int {
    let factor = 1000 + 5 * scroll;
    if factor <= 0 {
        ZOOM_MIN as int
    } else {
        spec_clamp((z * factor) / 1000, ZOOM_MIN as int, ZOOM_MAX as int)
    }
}

/// The pan offset that keeps the point under the cursor fixed across a
/// zoom change, saturated at the working bound: the cursor position
/// relative to the shifted viewport centre, scaled by the relative
/// change of zoom.
pub open spec fn spec_zoom_offset(offset: int, mouse_rel: int, old_zoom: int, new_zoom: int) -> int {
    spec_clamp(
        offset + div_toward_zero(mouse_rel * (old_zoom - new_zoom), old_zoom),
        -OFFSET_LIMIT as int,
        OFFSET_LIMIT as int,
    )
}

impl CanvasState {
    /// Keyboard or palette zoom-in.
    pub fn zoom_in(&mut self)
        requires
            old(self).wf(),
        ensures
            final(self).wf(),
            final(self).zoom == spec_zoom_in(old(self).zoom as int),
            *final(self) == (CanvasState { zoom: final(self).zoom, ..*old(self) }),
    {
        proof {
            vstd::arithmetic::div_mod::lemma_div_multiples_vanish(self.zoom as int, 2);
            vstd::arithmetic::div_mod::lemma_div_is_ordered(
                2 * (self.zoom as int),
                (self.zoom as int) * 3,
                2,
            );
        }
        let raised: i64 = (((self.zoom as u64) * 3) / 2) as i64;
        self.zoom = if raised > ZOOM_MAX {
            ZOOM_MAX
        } else {
            raised
        };
    }

    /// Keyboard or palette zoom-out.
    pub fn zoom_out(&mut self)
        requires
            old(self).wf(),
        ensures
            final(self).wf(),
            final(self).zoom == spec_zoom_out(old(self).zoom as int),
            *final(self) == (CanvasState { zoom: final(self).zoom, ..*old(self) }),
    {
        proof {
            vstd::arithmetic::div_mod::lemma_div_multiples_vanish(self.zoom as int, 3);
            vstd::arithmetic::div_mod::lemma_div_is_ordered(
                (self.zoom as int) * 2,
                3 * (self.zoom as int),
                3,
            );
        }
        let lowered: i64 = (((self.zoom as u64) * 2) / 3) as i64;
        self.zoom = if lowered < ZOOM_MIN {
            ZOOM_MIN
        } else {
            lowered
        };
    }

    /// Back to the default zoom with no pan.
    pub fn reset_view(&mut self)
        requires
            old(self).wf(),
        ensures
            final(self).wf(),
            final(self).zoom == ZOOM_DEFAULT,
            final(self).offset_x == 0,
            final(self).offset_y == 0,
            final(self).show_grid == old(self).show_grid,
            final(self).isometric == old(self).isometric,
            final(self).pixels_per_grid == old(self).pixels_per_grid,
    {
        self.zoom = ZOOM_DEFAULT;
        self.offset_x = 0;
        self.offset_y = 0;
    }

    /// Set the zoom factor directly, clamped into its range.
    pub fn set_zoom(&mut self, z: i64)
        requires
            old(self).wf(),
        ensures
            final(self).wf(),
            final(self).zoom == spec_clamp(z as int, ZOOM_MIN as int, ZOOM_MAX as int),
            *final(self) == (CanvasState { zoom: final(self).zoom, ..*old(self) }),
    {
        self.zoom = if z < ZOOM_MIN {
            ZOOM_MIN
        } else if z > ZOOM_MAX {
            ZOOM_MAX
        } else {
            z
        };
    }

    /// Pan by a drag delta, saturated at the working bound.
    pub fn pan(&mut self, dx: i64, dy: i64)
        requires
            old(self).wf(),
            -COORD_LIMIT <= dx <= COORD_LIMIT,
            -COORD_LIMIT <= dy <= COORD_LIMIT,
        ensures
            final(self).wf(),
            final(self).offset_x == spec_clamp(
                old(self).offset_x + dx,
                -OFFSET_LIMIT as int,
                OFFSET_LIMIT as int,
            ),
            final(self).offset_y == spec_clamp(
                old(self).offset_y + dy,
                -OFFSET_LIMIT as int,
                OFFSET_LIMIT as int,
            ),
            final(self).zoom == old(self).zoom,
            final(self).show_grid == old(self).show_grid,
            final(self).isometric == old(self).isometric,
            final(self).pixels_per_grid == old(self).pixels_per_grid,
    {
        let nx = self.offset_x + dx;
        let ny = self.offset_y + dy;
        self.offset_x = if nx < -OFFSET_LIMIT {
            -OFFSET_LIMIT
        } else if nx > OFFSET_LIMIT {
            OFFSET_LIMIT
        } else {
            nx
        };
        self.offset_y = if ny < -OFFSET_LIMIT {
            -OFFSET_LIMIT
        } else if ny > OFFSET_LIMIT {
            OFFSET_LIMIT
        } else {
            ny
        };
    }

    /// Scroll-wheel zoom toward the cursor: rescale the zoom factor,
    /// then shift the pan offset so the pixel under the cursor keeps its
    /// screen position, up to rounding.
    pub fn scroll_zoom(&mut self, scroll: i64, mouse_x: i64, mouse_y: i64, view_cx: i64, view_cy: i64)
        requires
            old(self).wf(),
            -1000_000 <= scroll <= 1000_000,
            -COORD_LIMIT <= mouse_x <= COORD_LIMIT,
            -COORD_LIMIT <= mouse_y <= COORD_LIMIT,
            -COORD_LIMIT <= view_cx <= COORD_LIMIT,
            -COORD_LIMIT <= view_cy <= COORD_LIMIT,
        ensures
            final(self).wf(),
            final(self).zoom == spec_scroll_zoom(old(self).zoom as int, scroll as int),
            final(self).offset_x == spec_zoom_offset(
                old(self).offset_x as int,
                mouse_x - view_cx - old(self).offset_x,
                old(self).zoom as int,
                final(self).zoom as int,
            ),
            final(self).offset_y == spec_zoom_offset(
                old(self).offset_y as int,
                mouse_y - view_cy - old(self).offset_y,
                old(self).zoom as int,
                final(self).zoom as int,
            ),
            final(self).show_grid == old(self).show_grid,
            final(self).isometric == old(self).isometric,
            final(self).pixels_per_grid == old(self).pixels_per_grid,
    {
        let old_zoom: i64 = self.zoom;
        let factor: i64 = 1000 + 5 * scroll;
        let new_zoom: i64 = if factor <= 0 {
            ZOOM_MIN
        } else {
            proof {
                lemma_mul_le_abs(old_zoom as int, factor as int, 128000, 6000_000);
            }
            let raw: i64 = (((old_zoom * factor) as u64) / 1000) as i64;
            if raw < ZOOM_MIN {
                ZOOM_MIN
            } else if raw > ZOOM_MAX {
                ZOOM_MAX
            } else {
                raw
            }
        };
        self.zoom = new_zoom;
        let rel_x: i64 = mouse_x - view_cx - self.offset_x;
        let rel_y: i64 = mouse_y - view_cy - self.offset_y;
        let dx = scaled_delta(rel_x, old_zoom, new_zoom);
        let dy = scaled_delta(rel_y, old_zoom, new_zoom);
        let nx = self.offset_x + dx;
        let ny = self.offset_y + dy;
        self.offset_x = if nx < -OFFSET_LIMIT {
            -OFFSET_LIMIT
        } else if nx > OFFSET_LIMIT {
            OFFSET_LIMIT
        } else {
            nx
        };
        self.offset_y = if ny < -OFFSET_LIMIT {
            -OFFSET_LIMIT
        } else if ny > OFFSET_LIMIT {
            OFFSET_LIMIT
        } else {
            ny
        };
    }
}

/// `rel * (old_zoom - new_zoom) / old_zoom`, rounded toward zero: how
/// far the pan offset must move to keep the cursor's point fixed.
fn scaled_delta(rel: i64, old_zoom: i64, new_zoom: i64) -> (r: i64)
    requires
        ZOOM_MIN <= old_zoom <= ZOOM_MAX,
        ZOOM_MIN <= new_zoom <= ZOOM_MAX,
        -0x600_0000_0000 <= rel <= 0x600_0000_0000,
    ensures
        r == div_toward_zero(rel * (old_zoom - new_zoom), old_zoom as int),
        -(0x600_0000_0000 * 126000) as int <= r <= (0x600_0000_0000 * 126000) as int,
{
    proof {
        lemma_mul_le_abs(rel as int, old_zoom - new_zoom, 0x600_0000_0000, 126000);
    }
    let num: i64 = rel * (old_zoom - new_zoom);
    if num >= 0 {
        proof {
            vstd::arithmetic::div_mod::lemma_div_basics(num as int);
            vstd::arithmetic::div_mod::lemma_div_is_ordered_by_denominator(
                num as int,
                1,
                old_zoom as int,
            );
        }
        (((num as u64) / (old_zoom as u64))) as i64
    } else {
        proof {
            vstd::arithmetic::div_mod::lemma_div_is_ordered(
                0,
                -(num as int),
                old_zoom as int,
            );
            vstd::arithmetic::div_mod::lemma_div_basics(-(num as int));
            vstd::arithmetic::div_mod::lemma_div_is_ordered_by_denominator(
                -(num as int),
                1,
                old_zoom as int,
            );
        }
        -((((-num) as u64) / (old_zoom as u64)) as i64)
    }
}

/// In flat mode, hit-testing the screen centre of any in-bounds pixel
/// finds that very pixel again, at every zoom level and pan offset.
pub proof fn lemma_flat_round_trip(
    view_cx: int,
    view_cy: int,
    st: CanvasState,
    w: u32,
    h: u32,
    x: u32,
    y: u32,
)
    requires
        st.wf(),
        1 <= w <= MAX_DIM,
        1 <= h <= MAX_DIM,
        x < w,
        y < h,
    ensures
        spec_screen_to_pixel_flat(
            spec_cell_min(
                spec_origin(view_cx, st.offset_x as int, w as int, st.zoom as int),
                x as int,
                st.zoom as int,
            ) + (st.zoom as int) / 2,
            spec_cell_min(
                spec_origin(view_cy, st.offset_y as int, h as int, st.zoom as int),
                y as int,
                st.zoom as int,
            ) + (st.zoom as int) / 2,
            view_cx,
            view_cy,
            st,
            w,
            h,
        ) == Some((x, y)),
{
    let z = st.zoom as int;
    let rel_x = x as int * z + z / 2;
    let rel_y = y as int * z + z / 2;
    assert(x as int * z >= 0) by (nonlinear_arith)
        requires
            x >= 0,
            z > 0,
    ;
    assert(y as int * z >= 0) by (nonlinear_arith)
        requires
            y >= 0,
            z > 0,
    ;
    vstd::arithmetic::div_mod::lemma_fundamental_div_mod_converse(rel_x, z, x as int, z / 2);
    vstd::arithmetic::div_mod::lemma_fundamental_div_mod_converse(rel_y, z, y as int, z / 2);
}


/// In isometric mode, hit-testing the centre of the rendered diamond of
/// any in-bounds pixel finds that very pixel again, at every zoom level
/// and pan offset: the inverse mapping inverts the rendered lattice
/// exactly.
pub proof fn lemma_iso_round_trip(
    view_cx: int,
    view_cy: int,
    st: CanvasState,
    w: u32,
    h: u32,
    x: u32,
    y: u32,
)
    requires
        st.wf(),
        1 <= w <= MAX_DIM,
        1 <= h <= MAX_DIM,
        x < w,
        y < h,
    ensures
        spec_screen_to_pixel_iso(
            spec_iso_tile_center(view_cx, view_cy, st, h, x as int, y as int).0,
            spec_iso_tile_center(view_cx, view_cy, st, h, x as int, y as int).1 + ((
            st.zoom as int) / 2) / 2,
            view_cx,
            view_cy,
            st,
            w,
            h,
        ) == Some((x, y)),
{
    let hw = (st.zoom as int) / 2;
    let hh = hw / 2;
    let c = spec_iso_center(view_cx, view_cy, st, h);
    let rel_x = spec_iso_tile_center(view_cx, view_cy, st, h, x as int, y as int).0 - c.0;
    let rel_y = spec_iso_tile_center(view_cx, view_cy, st, h, x as int, y as int).1 + hh - c.1;
    assert(rel_x == (x - y) * hw);
    assert(rel_y == (x + y) * hh + hh);
    let den = 2 * (hw * hh);
    assert(hw >= 1000 && hh >= 500);
    assert(rel_x * hh + rel_y * hw == (x as int) * den + hw * hh && 0 < hw * hh < den)
        by (nonlinear_arith)
        requires
            rel_x == (x - y) * hw,
            rel_y == (x + y) * hh + hh,
            den == 2 * (hw * hh),
            hw >= 1000,
            hh >= 500,
            x >= 0,
            y >= 0,
    ;
    assert(rel_y * hw - rel_x * hh == (y as int) * den + hw * hh) by (nonlinear_arith)
        requires
            rel_x == (x - y) * hw,
            rel_y == (x + y) * hh + hh,
            den == 2 * (hw * hh),
            hw >= 1000,
            hh >= 500,
    ;
    vstd::arithmetic::div_mod::lemma_fundamental_div_mod_converse(
        rel_x * hh + rel_y * hw,
        den,
        x as int,
        hw * hh,
    );
    vstd::arithmetic::div_mod::lemma_fundamental_div_mod_converse(
        rel_y * hw - rel_x * hh,
        den,
        y as int,
        hw * hh,
    );
}

/// The zoom clamp is inductive: a zoom factor inside its range stays
/// inside it under any number of zoom-in or zoom-out steps, and the
/// bounds are fixed points of the respective step.
pub proof fn lemma_zoom_clamp(z: int)
    requires
        ZOOM_MIN <= z <= ZOOM_MAX,
    ensures
        ZOOM_MIN <= spec_zoom_in(z) <= ZOOM_MAX,
        ZOOM_MIN <= spec_zoom_out(z) <= ZOOM_MAX,
        z == ZOOM_MAX ==> spec_zoom_in(z) == ZOOM_MAX,
        z == ZOOM_MIN ==> spec_zoom_out(z) == ZOOM_MIN,
        spec_zoom_in(z) >= z,
        spec_zoom_out(z) <= z,
{
    vstd::arithmetic::div_mod::lemma_div_multiples_vanish(z, 2);
    vstd::arithmetic::div_mod::lemma_div_is_ordered(2 * z, z * 3, 2);
    vstd::arithmetic::div_mod::lemma_div_multiples_vanish(z, 3);
    vstd::arithmetic::div_mod::lemma_div_is_ordered(z * 2, 3 * z, 3);
}


/// What one frame of canvas interaction reports back: the pixel under
/// the cursor, the pixels hit by the primary button this frame, and a
/// color sampled with the secondary button.
pub struct CanvasResponse {
    pub hovered_pixel: Option<(u32, u32)>,
    pub painted_pixels: Vec<(u32, u32)>,
    pub picked_color: Option<[u8; 4]>,
}


} // verus!
