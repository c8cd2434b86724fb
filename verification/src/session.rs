//! The editor session: the sprite under edit, the view, the active tool
//! and color, the palette, and the decisions taken each frame. The
//! windowing host performs I/O and hands the results back as plain
//! values.

use vstd::prelude::*;
use crate::codec;
use crate::command_palette::{Command, CommandPalette};
use crate::sprite::{flood_filled, pixel_written, Sprite, MAX_DIM};
use crate::tools::Tool;
use crate::view::{CanvasResponse, CanvasState};

verus! {

/// The fully transparent color the eraser paints with.
pub open spec fn transparent() -> Seq<u8> {
    seq![0u8, 0u8, 0u8, 0u8]
}


/// The anchor the stroke engine interpolates from for hit number `k` of
/// one frame: for the first hit, the previous frame's last painted
/// pixel; after that, the preceding hit of this frame.
pub open spec fn stroke_anchor(prev: Option<(u32, u32)>, painted: Seq<(u32, u32)>, k: int) -> Option<
    (u32, u32),
> {
    if k == 0 {
        prev
    } else {
        Some(painted[k - 1])
    }
}

/// Whether `p` lies on the rasterized segment of hit number `k`: the
/// line from the hit's anchor to the hit, or the hit alone when the
/// frame starts a fresh stroke.
pub open spec fn on_stroke_segment(
    prev: Option<(u32, u32)>,
    painted: Seq<(u32, u32)>,
    k: int,
    p: (u32, u32),
) -> bool {
    let t = painted[k];
    match stroke_anchor(prev, painted, k) {
        Some(a) => crate::tools::stroke_line(
            a.0 as int,
            a.1 as int,
            t.0 as int,
            t.1 as int,
        ).contains((p.0 as int, p.1 as int)),
        None => p == t,
    }
}

/// Whether `p` lies on one of the first `n` interpolated segments of a
/// frame.
pub open spec fn on_stroke_upto(
    prev: Option<(u32, u32)>,
    painted: Seq<(u32, u32)>,
    n: int,
    p: (u32, u32),
) -> bool {
    exists|k: int| 0 <= k < n && #[trigger] on_stroke_segment(prev, painted, k, p)
}

/// Whether `p` lies on the frame's interpolated stroke: the rasterized
/// lines from the previous anchor to the first hit, then hit to hit.
pub open spec fn on_stroke(prev: Option<(u32, u32)>, painted: Seq<(u32, u32)>, p: (u32, u32)) -> bool {
    on_stroke_upto(prev, painted, painted.len() as int, p)
}

/// Whether `p` is among the first `n` points of a rasterized line.
pub open spec fn on_line_prefix(line: Seq<(i32, i32)>, n: int, p: (u32, u32)) -> bool {
    exists|jj: int|
        0 <= jj < n && ((#[trigger] line[jj]).0 as int == p.0 as int) && (line[jj].1 as int
            == p.1 as int)
}

/// The most recent outcome to report to the user; the host renders it
/// as the status line. Last write wins, no history.
#[derive(Debug)]
pub enum StatusMessage {
    Ready,
    Loaded { width: u32, height: u32 },
    LoadedFromUrl { width: u32, height: u32 },
    DecodeFailed,
    DecodeFailedFromUrl,
    ImageSizeUnsupported { width: u32, height: u32 },
    FetchError { message: String },
    SpriteSaved,
    SaveCancelled,
    CreatedSprite { width: u32, height: u32 },
    Hover { x: u32, y: u32, color: [u8; 4] },
    PickedColor { color: [u8; 4] },
    AiNotConnected,
}

/// What the host must do after a command was executed, beyond what the
/// session already changed itself.
#[derive(Clone, Copy, PartialEq, Eq, Structural, Debug)]
pub enum CommandEffect {
    NoEffect,
    OpenFileDialog,
    SaveFileDialog,
}

/// The editor session: one sprite, one view, one tool, one palette.
pub struct EditorSession {
    pub sprite: Sprite,
    pub canvas: CanvasState,
    pub current_tool: Tool,
    pub primary_color: [u8; 4],
    pub palette: CommandPalette,
    pub last_paint_pos: Option<(u32, u32)>,
    pub show_new_dialog: bool,
    pub show_url_dialog: bool,
    pub show_ai_dialog: bool,
    pub status: StatusMessage,
}

impl EditorSession {
    /// Well-formedness of the session: the sprite's buffer and the view
    /// state hold their invariants.
    pub open spec fn wf(&self) -> bool {
        &&& self.sprite.wf()
        &&& self.canvas.wf()
    }

    /// A fresh session: a transparent 16 by 16 sprite, default view,
    /// pencil in white.
    pub fn new() -> (s: EditorSession)
        ensures
            s.wf(),
            s.sprite.width == 16,
            s.sprite.height == 16,
            forall|i: int| 0 <= i < s.sprite.pixels@.len() ==> s.sprite.pixels@[i] == 0u8,
            s.canvas == (CanvasState {
                zoom: crate::view::ZOOM_DEFAULT,
                offset_x: 0,
                offset_y: 0,
                show_grid: true,
                isometric: false,
                pixels_per_grid: 1,
            }),
            s.current_tool == Tool::Pencil,
            s.primary_color@ == seq![255u8, 255u8, 255u8, 255u8],
            s.palette.is_open == false,
            s.palette.query@ == Seq::<char>::empty(),
            s.palette.selected_index == 0,
            s.last_paint_pos is None,
            s.show_new_dialog == false,
            s.show_url_dialog == false,
            s.show_ai_dialog == false,
            s.status is Ready,
    {
        let s = EditorSession {
            sprite: Sprite::new(16, 16),
            canvas: Default::default(),
            current_tool: Tool::Pencil,
            primary_color: [255, 255, 255, 255],
            palette: Default::default(),
            last_paint_pos: None,
            show_new_dialog: false,
            show_url_dialog: false,
            show_ai_dialog: false,
            status: StatusMessage::Ready,
        };
        proof {
            assert(s.primary_color@ =~= seq![255u8, 255u8, 255u8, 255u8]);
        }
        s
    }

    /// Run one palette or menu command against the session. View and
    /// tool commands change the session directly; dialog commands raise
    /// the matching dialog flag; file commands are handed back to the
    /// host as an effect.
    pub fn execute_command(&mut self, command: Command) -> (eff: CommandEffect)
        requires
            old(self).wf(),
        ensures
            final(self).wf(),
            match command {
                Command::NewSprite => *final(self) == (EditorSession {
                    show_new_dialog: true,
                    ..*old(self)
                }) && eff == CommandEffect::NoEffect,
                Command::OpenFile => *final(self) == *old(self) && eff
                    == CommandEffect::OpenFileDialog,
                Command::LoadFromURL => *final(self) == (EditorSession {
                    show_url_dialog: true,
                    ..*old(self)
                }) && eff == CommandEffect::NoEffect,
                Command::SaveFile => *final(self) == *old(self) && eff
                    == CommandEffect::SaveFileDialog,
                Command::ToggleGrid => *final(self) == (EditorSession {
                    canvas: CanvasState { show_grid: !old(self).canvas.show_grid, ..old(self).canvas },
                    ..*old(self)
                }) && eff == CommandEffect::NoEffect,
                Command::ToggleIsometric => *final(self) == (EditorSession {
                    canvas: CanvasState { isometric: !old(self).canvas.isometric, ..old(self).canvas },
                    ..*old(self)
                }) && eff == CommandEffect::NoEffect,
                Command::SetPencil => *final(self) == (EditorSession {
                    current_tool: Tool::Pencil,
                    ..*old(self)
                }) && eff == CommandEffect::NoEffect,
                Command::SetEraser => *final(self) == (EditorSession {
                    current_tool: Tool::Eraser,
                    ..*old(self)
                }) && eff == CommandEffect::NoEffect,
                Command::SetFill => *final(self) == (EditorSession {
                    current_tool: Tool::Fill,
                    ..*old(self)
                }) && eff == CommandEffect::NoEffect,
                Command::SetColorPicker => *final(self) == (EditorSession {
                    current_tool: Tool::ColorPicker,
                    ..*old(self)
                }) && eff == CommandEffect::NoEffect,
                Command::ZoomIn => *final(self) == (EditorSession {
                    canvas: CanvasState {
                        zoom: (crate::view::spec_zoom_in(old(self).canvas.zoom as int)) as i64,
                        ..old(self).canvas
                    },
                    ..*old(self)
                }) && eff == CommandEffect::NoEffect,
                Command::ZoomOut => *final(self) == (EditorSession {
                    canvas: CanvasState {
                        zoom: (crate::view::spec_zoom_out(old(self).canvas.zoom as int)) as i64,
                        ..old(self).canvas
                    },
                    ..*old(self)
                }) && eff == CommandEffect::NoEffect,
                Command::ResetView => *final(self) == (EditorSession {
                    canvas: CanvasState {
                        zoom: crate::view::ZOOM_DEFAULT,
                        offset_x: 0,
                        offset_y: 0,
                        ..old(self).canvas
                    },
                    ..*old(self)
                }) && eff == CommandEffect::NoEffect,
                Command::GenerateAI => *final(self) == (EditorSession {
                    show_ai_dialog: true,
                    ..*old(self)
                }) && eff == CommandEffect::NoEffect,
            },
    {
        match command {
            Command::NewSprite => {
                self.show_new_dialog = true;
                CommandEffect::NoEffect
            },
            Command::OpenFile => CommandEffect::OpenFileDialog,
            Command::LoadFromURL => {
                self.show_url_dialog = true;
                CommandEffect::NoEffect
            },
            Command::SaveFile => CommandEffect::SaveFileDialog,
            Command::ToggleGrid => {
                self.canvas.show_grid = !self.canvas.show_grid;
                CommandEffect::NoEffect
            },
            Command::ToggleIsometric => {
                self.canvas.isometric = !self.canvas.isometric;
                CommandEffect::NoEffect
            },
            Command::SetPencil => {
                self.current_tool = Tool::Pencil;
                CommandEffect::NoEffect
            },
            Command::SetEraser => {
                self.current_tool = Tool::Eraser;
                CommandEffect::NoEffect
            },
            Command::SetFill => {
                self.current_tool = Tool::Fill;
                CommandEffect::NoEffect
            },
            Command::SetColorPicker => {
                self.current_tool = Tool::ColorPicker;
                CommandEffect::NoEffect
            },
            Command::ZoomIn => {
                self.canvas.zoom_in();
                CommandEffect::NoEffect
            },
            Command::ZoomOut => {
                self.canvas.zoom_out();
                CommandEffect::NoEffect
            },
            Command::ResetView => {
                self.canvas.reset_view();
                CommandEffect::NoEffect
            },
            Command::GenerateAI => {
                self.show_ai_dialog = true;
                CommandEffect::NoEffect
            },
        }
    }

    /// Apply the active tool to the in-bounds pixel `(x, y)`: pencil and
    /// eraser write one pixel, fill floods from it, and the color picker
    /// samples it and hands the tool back to the pencil.
    pub fn apply_tool_at(&mut self, x: u32, y: u32)
        requires
            old(self).wf(),
            old(self).sprite.in_bounds(x, y),
        ensures
            final(self).wf(),
            match old(self).current_tool {
                Tool::Pencil => pixel_written(
                    old(self).sprite,
                    final(self).sprite,
                    x,
                    y,
                    old(self).primary_color@,
                ) && *final(self) == (EditorSession { sprite: final(self).sprite, ..*old(self) }),
                Tool::Eraser => pixel_written(
                    old(self).sprite,
                    final(self).sprite,
                    x,
                    y,
                    transparent(),
                ) && *final(self) == (EditorSession { sprite: final(self).sprite, ..*old(self) }),
                Tool::Fill => flood_filled(
                    old(self).sprite,
                    final(self).sprite,
                    x,
                    y,
                    old(self).primary_color@,
                ) && *final(self) == (EditorSession { sprite: final(self).sprite, ..*old(self) }),
                Tool::ColorPicker => final(self).primary_color@ == old(self).sprite.spec_pixel(
                    x,
                    y,
                ) && *final(self) == (EditorSession {
                    primary_color: final(self).primary_color,
                    current_tool: Tool::Pencil,
                    ..*old(self)
                }),
            },
    {
        match self.current_tool {
            Tool::Pencil => {
                let c = self.primary_color;
                self.sprite.set_pixel(x, y, c);
            },
            Tool::Eraser => {
                self.sprite.set_pixel(x, y, [0, 0, 0, 0]);
                proof {
                    assert(([0u8, 0u8, 0u8, 0u8])@ =~= transparent());
                }
            },
            Tool::Fill => {
                let c = self.primary_color;
                self.sprite.flood_fill(x, y, c);
            },
            Tool::ColorPicker => {
                let c = self.sprite.get_pixel(x, y);
                self.primary_color = c;
                self.current_tool = Tool::Pencil;
            },
        }
    }

    /// Take one frame of canvas interaction: report the hovered pixel in
    /// the status line, paint every hit pixel with the active tool,
    /// interpolating a line from the last painted pixel of the previous
    /// frame, and take over a sampled color. The stroke anchor is
    /// cleared on a frame that paints nothing.
    #[verifier::rlimit(100)]
    pub fn handle_canvas_response(&mut self, response: CanvasResponse)
        requires
            old(self).wf(),
            (response.hovered_pixel matches Some(p) ==> old(self).sprite.in_bounds(p.0, p.1)),
            forall|i: int|
                0 <= i < response.painted_pixels@.len() ==> {
                    let p = #[trigger] response.painted_pixels@[i];
                    old(self).sprite.in_bounds(p.0, p.1)
                },
            (old(self).last_paint_pos matches Some(p) ==> p.0 <= MAX_DIM && p.1 <= MAX_DIM),
        ensures
            final(self).wf(),
            final(self).sprite.width == old(self).sprite.width,
            final(self).sprite.height == old(self).sprite.height,
            final(self).last_paint_pos == (if response.painted_pixels@.len() == 0 {
                None::<(u32, u32)>
            } else {
                Some(response.painted_pixels@.last())
            }),
            response.painted_pixels@.len() == 0 ==> final(self).sprite == old(self).sprite,
            final(self).canvas == old(self).canvas,
            final(self).palette == old(self).palette,
            final(self).show_new_dialog == old(self).show_new_dialog,
            final(self).show_url_dialog == old(self).show_url_dialog,
            final(self).show_ai_dialog == old(self).show_ai_dialog,
            (response.picked_color matches Some(c) ==> final(self).primary_color == c && (final(self).status matches StatusMessage::PickedColor { color } && color == c)),
            (response.picked_color is None && !(old(self).current_tool is ColorPicker
                && response.painted_pixels@.len() > 0)) ==> final(self).primary_color == old(self).primary_color,
            response.picked_color is None ==> (response.hovered_pixel matches Some(p) ==> (final(self).status matches StatusMessage::Hover { x, y, color } && x == p.0 && y == p.1 && color@
                == old(self).sprite.spec_pixel(p.0, p.1))),
            response.picked_color is None && response.hovered_pixel is None ==> final(self).status
                == old(self).status,
            !(old(self).current_tool is ColorPicker) ==> final(self).current_tool == old(self).current_tool,
            (old(self).current_tool is Pencil || old(self).current_tool is Fill) ==> forall|i: int|
                0 <= i < response.painted_pixels@.len() ==> {
                    let p = #[trigger] response.painted_pixels@[i];
                    final(self).sprite.spec_pixel(p.0, p.1) == old(self).primary_color@
                },
            old(self).current_tool is Eraser ==> forall|i: int|
                0 <= i < response.painted_pixels@.len() ==> {
                    let p = #[trigger] response.painted_pixels@[i];
                    final(self).sprite.spec_pixel(p.0, p.1) == transparent()
                },
            (old(self).current_tool is Pencil || old(self).current_tool is Fill) ==> forall|
                px: u32,
                py: u32,
            |
                old(self).sprite.in_bounds(px, py) && on_stroke(
                    old(self).last_paint_pos,
                    response.painted_pixels@,
                    (px, py),
                ) ==> #[trigger] final(self).sprite.spec_pixel(px, py) == old(self).primary_color@,
            old(self).current_tool is Eraser ==> forall|px: u32, py: u32|
                old(self).sprite.in_bounds(px, py) && on_stroke(
                    old(self).last_paint_pos,
                    response.painted_pixels@,
                    (px, py),
                ) ==> #[trigger] final(self).sprite.spec_pixel(px, py) == transparent(),
            (old(self).current_tool is Pencil || old(self).current_tool is Eraser) ==> forall|
                px: u32,
                py: u32,
            |
                old(self).sprite.in_bounds(px, py) && !on_stroke(
                    old(self).last_paint_pos,
                    response.painted_pixels@,
                    (px, py),
                ) ==> #[trigger] final(self).sprite.spec_pixel(px, py) == old(self).sprite.spec_pixel(px, py),
    {
        if let Some((hx, hy)) = response.hovered_pixel {
            let c = self.sprite.get_pixel(hx, hy);
            self.status = StatusMessage::Hover { x: hx, y: hy, color: c };
        }
        let ghost pre = *self;
        let ghost tool0 = old(self).current_tool;
        let ghost prim0 = old(self).primary_color;
        if response.painted_pixels.len() > 0 {
            let mut i: usize = 0;
            while i < response.painted_pixels.len()
                invariant
                    self.wf(),
                    0 <= i <= response.painted_pixels@.len(),
                    response.painted_pixels@.len() > 0,
                    self.sprite.width == pre.sprite.width,
                    self.sprite.height == pre.sprite.height,
                    forall|k: int|
                        0 <= k < response.painted_pixels@.len() ==> {
                            let p = #[trigger] response.painted_pixels@[k];
                            pre.sprite.in_bounds(p.0, p.1)
                        },
                    (pre.last_paint_pos matches Some(p) ==> p.0 <= MAX_DIM && p.1 <= MAX_DIM),
                    self.last_paint_pos == (if i == 0 {
                        pre.last_paint_pos
                    } else {
                        Some(response.painted_pixels@[i - 1])
                    }),
                    self.canvas == pre.canvas,
                    self.palette == pre.palette,
                    self.show_new_dialog == pre.show_new_dialog,
                    self.show_url_dialog == pre.show_url_dialog,
                    self.show_ai_dialog == pre.show_ai_dialog,
                    self.status == pre.status,
                    tool0 == pre.current_tool,
                    prim0 == pre.primary_color,
                    !(tool0 is ColorPicker) ==> self.current_tool == tool0 && self.primary_color
                        == prim0,
                    (tool0 is Pencil || tool0 is Fill) ==> forall|k: int|
                        0 <= k < i ==> {
                            let p = #[trigger] response.painted_pixels@[k];
                            self.sprite.spec_pixel(p.0, p.1) == prim0@
                        },
                    tool0 is Eraser ==> forall|k: int|
                        0 <= k < i ==> {
                            let p = #[trigger] response.painted_pixels@[k];
                            self.sprite.spec_pixel(p.0, p.1) == transparent()
                        },
                    (tool0 is Pencil || tool0 is Fill) ==> forall|px: u32, py: u32|
                        pre.sprite.in_bounds(px, py) && on_stroke_upto(
                            pre.last_paint_pos,
                            response.painted_pixels@,
                            i as int,
                            (px, py),
                        ) ==> #[trigger] self.sprite.spec_pixel(px, py) == prim0@,
                    tool0 is Eraser ==> forall|px: u32, py: u32|
                        pre.sprite.in_bounds(px, py) && on_stroke_upto(
                            pre.last_paint_pos,
                            response.painted_pixels@,
                            i as int,
                            (px, py),
                        ) ==> #[trigger] self.sprite.spec_pixel(px, py) == transparent(),
                    (tool0 is Pencil || tool0 is Eraser) ==> forall|px: u32, py: u32|
                        pre.sprite.in_bounds(px, py) && !on_stroke_upto(
                            pre.last_paint_pos,
                            response.painted_pixels@,
                            i as int,
                            (px, py),
                        ) ==> #[trigger] self.sprite.spec_pixel(px, py) == pre.sprite.spec_pixel(
                            px,
                            py,
                        ),
                decreases response.painted_pixels@.len() - i,
            {
                let (x, y) = response.painted_pixels[i];
                match self.last_paint_pos {
                    Some((lx, ly)) => {
                        let line = crate::tools::line_pixels(
                            lx as i32,
                            ly as i32,
                            x as i32,
                            y as i32,
                        );
                        let mut j: usize = 0;
                        while j < line.len()
                            invariant
                                self.wf(),
                                0 <= i < response.painted_pixels@.len(),
                                0 <= j <= line@.len(),
                                line@[line@.len() - 1] == (x as i32, y as i32),
                                self.sprite.width == pre.sprite.width,
                                self.sprite.height == pre.sprite.height,
                                pre.sprite.in_bounds(x, y),
                                forall|k: int|
                                    0 <= k < response.painted_pixels@.len() ==> {
                                        let p = #[trigger] response.painted_pixels@[k];
                                        pre.sprite.in_bounds(p.0, p.1)
                                    },
                                self.last_paint_pos == (if i == 0 {
                                    pre.last_paint_pos
                                } else {
                                    Some(response.painted_pixels@[i - 1])
                                }),
                                self.canvas == pre.canvas,
                                self.palette == pre.palette,
                                self.show_new_dialog == pre.show_new_dialog,
                                self.show_url_dialog == pre.show_url_dialog,
                                self.show_ai_dialog == pre.show_ai_dialog,
                                self.status == pre.status,
                                !(tool0 is ColorPicker) ==> self.current_tool == tool0
                                    && self.primary_color == prim0,
                                (tool0 is Pencil || tool0 is Fill) ==> forall|k: int|
                                    0 <= k < i ==> {
                                        let p = #[trigger] response.painted_pixels@[k];
                                        self.sprite.spec_pixel(p.0, p.1) == prim0@
                                    },
                                tool0 is Eraser ==> forall|k: int|
                                    0 <= k < i ==> {
                                        let p = #[trigger] response.painted_pixels@[k];
                                        self.sprite.spec_pixel(p.0, p.1) == transparent()
                                    },
                                (tool0 is Pencil || tool0 is Fill) ==> forall|k: int|
                                    0 <= k < j ==> {
                                        let q = #[trigger] line@[k];
                                        (q.0 >= 0 && q.1 >= 0 && q.0 < self.sprite.width && q.1
                                            < self.sprite.height) ==> self.sprite.spec_pixel(
                                            q.0 as u32,
                                            q.1 as u32,
                                        ) == prim0@
                                    },
                                tool0 is Eraser ==> forall|k: int|
                                    0 <= k < j ==> {
                                        let q = #[trigger] line@[k];
                                        (q.0 >= 0 && q.1 >= 0 && q.0 < self.sprite.width && q.1
                                            < self.sprite.height) ==> self.sprite.spec_pixel(
                                            q.0 as u32,
                                            q.1 as u32,
                                        ) == transparent()
                                    },
                                crate::tools::points_of(line@) == crate::tools::stroke_line(
                                    lx as int,
                                    ly as int,
                                    x as int,
                                    y as int,
                                ),
                                stroke_anchor(
                                    pre.last_paint_pos,
                                    response.painted_pixels@,
                                    i as int,
                                ) == Some((lx, ly)),
                                (tool0 is Pencil || tool0 is Fill) ==> forall|px: u32, py: u32|
                                    pre.sprite.in_bounds(px, py) && (on_stroke_upto(
                                        pre.last_paint_pos,
                                        response.painted_pixels@,
                                        i as int,
                                        (px, py),
                                    ) || on_line_prefix(line@, j as int, (px, py)))
                                        ==> #[trigger] self.sprite.spec_pixel(px, py) == prim0@,
                                tool0 is Eraser ==> forall|px: u32, py: u32|
                                    pre.sprite.in_bounds(px, py) && (on_stroke_upto(
                                        pre.last_paint_pos,
                                        response.painted_pixels@,
                                        i as int,
                                        (px, py),
                                    ) || on_line_prefix(line@, j as int, (px, py)))
                                        ==> #[trigger] self.sprite.spec_pixel(px, py)
                                        == transparent(),
                                (tool0 is Pencil || tool0 is Eraser) ==> forall|px: u32, py: u32|
                                    pre.sprite.in_bounds(px, py) && !(on_stroke_upto(
                                        pre.last_paint_pos,
                                        response.painted_pixels@,
                                        i as int,
                                        (px, py),
                                    ) || on_line_prefix(line@, j as int, (px, py)))
                                        ==> #[trigger] self.sprite.spec_pixel(px, py)
                                        == pre.sprite.spec_pixel(px, py),
                            decreases line@.len() - j,
                        {
                            let (px, py) = line[j];
                            let ghost s_before = self.sprite;
                            if px >= 0 && py >= 0 && (px as u32) < self.sprite.width && (py as u32)
                                < self.sprite.height {
                                self.apply_tool_at(px as u32, py as u32);
                            }
                            proof {
                                let jj = j as int;
                                let q = line@[jj];
                                let prev = pre.last_paint_pos;
                                let painted = response.painted_pixels@;
                                if tool0 is Pencil || tool0 is Fill {
                                    assert forall|px2: u32, py2: u32|
                                        pre.sprite.in_bounds(px2, py2) && (on_stroke_upto(
                                            prev,
                                            painted,
                                            i as int,
                                            (px2, py2),
                                        ) || on_line_prefix(line@, jj + 1, (px2, py2)))
                                        implies self.sprite.spec_pixel(px2, py2) == prim0@ by {
                                        if on_line_prefix(line@, jj + 1, (px2, py2))
                                            && !on_line_prefix(line@, jj, (px2, py2)) {
                                            let w = choose|w: int|
                                                0 <= w < jj + 1 && ((#[trigger] line@[w]).0 as int
                                                    == px2 as int) && (line@[w].1 as int
                                                    == py2 as int);
                                            assert(w == jj);
                                            assert(q.0 >= 0 && q.1 >= 0 && (q.0 as u32) == px2
                                                && (q.1 as u32) == py2);
                                        } else {
                                            assert(s_before.spec_pixel(px2, py2) == prim0@);
                                        }
                                    }
                                }
                                if tool0 is Eraser {
                                    assert forall|px2: u32, py2: u32|
                                        pre.sprite.in_bounds(px2, py2) && (on_stroke_upto(
                                            prev,
                                            painted,
                                            i as int,
                                            (px2, py2),
                                        ) || on_line_prefix(line@, jj + 1, (px2, py2)))
                                        implies self.sprite.spec_pixel(px2, py2) == transparent() by {
                                        if on_line_prefix(line@, jj + 1, (px2, py2))
                                            && !on_line_prefix(line@, jj, (px2, py2)) {
                                            let w = choose|w: int|
                                                0 <= w < jj + 1 && ((#[trigger] line@[w]).0 as int
                                                    == px2 as int) && (line@[w].1 as int
                                                    == py2 as int);
                                            assert(w == jj);
                                            assert(q.0 >= 0 && q.1 >= 0 && (q.0 as u32) == px2
                                                && (q.1 as u32) == py2);
                                        } else {
                                            assert(s_before.spec_pixel(px2, py2) == transparent());
                                        }
                                    }
                                }
                                if tool0 is Pencil || tool0 is Eraser {
                                    assert forall|px2: u32, py2: u32|
                                        pre.sprite.in_bounds(px2, py2) && !(on_stroke_upto(
                                            prev,
                                            painted,
                                            i as int,
                                            (px2, py2),
                                        ) || on_line_prefix(line@, jj + 1, (px2, py2)))
                                        implies self.sprite.spec_pixel(px2, py2)
                                        == pre.sprite.spec_pixel(px2, py2) by {
                                        assert(!on_line_prefix(line@, jj, (px2, py2)));
                                        assert(s_before.spec_pixel(px2, py2)
                                            == pre.sprite.spec_pixel(px2, py2));
                                        if q.0 >= 0 && q.1 >= 0 && (q.0 as u32)
                                            < s_before.width && (q.1 as u32) < s_before.height {
                                            if (q.0 as u32) == px2 && (q.1 as u32) == py2 {
                                                assert((line@[jj].0 as int == px2 as int) && (
                                                line@[jj].1 as int == py2 as int));
                                                assert(on_line_prefix(line@, jj + 1, (px2, py2)));
                                                assert(false);
                                            }
                                        }
                                    }
                                }
                            }
                            j += 1;
                        }
                        proof {
                            assert(line@[line@.len() - 1] == (x as i32, y as i32));
                            let prev = pre.last_paint_pos;
                            let painted = response.painted_pixels@;
                            let sl = crate::tools::stroke_line(
                                lx as int,
                                ly as int,
                                x as int,
                                y as int,
                            );
                            let n_line = line@.len() as int;
                            if tool0 is Pencil || tool0 is Fill {
                                assert forall|px2: u32, py2: u32|
                                    pre.sprite.in_bounds(px2, py2) && on_stroke_upto(
                                        prev,
                                        painted,
                                        i as int + 1,
                                        (px2, py2),
                                    ) implies self.sprite.spec_pixel(px2, py2) == prim0@ by {
                                    let k = choose|k: int|
                                        0 <= k < i as int + 1 && #[trigger] on_stroke_segment(
                                            prev,
                                            painted,
                                            k,
                                            (px2, py2),
                                        );
                                    if k == i as int {
                                        assert(sl.contains((px2 as int, py2 as int)));
                                        let idx = choose|idx: int|
                                            0 <= idx < sl.len() && #[trigger] sl[idx] == (
                                            px2 as int,
                                            py2 as int,
                                            );
                                        assert(crate::tools::points_of(line@)[idx] == (
                                        line@[idx].0 as int,
                                        line@[idx].1 as int,
                                        ));
                                        assert(on_line_prefix(line@, n_line, (px2, py2)));
                                    } else {
                                        assert(on_stroke_upto(prev, painted, i as int, (px2, py2)));
                                    }
                                }
                            }
                            if tool0 is Eraser {
                                assert forall|px2: u32, py2: u32|
                                    pre.sprite.in_bounds(px2, py2) && on_stroke_upto(
                                        prev,
                                        painted,
                                        i as int + 1,
                                        (px2, py2),
                                    ) implies self.sprite.spec_pixel(px2, py2) == transparent() by {
                                    let k = choose|k: int|
                                        0 <= k < i as int + 1 && #[trigger] on_stroke_segment(
                                            prev,
                                            painted,
                                            k,
                                            (px2, py2),
                                        );
                                    if k == i as int {
                                        assert(sl.contains((px2 as int, py2 as int)));
                                        let idx = choose|idx: int|
                                            0 <= idx < sl.len() && #[trigger] sl[idx] == (
                                            px2 as int,
                                            py2 as int,
                                            );
                                        assert(crate::tools::points_of(line@)[idx] == (
                                        line@[idx].0 as int,
                                        line@[idx].1 as int,
                                        ));
                                        assert(on_line_prefix(line@, n_line, (px2, py2)));
                                    } else {
                                        assert(on_stroke_upto(prev, painted, i as int, (px2, py2)));
                                    }
                                }
                            }
                            if tool0 is Pencil || tool0 is Eraser {
                                assert forall|px2: u32, py2: u32|
                                    pre.sprite.in_bounds(px2, py2) && !on_stroke_upto(
                                        prev,
                                        painted,
                                        i as int + 1,
                                        (px2, py2),
                                    ) implies self.sprite.spec_pixel(px2, py2)
                                    == pre.sprite.spec_pixel(px2, py2) by {
                                    if on_stroke_upto(prev, painted, i as int, (px2, py2)) {
                                        let k = choose|k: int|
                                            0 <= k < i as int && #[trigger] on_stroke_segment(
                                                prev,
                                                painted,
                                                k,
                                                (px2, py2),
                                            );
                                        assert(on_stroke_upto(prev, painted, i as int + 1, (px2, py2)));
                                        assert(false);
                                    }
                                    if on_line_prefix(line@, n_line, (px2, py2)) {
                                        let w = choose|w: int|
                                            0 <= w < n_line && ((#[trigger] line@[w]).0 as int
                                                == px2 as int) && (line@[w].1 as int
                                                == py2 as int);
                                        assert(crate::tools::points_of(line@)[w] == (
                                        line@[w].0 as int,
                                        line@[w].1 as int,
                                        ));
                                        assert(sl[w] == (px2 as int, py2 as int));
                                        assert(sl.contains((px2 as int, py2 as int)));
                                        assert(on_stroke_segment(prev, painted, i as int, (px2, py2)));
                                        assert(on_stroke_upto(prev, painted, i as int + 1, (px2, py2)));
                                        assert(false);
                                    }
                                }
                            }
                        }
                    },
                    None => {
                        self.apply_tool_at(x, y);
                        proof {
                            let prev = pre.last_paint_pos;
                            let painted = response.painted_pixels@;
                            assert(i == 0);
                            assert(prev is None);
                            if tool0 is Pencil || tool0 is Fill {
                                assert forall|px2: u32, py2: u32|
                                    pre.sprite.in_bounds(px2, py2) && on_stroke_upto(
                                        prev,
                                        painted,
                                        1,
                                        (px2, py2),
                                    ) implies self.sprite.spec_pixel(px2, py2) == prim0@ by {
                                    let k = choose|k: int|
                                        0 <= k < 1 && #[trigger] on_stroke_segment(
                                            prev,
                                            painted,
                                            k,
                                            (px2, py2),
                                        );
                                    assert((px2, py2) == (x, y));
                                }
                            }
                            if tool0 is Eraser {
                                assert forall|px2: u32, py2: u32|
                                    pre.sprite.in_bounds(px2, py2) && on_stroke_upto(
                                        prev,
                                        painted,
                                        1,
                                        (px2, py2),
                                    ) implies self.sprite.spec_pixel(px2, py2) == transparent() by {
                                    let k = choose|k: int|
                                        0 <= k < 1 && #[trigger] on_stroke_segment(
                                            prev,
                                            painted,
                                            k,
                                            (px2, py2),
                                        );
                                    assert((px2, py2) == (x, y));
                                }
                            }
                            if tool0 is Pencil || tool0 is Eraser {
                                assert forall|px2: u32, py2: u32|
                                    pre.sprite.in_bounds(px2, py2) && !on_stroke_upto(
                                        prev,
                                        painted,
                                        1,
                                        (px2, py2),
                                    ) implies self.sprite.spec_pixel(px2, py2)
                                    == pre.sprite.spec_pixel(px2, py2) by {
                                    if px2 == x && py2 == y {
                                        assert(on_stroke_segment(prev, painted, 0, (px2, py2)));
                                        assert(false);
                                    }
                                }
                            }
                        }
                    },
                }
                self.last_paint_pos = Some((x, y));
                i += 1;
            }
        } else {
            self.last_paint_pos = None;
        }
        if let Some(c) = response.picked_color {
            self.primary_color = c;
            self.status = StatusMessage::PickedColor { color: c };
        }
    }
}


/// Whether `c` is a decimal digit.
pub open spec fn is_ascii_digit(c: char) -> bool {
    '0' <= c && c <= '9'
}

/// The numeric value of the digit `c`.
pub open spec fn digit_value(c: char) -> int {
    c as int - '0' as int
}

/// Whether every character of `s` is a decimal digit.
pub open spec fn all_digits(s: Seq<char>) -> bool {
    forall|i: int| 0 <= i < s.len() ==> is_ascii_digit(#[trigger] s[i])
}

/// The number a digit string denotes.
pub open spec fn digits_value(s: Seq<char>) -> int
    decreases s.len(),
{
    if s.len() == 0 {
        0
    } else {
        digits_value(s.drop_last()) * 10 + digit_value(s.last())
    }
}

/// How `str::parse::<u32>` reads a string: an optional leading plus
/// sign, then at least one digit, denoting a value that fits in 32
/// bits; anything else does not parse.
pub open spec fn spec_parse_u32(s: Seq<char>) -> Option<int> {
    let body = if s.len() >= 1 && s[0] == '+' {
        s.subrange(1, s.len() as int)
    } else {
        s
    };
    if body.len() >= 1 && all_digits(body) && digits_value(body) <= u32::MAX {
        Some(digits_value(body))
    } else {
        None
    }
}

/// How a dimension input field is read: a parse failure falls back to
/// 16, and the result is clamped into `[1, 256]`.
pub open spec fn spec_parse_dimension(s: Seq<char>) -> int {
    match spec_parse_u32(s) {
        Some(v) => crate::view::spec_clamp(v, 1, 256),
        None => 16,
    }
}

/// A digit string denotes a non-negative number.
proof fn lemma_digits_nonneg(s: Seq<char>)
    requires
        all_digits(s),
    ensures
        digits_value(s) >= 0,
    decreases s.len(),
{
    if s.len() > 0 {
        assert(all_digits(s.drop_last())) by {
            assert(forall|i: int| 0 <= i < s.len() - 1 ==> s.drop_last()[i] == #[trigger] s[i]);
        }
        lemma_digits_nonneg(s.drop_last());
    }
}

/// Extending a digit string never shrinks its value.
proof fn lemma_digits_prefix_le(s: Seq<char>, n: int)
    requires
        all_digits(s),
        0 <= n <= s.len(),
    ensures
        digits_value(s.subrange(0, n)) <= digits_value(s),
    decreases s.len() - n,
{
    if n < s.len() {
        let t = s.subrange(0, n + 1);
        assert(t.drop_last() =~= s.subrange(0, n));
        assert(all_digits(t)) by {
            assert(forall|i: int| 0 <= i < t.len() ==> t[i] == #[trigger] s[i]);
        }
        lemma_digits_nonneg(t.drop_last());
        assert(digit_value(t.last()) >= 0);
        assert(digits_value(t) >= digits_value(s.subrange(0, n))) by {
            lemma_digits_nonneg(s.subrange(0, n));
        }
        lemma_digits_prefix_le(s, n + 1);
        assert(s.subrange(0, s.len() as int) =~= s);
    } else {
        assert(s.subrange(0, n) =~= s);
    }
}

/// Read a dimension input field: a positive integer, with a fallback of
/// 16 on anything unreadable, clamped into `[1, 256]`.
pub fn parse_dimension(text: &str) -> (r: u32)
    ensures
        r == spec_parse_dimension(text@),
{
    let n = text.unicode_len();
    let start: usize = if n >= 1 && text.get_char(0) == '+' {
        1
    } else {
        0
    };
    let ghost body = if text@.len() >= 1 && text@[0] == '+' {
        text@.subrange(1, text@.len() as int)
    } else {
        text@
    };
    if n == start {
        return 16;
    }
    let mut acc: u64 = 0;
    let mut i: usize = start;
    while i < n
        invariant
            n == text@.len(),
            start <= i <= n,
            start == (if text@.len() >= 1 && text@[0] == '+' {
                1int
            } else {
                0int
            }),
            body == (if text@.len() >= 1 && text@[0] == '+' {
                text@.subrange(1, text@.len() as int)
            } else {
                text@
            }),
            n - start == body.len(),
            forall|k: int| 0 <= k < i - start ==> body[k] == #[trigger] text@[k + start],
            all_digits(body.subrange(0, i - start)),
            acc == digits_value(body.subrange(0, i - start)),
            acc <= u32::MAX,
        decreases n - i,
    {
        let c = text.get_char(i);
        let code = c as u32;
        if code < 48 || code > 57 {
            proof {
                assert(body[i - start] == text@[i as int]);
                assert(!is_ascii_digit(body[i - start]));
                assert(!all_digits(body));
            }
            return 16;
        }
        let d: u64 = (code - 48) as u64;
        let next: u64 = acc * 10 + d;
        proof {
            let prefix2 = body.subrange(0, i - start + 1);
            assert(prefix2.drop_last() =~= body.subrange(0, i - start));
            assert(prefix2.last() == body[i - start]);
            assert(body[i - start] == text@[i as int]);
            assert(is_ascii_digit(prefix2.last()));
            assert(digit_value(prefix2.last()) == d);
            assert(all_digits(prefix2)) by {
                assert(forall|k: int|
                    0 <= k < prefix2.len() - 1 ==> prefix2[k] == #[trigger] prefix2.drop_last()[
                    k]);
            }
        }
        if next > 0xFFFF_FFFF {
            proof {
                let prefix2 = body.subrange(0, i - start + 1);
                if all_digits(body) {
                    lemma_digits_prefix_le(body, i - start + 1);
                }
            }
            return 16;
        }
        acc = next;
        i += 1;
    }
    proof {
        assert(body.subrange(0, body.len() as int) =~= body);
    }
    let v: u32 = acc as u32;
    if v < 1 {
        1
    } else if v > 256 {
        256
    } else {
        v
    }
}

impl EditorSession {
    /// What loading decoded image data does to the session: a decodable
    /// image of a size the editor can hold replaces the sprite and
    /// re-centres the view; undecodable bytes leave the buffer untouched
    /// and report the decode failure; a decodable image of unsupported
    /// dimensions leaves the buffer untouched and reports those
    /// dimensions. Everything else is kept.
    pub open spec fn load_outcome(
        pre: EditorSession,
        post: EditorSession,
        decoded: Option<(u32, u32, Seq<u8>)>,
        from_url: bool,
    ) -> bool {
        &&& (match decoded {
            Some(t) => {
                if 1 <= t.0 <= MAX_DIM && 1 <= t.1 <= MAX_DIM {
                    &&& post.sprite.width == t.0
                    &&& post.sprite.height == t.1
                    &&& post.sprite.pixels@ == t.2
                    &&& post.canvas == (CanvasState {
                        offset_x: 0,
                        offset_y: 0,
                        ..pre.canvas
                    })
                    &&& post.status == (if from_url {
                        StatusMessage::LoadedFromUrl { width: t.0, height: t.1 }
                    } else {
                        StatusMessage::Loaded { width: t.0, height: t.1 }
                    })
                } else {
                    &&& post.sprite == pre.sprite
                    &&& post.canvas == pre.canvas
                    &&& post.status == (StatusMessage::ImageSizeUnsupported {
                        width: t.0,
                        height: t.1,
                    })
                }
            },
            None => {
                &&& post.sprite == pre.sprite
                &&& post.canvas == pre.canvas
                &&& post.status is DecodeFailedFromUrl == from_url
                &&& (post.status is DecodeFailed || post.status is DecodeFailedFromUrl)
            },
        })
        &&& post.current_tool == pre.current_tool
        &&& post.primary_color == pre.primary_color
        &&& post.palette == pre.palette
        &&& post.last_paint_pos == pre.last_paint_pos
        &&& post.show_new_dialog == pre.show_new_dialog
        &&& post.show_url_dialog == pre.show_url_dialog
        &&& post.show_ai_dialog == pre.show_ai_dialog
    }

    /// What a failed URL fetch does to the session: nothing changes but
    /// the status line, which carries the transport error's text.
    pub open spec fn fetch_failed_outcome(
        pre: EditorSession,
        post: EditorSession,
        message: Seq<char>,
    ) -> bool {
        &&& post.sprite == pre.sprite
        &&& post.canvas == pre.canvas
        &&& (post.status matches StatusMessage::FetchError { message: m } && m@ == message)
        &&& post.current_tool == pre.current_tool
        &&& post.primary_color == pre.primary_color
        &&& post.palette == pre.palette
        &&& post.last_paint_pos == pre.last_paint_pos
        &&& post.show_new_dialog == pre.show_new_dialog
        &&& post.show_url_dialog == pre.show_url_dialog
        &&& post.show_ai_dialog == pre.show_ai_dialog
    }

    /// Confirm the new-sprite dialog: read both dimension fields, make
    /// a fresh transparent sprite of that size, re-centre the view and
    /// close the dialog.
    pub fn create_sprite(&mut self, width_text: &str, height_text: &str)
        requires
            old(self).wf(),
        ensures
            final(self).wf(),
            final(self).sprite.width == spec_parse_dimension(width_text@),
            final(self).sprite.height == spec_parse_dimension(height_text@),
            forall|i: int|
                0 <= i < final(self).sprite.pixels@.len() ==> final(self).sprite.pixels@[i] == 0u8,
            final(self).canvas == (CanvasState { offset_x: 0, offset_y: 0, ..old(self).canvas }),
            final(self).status == (StatusMessage::CreatedSprite { width: final(self).sprite.width, height: final(self).sprite.height }),
            final(self).show_new_dialog == false,
            final(self).current_tool == old(self).current_tool,
            final(self).primary_color == old(self).primary_color,
            final(self).palette == old(self).palette,
            final(self).last_paint_pos == old(self).last_paint_pos,
            final(self).show_url_dialog == old(self).show_url_dialog,
            final(self).show_ai_dialog == old(self).show_ai_dialog,
    {
        let w = parse_dimension(width_text);
        let h = parse_dimension(height_text);
        self.sprite = Sprite::new(w, h);
        self.canvas.offset_x = 0;
        self.canvas.offset_y = 0;
        self.status = StatusMessage::CreatedSprite { width: w, height: h };
        self.show_new_dialog = false;
    }

    /// Take over image bytes the host read from a file: on a decodable
    /// image the sprite is replaced and the view re-centred, otherwise
    /// the buffer is left untouched and the failure reported.
    pub fn load_file_data(&mut self, data: &[u8])
        requires
            old(self).wf(),
        ensures
            final(self).wf(),
            EditorSession::load_outcome(*old(self), *final(self), codec::decoded_image_of(data@), false),
    {
        match codec::decode_sprite(data) {
            Ok(sprite) => {
                let w = sprite.width;
                let h = sprite.height;
                self.sprite = sprite;
                self.canvas.offset_x = 0;
                self.canvas.offset_y = 0;
                self.status = StatusMessage::Loaded { width: w, height: h };
            },
            Err(codec::DecodeError::Undecodable) => {
                self.status = StatusMessage::DecodeFailed;
            },
            Err(codec::DecodeError::UnsupportedSize { width, height }) => {
                self.status = StatusMessage::ImageSizeUnsupported { width, height };
            },
        }
    }

    /// Take over the outcome of a URL fetch the host performed: decode
    /// delivered bytes as with a file, report a transport error with
    /// its text, and leave the buffer untouched on any failure.
    pub fn load_url_data(&mut self, fetched: Result<Vec<u8>, String>)
        requires
            old(self).wf(),
        ensures
            final(self).wf(),
            (fetched matches Ok(data) ==> EditorSession::load_outcome(*old(self), *final(self), codec::decoded_image_of(data@), true)),
            (fetched matches Err(message) ==> EditorSession::fetch_failed_outcome(*old(self), *final(self), message@)),
    {
        match fetched {
            Ok(data) => {
                match codec::decode_sprite(data.as_slice()) {
                    Ok(sprite) => {
                        let w = sprite.width;
                        let h = sprite.height;
                        self.sprite = sprite;
                        self.canvas.offset_x = 0;
                        self.canvas.offset_y = 0;
                        self.status = StatusMessage::LoadedFromUrl { width: w, height: h };
                    },
                    Err(codec::DecodeError::Undecodable) => {
                        self.status = StatusMessage::DecodeFailedFromUrl;
                    },
                    Err(codec::DecodeError::UnsupportedSize { width, height }) => {
                        self.status = StatusMessage::ImageSizeUnsupported { width, height };
                    },
                }
            },
            Err(message) => {
                self.status = StatusMessage::FetchError { message };
            },
        }
    }

    /// Record the outcome of a save the host performed.
    pub fn set_save_result(&mut self, saved: bool)
        ensures
            saved ==> final(self).status is SpriteSaved,
            !saved ==> final(self).status is SaveCancelled,
            *final(self) == (EditorSession { status: final(self).status, ..*old(self) }),
    {
        self.status = if saved {
            StatusMessage::SpriteSaved
        } else {
            StatusMessage::SaveCancelled
        };
    }

    /// Confirm the generate dialog: generation has no backend, so only
    /// report that and close the dialog.
    pub fn ai_generate(&mut self)
        ensures
            final(self).status is AiNotConnected,
            final(self).show_ai_dialog == false,
            *final(self) == (EditorSession {
                status: final(self).status,
                show_ai_dialog: false,
                ..*old(self)
            }),
    {
        self.status = StatusMessage::AiNotConnected;
        self.show_ai_dialog = false;
    }
}

/// A keyboard shortcut resolves to opening the palette or to one of the
/// palette's commands.
#[derive(Clone, Copy, PartialEq, Eq, Structural, Debug)]
pub enum ShortcutAction {
    OpenPalette,
    Run(Command),
}

/// The keyboard shortcut table: which action a pressed key resolves to
/// under the given modifiers.
pub open spec fn spec_shortcut_action(key: char, cmd: bool, shift: bool, alt: bool) -> Option<
    ShortcutAction,
> {
    if cmd && shift && key == 'p' {
        Some(ShortcutAction::OpenPalette)
    } else if cmd && !shift && key == 'n' {
        Some(ShortcutAction::Run(Command::NewSprite))
    } else if cmd && !shift && key == 'o' {
        Some(ShortcutAction::Run(Command::OpenFile))
    } else if cmd && !shift && key == 's' {
        Some(ShortcutAction::Run(Command::SaveFile))
    } else if !cmd && !shift && !alt {
        if key == 'p' {
            Some(ShortcutAction::Run(Command::SetPencil))
        } else if key == 'e' {
            Some(ShortcutAction::Run(Command::SetEraser))
        } else if key == 'f' {
            Some(ShortcutAction::Run(Command::SetFill))
        } else if key == 'i' {
            Some(ShortcutAction::Run(Command::SetColorPicker))
        } else if key == 'g' {
            Some(ShortcutAction::Run(Command::ToggleGrid))
        } else if key == 'v' {
            Some(ShortcutAction::Run(Command::ToggleIsometric))
        } else {
            None
        }
    } else {
        None
    }
}

/// Resolve one pressed key (lower case) under its modifiers.
pub fn shortcut_action(key: char, cmd: bool, shift: bool, alt: bool) -> (r: Option<ShortcutAction>)
    ensures
        r == spec_shortcut_action(key, cmd, shift, alt),
{
    if cmd && shift && key == 'p' {
        Some(ShortcutAction::OpenPalette)
    } else if cmd && !shift && key == 'n' {
        Some(ShortcutAction::Run(Command::NewSprite))
    } else if cmd && !shift && key == 'o' {
        Some(ShortcutAction::Run(Command::OpenFile))
    } else if cmd && !shift && key == 's' {
        Some(ShortcutAction::Run(Command::SaveFile))
    } else if !cmd && !shift && !alt {
        if key == 'p' {
            Some(ShortcutAction::Run(Command::SetPencil))
        } else if key == 'e' {
            Some(ShortcutAction::Run(Command::SetEraser))
        } else if key == 'f' {
            Some(ShortcutAction::Run(Command::SetFill))
        } else if key == 'i' {
            Some(ShortcutAction::Run(Command::SetColorPicker))
        } else if key == 'g' {
            Some(ShortcutAction::Run(Command::ToggleGrid))
        } else if key == 'v' {
            Some(ShortcutAction::Run(Command::ToggleIsometric))
        } else {
            None
        }
    } else {
        None
    }
}

} // verus!
