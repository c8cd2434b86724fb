//! Editing tools and the integer line rasterizer used for stroke
//! interpolation.

use vstd::prelude::*;

verus! {

/// The four editing tools. Selection is single and exclusive.
#[derive(Clone, Copy, PartialEq, Eq, Structural, Debug)]
pub enum Tool {
    Pencil,
    Eraser,
    Fill,
    ColorPicker,
}

impl Tool {
    /// Display name of the tool.
    pub fn name(&self) -> (r: &'static str)
        ensures
            r@ == match *self {
                Tool::Pencil => "Pencil"@,
                Tool::Eraser => "Eraser"@,
                Tool::Fill => "Fill"@,
                Tool::ColorPicker => "Pick Color"@,
            },
    {
        match self {
            Tool::Pencil => "Pencil",
            Tool::Eraser => "Eraser",
            Tool::Fill => "Fill",
            Tool::ColorPicker => "Pick Color",
        }
    }

    /// Keyboard shortcut label of the tool.
    pub fn shortcut(&self) -> (r: &'static str)
        ensures
            r@ == match *self {
                Tool::Pencil => "P"@,
                Tool::Eraser => "E"@,
                Tool::Fill => "F"@,
                Tool::ColorPicker => "I"@,
            },
    {
        match self {
            Tool::Pencil => "P",
            Tool::Eraser => "E",
            Tool::Fill => "F",
            Tool::ColorPicker => "I",
        }
    }

    /// Toolbar icon of the tool.
    pub fn icon(&self) -> (r: &'static str)
        ensures
            r@ == match *self {
                Tool::Pencil => "\u{270F}"@,
                Tool::Eraser => "\u{2B1C}"@,
                Tool::Fill => "\u{2B24}"@,
                Tool::ColorPicker => "\u{25C9}"@,
            },
    {
        match self {
            Tool::Pencil => "\u{270F}",
            Tool::Eraser => "\u{2B1C}",
            Tool::Fill => "\u{2B24}",
            Tool::ColorPicker => "\u{25C9}",
        }
    }
}

/// Coordinate bound under which the line rasterizer is free of overflow.
pub const LINE_COORD_BOUND: i32 = 0x10_0000;

/// Horizontal step direction of a line from `x0` to `x1`.
pub open spec fn step_x(x0: int, x1: int) -> int {
    if x0 < x1 {
        1
    } else {
        -1
    }
}

/// The larger of the two axis spans of a line, the number of steps the
/// rasterizer takes.
pub open spec fn line_steps(x0: int, y0: int, x1: int, y1: int) -> int {
    let dx = if x1 >= x0 {
        x1 - x0
    } else {
        x0 - x1
    };
    let dy = if y1 >= y0 {
        y1 - y0
    } else {
        y0 - y1
    };
    if dx >= dy {
        dx
    } else {
        dy
    }
}


/// The points the rasterizer emits, as a sequence of integer pairs: the
/// current point, then the rest of the walk after one error-accumulation
/// step. The fuel bounds the recursion; the rasterizer always reaches
/// the endpoint before the fuel that `stroke_line` supplies runs out.
pub open spec fn line_rec(
    fuel: nat,
    x: int,
    y: int,
    x1: int,
    y1: int,
    err: int,
    dx: int,
    dy: int,
    sx: int,
    sy: int,
) -> Seq<(int, int)>
    decreases fuel,
{
    if x == x1 && y == y1 {
        seq![(x, y)]
    } else if fuel == 0 {
        seq![(x, y)]
    } else {
        let e2 = 2 * err;
        let nerr = err + (if e2 >= dy {
            dy
        } else {
            0
        }) + (if e2 <= dx {
            dx
        } else {
            0
        });
        let nx = if e2 >= dy {
            x + sx
        } else {
            x
        };
        let ny = if e2 <= dx {
            y + sy
        } else {
            y
        };
        seq![(x, y)] + line_rec((fuel - 1) as nat, nx, ny, x1, y1, nerr, dx, dy, sx, sy)
    }
}

/// The exact rasterized line between two points, as `line_pixels` walks
/// it.
pub open spec fn stroke_line(x0: int, y0: int, x1: int, y1: int) -> Seq<(int, int)> {
    let dx = if x1 >= x0 {
        x1 - x0
    } else {
        x0 - x1
    };
    let dy = if y1 >= y0 {
        y0 - y1
    } else {
        y1 - y0
    };
    line_rec((dx - dy + 1) as nat, x0, y0, x1, y1, dx + dy, dx, dy, step_x(x0, x1), step_x(y0, y1))
}

/// A sequence of machine-integer points as mathematical-integer pairs.
pub open spec fn points_of(s: Seq<(i32, i32)>) -> Seq<(int, int)> {
    s.map_values(|p: (i32, i32)| (p.0 as int, p.1 as int))
}

/// All pixels along the straight line between two points, by integer
/// error accumulation: the dominant axis advances one pixel per step,
/// the other axis when the accumulated error crosses the threshold.
///
/// The result starts at `(x0, y0)`, ends at `(x1, y1)`, stays inside the
/// bounding box of the endpoints, has exactly one entry per dominant-axis
/// step, and every entry moves by at most one pixel per axis, never away
/// from the endpoint.
#[verifier::rlimit(100)]
pub fn line_pixels(x0: i32, y0: i32, x1: i32, y1: i32) -> (r: Vec<(i32, i32)>)
    requires
        -LINE_COORD_BOUND <= x0 <= LINE_COORD_BOUND,
        -LINE_COORD_BOUND <= y0 <= LINE_COORD_BOUND,
        -LINE_COORD_BOUND <= x1 <= LINE_COORD_BOUND,
        -LINE_COORD_BOUND <= y1 <= LINE_COORD_BOUND,
    ensures
        points_of(r@) == stroke_line(x0 as int, y0 as int, x1 as int, y1 as int),
        r@.len() == line_steps(x0 as int, y0 as int, x1 as int, y1 as int) + 1,
        r@[0] == (x0, y0),
        r@[r@.len() - 1] == (x1, y1),
        forall|i: int|
            0 <= i < r@.len() ==> {
                let p = #[trigger] r@[i];
                &&& (if x0 <= x1 {
                    x0 <= p.0 <= x1
                } else {
                    x1 <= p.0 <= x0
                })
                &&& (if y0 <= y1 {
                    y0 <= p.1 <= y1
                } else {
                    y1 <= p.1 <= y0
                })
            },
        forall|i: int|
            0 <= i < r@.len() - 1 ==> {
                let p = #[trigger] r@[i];
                let q = r@[i + 1];
                &&& (q.0 == p.0 || q.0 == p.0 + step_x(x0 as int, x1 as int))
                &&& (q.1 == p.1 || q.1 == p.1 + step_x(y0 as int, y1 as int))
                &&& !(q.0 == p.0 && q.1 == p.1)
            },
{
    let mut pixels: Vec<(i32, i32)> = Vec::new();
    let dx: i32 = if x1 >= x0 {
        x1 - x0
    } else {
        x0 - x1
    };
    let dy: i32 = if y1 >= y0 {
        y0 - y1
    } else {
        y1 - y0
    };
    let sx: i32 = if x0 < x1 {
        1
    } else {
        -1
    };
    let sy: i32 = if y0 < y1 {
        1
    } else {
        -1
    };
    let mut err: i32 = dx + dy;
    let mut x: i32 = x0;
    let mut y: i32 = y0;
    let ghost mut a: int = 0;
    let ghost mut b: int = 0;
    loop
        invariant_except_break
            dx >= -dy ==> a == pixels@.len() && 2 * err >= dy,
            dx < -dy ==> b == pixels@.len() && 2 * err <= dx,
            a <= pixels@.len() && b <= pixels@.len(),
            a + b >= pixels@.len(),
            stroke_line(x0 as int, y0 as int, x1 as int, y1 as int) == points_of(pixels@)
                + line_rec(
                (dx - dy + 1 - pixels@.len()) as nat,
                x as int,
                y as int,
                x1 as int,
                y1 as int,
                err as int,
                dx as int,
                dy as int,
                sx as int,
                sy as int,
            ),
            pixels@.len() > 0 ==> {
                let p = pixels@[pixels@.len() - 1];
                &&& (x == p.0 || x == p.0 + step_x(x0 as int, x1 as int))
                &&& (y == p.1 || y == p.1 + step_x(y0 as int, y1 as int))
                &&& !(x == p.0 && y == p.1)
            },
        invariant
            dx == (if x1 >= x0 {
                x1 - x0
            } else {
                x0 - x1
            }),
            dy == (if y1 >= y0 {
                y0 - y1
            } else {
                y1 - y0
            }),
            sx == step_x(x0 as int, x1 as int),
            sy == step_x(y0 as int, y1 as int),
            -LINE_COORD_BOUND <= x0 <= LINE_COORD_BOUND,
            -LINE_COORD_BOUND <= y0 <= LINE_COORD_BOUND,
            -LINE_COORD_BOUND <= x1 <= LINE_COORD_BOUND,
            -LINE_COORD_BOUND <= y1 <= LINE_COORD_BOUND,
            0 <= a <= dx,
            0 <= b <= -dy,
            x == x0 + sx * a,
            y == y0 + sy * b,
            err == dx + dy + a * dy + b * dx,
            3 * dy <= 2 * err <= 3 * dx,
            pixels@.len() > 0 ==> pixels@[0] == (x0, y0),
            forall|i: int|
                0 <= i < pixels@.len() ==> {
                    let p = #[trigger] pixels@[i];
                    &&& (if x0 <= x1 {
                        x0 <= p.0 <= x1
                    } else {
                        x1 <= p.0 <= x0
                    })
                    &&& (if y0 <= y1 {
                        y0 <= p.1 <= y1
                    } else {
                        y1 <= p.1 <= y0
                    })
                },
            forall|i: int|
                0 <= i < pixels@.len() - 1 ==> {
                    let p = #[trigger] pixels@[i];
                    let q = pixels@[i + 1];
                    &&& (q.0 == p.0 || q.0 == p.0 + step_x(x0 as int, x1 as int))
                    &&& (q.1 == p.1 || q.1 == p.1 + step_x(y0 as int, y1 as int))
                    &&& !(q.0 == p.0 && q.1 == p.1)
                },
        ensures
            points_of(pixels@) == stroke_line(x0 as int, y0 as int, x1 as int, y1 as int),
            pixels@.len() == line_steps(x0 as int, y0 as int, x1 as int, y1 as int) + 1,
            pixels@[0] == (x0, y0),
            pixels@[pixels@.len() - 1] == (x1, y1),
            forall|i: int|
                0 <= i < pixels@.len() ==> {
                    let p = #[trigger] pixels@[i];
                    &&& (if x0 <= x1 {
                        x0 <= p.0 <= x1
                    } else {
                        x1 <= p.0 <= x0
                    })
                    &&& (if y0 <= y1 {
                        y0 <= p.1 <= y1
                    } else {
                        y1 <= p.1 <= y0
                    })
                },
            forall|i: int|
                0 <= i < pixels@.len() - 1 ==> {
                    let p = #[trigger] pixels@[i];
                    let q = pixels@[i + 1];
                    &&& (q.0 == p.0 || q.0 == p.0 + step_x(x0 as int, x1 as int))
                    &&& (q.1 == p.1 || q.1 == p.1 + step_x(y0 as int, y1 as int))
                    &&& !(q.0 == p.0 && q.1 == p.1)
                },
        decreases (dx - a) + (-dy - b),
    {
        pixels.push((x, y));
        if x == x1 && y == y1 {
            proof {
                assert(a == dx && b == -dy) by (nonlinear_arith)
                    requires
                        x == x0 + sx * a,
                        y == y0 + sy * b,
                        x == x1,
                        y == y1,
                        sx == step_x(x0 as int, x1 as int),
                        sy == step_x(y0 as int, y1 as int),
                        dx == (if x1 >= x0 {
                            x1 - x0
                        } else {
                            x0 - x1
                        }),
                        dy == (if y1 >= y0 {
                            y0 - y1
                        } else {
                            y1 - y0
                        }),
                        0 <= a <= dx,
                        0 <= b <= -dy,
                ;
            }
            break ;
        }
        proof {
            // The two step conditions cannot both fail, and a step never
            // leaves the bounding box of the endpoints.
            if !(2 * err >= dy) && !(2 * err <= dx) {
                assert(false);
            }
            if a == dx && b < -dy {
                // The horizontal span is exhausted: the error term has sunk
                // so low that only the vertical axis can advance.
                assert(2 * (dx + dy + dx * dy + b * dx) < dy) by (nonlinear_arith)
                    requires
                        0 <= b < -dy,
                        0 <= dx,
                        dy <= 0,
                ;
            }
            if b == -dy && a < dx {
                assert(2 * (dx + dy + a * dy + (-dy) * dx) > dx) by (nonlinear_arith)
                    requires
                        0 <= a < dx,
                        dy <= 0,
                ;
            }
            if a == dx && b == -dy {
                // Both spans exhausted means the endpoint was reached.
                assert(x == x1 && y == y1) by (nonlinear_arith)
                    requires
                        x == x0 + sx * a,
                        y == y0 + sy * b,
                        sx == step_x(x0 as int, x1 as int),
                        sy == step_x(y0 as int, y1 as int),
                        dx == (if x1 >= x0 {
                            x1 - x0
                        } else {
                            x0 - x1
                        }),
                        dy == (if y1 >= y0 {
                            y0 - y1
                        } else {
                            y1 - y0
                        }),
                        a == dx,
                        b == -dy,
                ;
                assert(false);
            }
        }
        let e2: i32 = 2 * err;
        let ghost old_err = err as int;
        let ghost stepped_x = e2 >= dy;
        let ghost stepped_y = e2 <= dx;
        if e2 >= dy {
            err = err + dy;
            x = x + sx;
            proof {
                a = a + 1;
            }
        }
        if e2 <= dx {
            err = err + dx;
            y = y + sy;
            proof {
                b = b + 1;
            }
        }
        proof {
            assert(err == dx + dy + a * dy + b * dx) by (nonlinear_arith)
                requires
                    (stepped_x && stepped_y) ==> err == old_err + dy + dx && a == (a - 1) + 1,
                    old_err == dx + dy + (if stepped_x {
                        a - 1
                    } else {
                        a
                    }) * dy + (if stepped_y {
                        b - 1
                    } else {
                        b
                    }) * dx,
                    (stepped_x && !stepped_y) ==> err == old_err + dy,
                    (!stepped_x && stepped_y) ==> err == old_err + dx,
                    stepped_x || stepped_y,
            ;
            assert(x == x0 + sx * a && y == y0 + sy * b) by (nonlinear_arith)
                requires
                    stepped_x ==> x == x0 + sx * (a - 1) + sx,
                    !stepped_x ==> x == x0 + sx * a,
                    stepped_y ==> y == y0 + sy * (b - 1) + sy,
                    !stepped_y ==> y == y0 + sy * b,
            ;
        }
    }
    pixels
}

} // verus!
