//! The animation of the figure that eats its way along a row of dots.
//!
//! The guest keeps where the figure stands and whether its mouth is open,
//! paints one frame from that, and moves on.

use vstd::prelude::*;
use crate::guest::draw::{draw_pacman, in_pacman, safe_draw};
use crate::guest::oled::{Display, FRAME_BYTES, on_screen};

verus! {

/// The row on which the figure moves.
pub const ROW: i32 = 16;

/// The radius of the figure.
pub const RADIUS: i32 = 10;

/// Milliseconds between two frames.
pub const FRAME_MS: u32 = 16;

/// The column of the `k`-th dot: they stand 15 apart, from column 10 on.
pub open spec fn dot_column(k: int) -> int {
    10 + 15 * k
}

/// Whether `(px, py)` belongs to the `k`-th dot while the figure stands at
/// column `x`: a dot is two by two pixels, and is there as long as the
/// figure has not come within five columns of it.
pub open spec fn in_dot(px: int, py: int, k: int, x: int) -> bool {
    &&& dot_column(k) > x + 5
    &&& px == dot_column(k) || px == dot_column(k) + 1
    &&& py == ROW || py == ROW + 1
}

/// Whether `(px, py)` belongs to one of the first `count` dots.
pub open spec fn in_dots(px: int, py: int, x: int, count: int) -> bool {
    exists|k: int| 0 <= k < count && in_dot(px, py, k, x)
}

/// Whether `(px, py)` is lit in the frame of the scene: eight dots, and the
/// figure.
pub open spec fn in_scene(px: int, py: int, x: int, mouth_open: bool) -> bool {
    in_dots(px, py, x, 8) || in_pacman(px, py, x, ROW as int, RADIUS as int, mouth_open)
}

/// The animation: where the figure stands, whether its mouth is open, and
/// how many frames it has been so.
#[derive(Clone, Copy, Debug, PartialEq, Eq)]
pub struct PacmanApp {
    x: i32,
    mouth_open: bool,
    frame: u8,
}

/// The animation as a mathematical value.
pub struct SceneView {
    pub x: int,
    pub mouth_open: bool,
    /// Frames shown, counted modulo four.
    pub frame: int,
}

impl SceneView {
    /// The states the animation can be in.
    pub open spec fn wf(self) -> bool {
        -15 <= self.x <= 143 && 0 <= self.frame < 4
    }

    /// The next frame: the figure moves two columns and comes back in from
    /// the left once it has left the screen on the right; every fourth
    /// frame the mouth opens or shuts.
    pub open spec fn next(self) -> SceneView {
        SceneView {
            x: if self.x + 2 > 128 + 15 {
                -15
            } else {
                self.x + 2
            },
            mouth_open: if (self.frame + 1) % 4 == 0 {
                !self.mouth_open
            } else {
                self.mouth_open
            },
            frame: (self.frame + 1) % 4,
        }
    }
}

impl View for PacmanApp {
    type V = SceneView;

    closed spec fn view(&self) -> SceneView {
        SceneView { x: self.x as int, mouth_open: self.mouth_open, frame: self.frame as int }
    }
}

impl PacmanApp {
    #[verifier::type_invariant]
    spec fn inv(self) -> bool {
        self@.wf()
    }

    /// The animation at its start: the figure at the left edge, mouth open.
    pub fn new() -> (app: PacmanApp)
        ensures
            app@ == (SceneView { x: 0, mouth_open: true, frame: 0 }),
    {
        PacmanApp { x: 0, mouth_open: true, frame: 0 }
    }

    /// The column at which the figure stands.
    pub fn x(&self) -> (x: i32)
        ensures
            x == self@.x,
            self@.wf(),
    {
        proof {
            use_type_invariant(self);
        }
        self.x
    }

    /// Whether the mouth is open.
    pub fn mouth_open(&self) -> (open: bool)
        ensures
            open == self@.mouth_open,
    {
        self.mouth_open
    }

    /// Paints the frame of the scene into the memory of the display, over
    /// whatever was there. The display is on.
    pub fn draw(&self, d: &mut Display)
        requires
            old(d)@.is_on,
        ensures
            final(d)@.is_on,
            final(d)@.frame.len() == FRAME_BYTES,
            forall|px: int, py: int| #![trigger final(d)@.lit(px, py)]
                on_screen(px, py) ==> final(d)@.lit(px, py) == in_scene(
                    px,
                    py,
                    self@.x,
                    self@.mouth_open,
                ),
    {
        proof {
            use_type_invariant(self);
        }
        let cleared = d.clear();
        let ghost dark = d@;
        let x = self.x;
        let mut k: i32 = 0;
        while k < 8
            invariant
                0 <= k <= 8,
                -15 <= x <= 143,
                d@.is_on,
                d@.frame.len() == dark.frame.len(),
                forall|px: int, py: int| #![trigger dark.lit(px, py)]
                    on_screen(px, py) ==> !dark.lit(px, py),
                forall|px: int, py: int| #![trigger d@.lit(px, py)]
                    on_screen(px, py) ==> d@.lit(px, py) == in_dots(px, py, x as int, k as int),
            decreases 8 - k,
        {
            let dot_x: i32 = 10 + 15 * k;
            let ghost before = d@;
            if dot_x > x + 5 {
                safe_draw(d, dot_x, ROW);
                safe_draw(d, dot_x + 1, ROW);
                safe_draw(d, dot_x, ROW + 1);
                safe_draw(d, dot_x + 1, ROW + 1);
            }
            proof {
                assert forall|px: int, py: int| #![trigger d@.lit(px, py)]
                    on_screen(px, py) implies d@.lit(px, py) == in_dots(
                    px,
                    py,
                    x as int,
                    k + 1,
                ) by {
                    assert(d@.lit(px, py) == (before.lit(px, py) || in_dot(
                        px,
                        py,
                        k as int,
                        x as int,
                    )));
                    assert(before.lit(px, py) == in_dots(px, py, x as int, k as int));
                    if in_dots(px, py, x as int, k + 1) {
                        let w = choose|w: int| 0 <= w < k + 1 && in_dot(px, py, w, x as int);
                        if w < k {
                            assert(in_dots(px, py, x as int, k as int));
                        }
                    }
                    if in_dots(px, py, x as int, k as int) {
                        let w = choose|w: int| 0 <= w < k && in_dot(px, py, w, x as int);
                        assert(0 <= w < k + 1 && in_dot(px, py, w, x as int));
                    }
                    if in_dot(px, py, k as int, x as int) {
                        assert(0 <= k < k + 1 && in_dot(px, py, k as int, x as int));
                    }
                }
            }
            k += 1;
        }
        draw_pacman(d, x, ROW, RADIUS, self.mouth_open);
    }

    /// Moves on to the next frame.
    pub fn advance(&mut self)
        ensures
            old(self)@.wf(),
            final(self)@ == old(self)@.next(),
            final(self)@.wf(),
    {
        proof {
            use_type_invariant(&*self);
        }
        let x: i32 = if self.x + 2 > 128 + 15 {
            -15
        } else {
            self.x + 2
        };
        let frame: u8 = (self.frame + 1) % 4;
        let mouth_open = if frame == 0 {
            !self.mouth_open
        } else {
            self.mouth_open
        };
        *self = PacmanApp { x, mouth_open, frame };
    }
}

/// The figure never leaves the band from fifteen columns left of the screen
/// to fifteen columns right of it: a frame moves it two columns to the right
/// or back to the left end.
pub proof fn lemma_scene_stays_in_band(scene: SceneView)
    requires
        scene.wf(),
    ensures
        scene.next().wf(),
        scene.next().x == -15 || scene.next().x == scene.x + 2,
{
}

} // verus!
