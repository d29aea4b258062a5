//! Presentation of frames on a surface.

use vstd::prelude::*;

verus! {

/// A rectangle of pixels.
#[derive(Debug, Clone, Copy, PartialEq, Eq, Structural)]
pub struct Rect {
    pub x: u32,
    pub y: u32,
    pub width: u32,
    pub height: u32,
}

impl Rect {
    /// A pixel lies in the rectangle.
    pub open spec fn holds(self, px: int, py: int) -> bool {
        self.x <= px < self.x + self.width && self.y <= py < self.y + self.height
    }

    /// The part of this rectangle that lies within a target; `None` where no
    /// pixel does.
    pub open spec fn clip(self, target_width: u32, target_height: u32) -> Option<Rect> {
        if self.width > 0 && self.height > 0 && self.x < target_width && self.y < target_height {
            Some(
                Rect {
                    width: if self.x + self.width <= target_width {
                        self.width
                    } else {
                        (target_width - self.x) as u32
                    },
                    height: if self.y + self.height <= target_height {
                        self.height
                    } else {
                        (target_height - self.y) as u32
                    },
                    ..self
                },
            )
        } else {
            None
        }
    }

    /// The part of this rectangle that lies within a target; `None` where no
    /// pixel does.
    pub fn clipped(self, target_width: u32, target_height: u32) -> (res: Option<Rect>)
        ensures
            res == self.clip(target_width, target_height),
    {
        let x: u32 = if self.x < target_width {
            self.x
        } else {
            target_width
        };
        let y: u32 = if self.y < target_height {
            self.y
        } else {
            target_height
        };
        let room_x: u32 = target_width - x;
        let room_y: u32 = target_height - y;
        let width: u32 = if self.width < room_x {
            self.width
        } else {
            room_x
        };
        let height: u32 = if self.height < room_y {
            self.height
        } else {
            room_y
        };
        if width == 0 || height == 0 {
            None
        } else {
            Some(Rect { x, y, width, height })
        }
    }
}

/// What is drawn of a rectangle is exactly its pixels that lie within the
/// target.
pub proof fn law_clip_keeps_the_pixels_within(
    r: Rect,
    target_width: u32,
    target_height: u32,
    px: int,
    py: int,
)
    ensures
        (r.holds(px, py) && px < target_width && py < target_height) <==> (r.clip(
            target_width,
            target_height,
        ) matches Some(c) && c.holds(px, py)),
{
}

/// The draws of a frame: of the first `n` rectangles, each that shows,
/// clipped to the target, with its place in the list.
pub open spec fn planned(draws: Seq<Rect>, width: u32, height: u32, n: int) -> Seq<(usize, Rect)>
    decreases n,
{
    if n <= 0 {
        Seq::empty()
    } else {
        let before = planned(draws, width, height, n - 1);
        match draws[n - 1].clip(width, height) {
            Some(r) => before.push(((n - 1) as usize, r)),
            None => before,
        }
    }
}

/// The draws of a frame, in order: each rectangle that shows, clipped to the
/// target, with its place in the list.
pub fn plan_draws(draws: &Vec<Rect>, target_width: u32, target_height: u32) -> (res: Vec<
    (usize, Rect),
>)
    ensures
        res@ == planned(draws@, target_width, target_height, draws.len() as int),
{
    let mut res: Vec<(usize, Rect)> = Vec::new();
    let mut i: usize = 0;
    while i < draws.len()
        invariant
            i <= draws.len(),
            res@ == planned(draws@, target_width, target_height, i as int),
        decreases draws.len() - i,
    {
        if let Some(r) = draws[i].clipped(target_width, target_height) {
            res.push((i, r));
        }
        i += 1;
    }
    res
}

/// The size that a surface is configured for: at least one pixel each way.
pub fn surface_size(width: u32, height: u32) -> (res: (u32, u32))
    ensures
        res.0 == if width > 1 { width } else { 1 },
        res.1 == if height > 1 { height } else { 1 },
{
    (
        if width > 1 {
            width
        } else {
            1
        },
        if height > 1 {
            height
        } else {
            1
        },
    )
}

/// The format that a surface is configured with, as its place among those
/// that it can have: the first in the standard colour space, or else the
/// first.
pub fn choose_format(srgb: &Vec<bool>) -> (res: usize)
    requires
        srgb.len() > 0,
    ensures
        res < srgb.len(),
        srgb@[res as int] ==> forall|i: int| 0 <= i < res ==> !#[trigger] srgb@[i],
        !srgb@[res as int] ==> res == 0 && forall|i: int|
            0 <= i < srgb.len() ==> !#[trigger] srgb@[i],
{
    let mut i: usize = 0;
    while i < srgb.len()
        invariant
            i <= srgb.len(),
            forall|j: int| 0 <= j < i ==> !#[trigger] srgb@[j],
        decreases srgb.len() - i,
    {
        if srgb[i] {
            return i;
        }
        i += 1;
    }
    0
}

/// How a surface treats the alpha of its pixels.
#[derive(Debug, Clone, Copy, PartialEq, Eq, Structural)]
pub enum AlphaMode {
    Auto,
    Opaque,
    PreMultiplied,
    PostMultiplied,
    Inherit,
}

/// The mode that a surface is configured with: the first among those that it
/// can have that blends, or else the first, or else the opaque one.
pub open spec fn alpha_mode_from(modes: Seq<AlphaMode>, i: int) -> AlphaMode
    decreases modes.len() - i,
{
    if 0 <= i < modes.len() {
        if modes[i] is PreMultiplied || modes[i] is PostMultiplied {
            modes[i]
        } else {
            alpha_mode_from(modes, i + 1)
        }
    } else if modes.len() > 0 {
        modes[0]
    } else {
        AlphaMode::Opaque
    }
}

/// The mode that a surface is configured with.
pub fn choose_alpha_mode(modes: &Vec<AlphaMode>) -> (res: AlphaMode)
    ensures
        res == alpha_mode_from(modes@, 0),
{
    let mut i: usize = 0;
    while i < modes.len()
        invariant
            i <= modes.len(),
            alpha_mode_from(modes@, i as int) == alpha_mode_from(modes@, 0),
        decreases modes.len() - i,
    {
        let mode = modes[i];
        if mode == AlphaMode::PreMultiplied || mode == AlphaMode::PostMultiplied {
            return mode;
        }
        i += 1;
    }
    if modes.len() > 0 {
        modes[0]
    } else {
        AlphaMode::Opaque
    }
}

/// What came of asking a surface for its next frame.
#[derive(Debug, Clone, Copy, PartialEq, Eq, Structural)]
pub enum SurfaceStatus {
    Success,
    Suboptimal,
    Timeout,
    Occluded,
    Outdated,
    Lost,
    Validation,
}

/// How presentation goes on.
#[derive(Debug, Clone, Copy, PartialEq, Eq, Structural)]
pub enum PresentStep {
    /// Draw into the frame and present it.
    Draw,
    /// Configure the surface again and ask once more.
    Reconfigure,
    /// Nothing is presented now; whether the host is to try again.
    Stop { retry: bool },
}

/// How presentation goes on with what came of asking for a frame, and whether
/// the surface has been configured again since the frame was begun.
pub open spec fn next_step(status: SurfaceStatus, reconfigured: bool) -> PresentStep {
    match status {
        SurfaceStatus::Success | SurfaceStatus::Suboptimal => PresentStep::Draw,
        SurfaceStatus::Timeout | SurfaceStatus::Occluded => PresentStep::Stop { retry: true },
        SurfaceStatus::Outdated | SurfaceStatus::Lost => if reconfigured {
            PresentStep::Stop { retry: true }
        } else {
            PresentStep::Reconfigure
        },
        SurfaceStatus::Validation => PresentStep::Stop { retry: false },
    }
}

/// How presentation goes on with what came of asking for a frame. A surface
/// that is outdated or lost is configured again once.
pub fn present_step(status: SurfaceStatus, reconfigured: bool) -> (res: PresentStep)
    ensures
        res == next_step(status, reconfigured),
        res == match status {
            SurfaceStatus::Success | SurfaceStatus::Suboptimal => PresentStep::Draw,
            SurfaceStatus::Timeout | SurfaceStatus::Occluded => PresentStep::Stop { retry: true },
            SurfaceStatus::Outdated | SurfaceStatus::Lost => if reconfigured {
                PresentStep::Stop { retry: true }
            } else {
                PresentStep::Reconfigure
            },
            SurfaceStatus::Validation => PresentStep::Stop { retry: false },
        },
{
    match status {
        SurfaceStatus::Success | SurfaceStatus::Suboptimal => PresentStep::Draw,
        SurfaceStatus::Timeout | SurfaceStatus::Occluded => PresentStep::Stop { retry: true },
        SurfaceStatus::Outdated | SurfaceStatus::Lost => if reconfigured {
            PresentStep::Stop { retry: true }
        } else {
            PresentStep::Reconfigure
        },
        SurfaceStatus::Validation => PresentStep::Stop { retry: false },
    }
}

/// Whether the host is to try again after drawing. A frame without draws is
/// presented as it is.
pub fn retry_after_draw(draw_count: usize, drawn: bool) -> (res: bool)
    ensures
        res == (draw_count > 0 && !drawn),
{
    draw_count > 0 && !drawn
}

} // verus!
