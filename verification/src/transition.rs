//! Kinds of visual transition between clips, each rendered by a named ffmpeg `xfade` effect.
use vstd::prelude::*;

verus! {

/// A visual transition between two clips, applied at the leading edge of the clip that carries it.
#[derive(Clone, Copy, Debug, PartialEq, Eq, Structural)]
pub enum TransitionKind {
    /// Gentle dissolve between the two pictures.
    CrossFade,
    /// Fade out to black, then fade the next picture in.
    DipToBlack,
    /// Fade out to white, then fade the next picture in.
    DipToWhite,
    WipeLeft,
    WipeRight,
    WipeUp,
    WipeDown,
    SlideLeft,
    SlideRight,
    SlideUp,
    SlideDown,
    /// Round iris growing to fill the screen.
    CircleOpen,
    CircleClose,
    Radial,
    ZoomIn,
    SqueezeHorizontal,
    SmoothLeft,
    Pixelate,
}

impl TransitionKind {
    /// Icon of the transition.
    pub fn icon(&self) -> (r: &'static str)
        ensures
            r == match *self {
                TransitionKind::CrossFade => "🔀",
                TransitionKind::DipToBlack => "⬛",
                TransitionKind::DipToWhite => "⬜",
                TransitionKind::WipeLeft => "⬅️",
                TransitionKind::WipeRight => "➡️",
                TransitionKind::WipeUp => "⬆️",
                TransitionKind::WipeDown => "⬇️",
                TransitionKind::SlideLeft => "◀️",
                TransitionKind::SlideRight => "▶️",
                TransitionKind::SlideUp => "🔼",
                TransitionKind::SlideDown => "🔽",
                TransitionKind::CircleOpen => "⭕",
                TransitionKind::CircleClose => "🔘",
                TransitionKind::Radial => "🕐",
                TransitionKind::ZoomIn => "🔍",
                TransitionKind::SqueezeHorizontal => "↔️",
                TransitionKind::SmoothLeft => "💫",
                TransitionKind::Pixelate => "👾",
            },
    {
        match self {
            TransitionKind::CrossFade => "🔀",
            TransitionKind::DipToBlack => "⬛",
            TransitionKind::DipToWhite => "⬜",
            TransitionKind::WipeLeft => "⬅️",
            TransitionKind::WipeRight => "➡️",
            TransitionKind::WipeUp => "⬆️",
            TransitionKind::WipeDown => "⬇️",
            TransitionKind::SlideLeft => "◀️",
            TransitionKind::SlideRight => "▶️",
            TransitionKind::SlideUp => "🔼",
            TransitionKind::SlideDown => "🔽",
            TransitionKind::CircleOpen => "⭕",
            TransitionKind::CircleClose => "🔘",
            TransitionKind::Radial => "🕐",
            TransitionKind::ZoomIn => "🔍",
            TransitionKind::SqueezeHorizontal => "↔️",
            TransitionKind::SmoothLeft => "💫",
            TransitionKind::Pixelate => "👾",
        }
    }

    /// Menu label of the transition.
    pub fn label(&self) -> (r: &'static str)
        ensures
            r == match *self {
                TransitionKind::CrossFade => "Cross Fade",
                TransitionKind::DipToBlack => "Dip to Black",
                TransitionKind::DipToWhite => "Dip to White",
                TransitionKind::WipeLeft => "Wipe Left",
                TransitionKind::WipeRight => "Wipe Right",
                TransitionKind::WipeUp => "Wipe Up",
                TransitionKind::WipeDown => "Wipe Down",
                TransitionKind::SlideLeft => "Slide Left",
                TransitionKind::SlideRight => "Slide Right",
                TransitionKind::SlideUp => "Slide Up",
                TransitionKind::SlideDown => "Slide Down",
                TransitionKind::CircleOpen => "Circle / Box Open",
                TransitionKind::CircleClose => "Circle Close",
                TransitionKind::Radial => "Radial",
                TransitionKind::ZoomIn => "Zoom In",
                TransitionKind::SqueezeHorizontal => "Squeeze Horizontal",
                TransitionKind::SmoothLeft => "Smooth Slide",
                TransitionKind::Pixelate => "Pixelate",
            },
    {
        match self {
            TransitionKind::CrossFade => "Cross Fade",
            TransitionKind::DipToBlack => "Dip to Black",
            TransitionKind::DipToWhite => "Dip to White",
            TransitionKind::WipeLeft => "Wipe Left",
            TransitionKind::WipeRight => "Wipe Right",
            TransitionKind::WipeUp => "Wipe Up",
            TransitionKind::WipeDown => "Wipe Down",
            TransitionKind::SlideLeft => "Slide Left",
            TransitionKind::SlideRight => "Slide Right",
            TransitionKind::SlideUp => "Slide Up",
            TransitionKind::SlideDown => "Slide Down",
            TransitionKind::CircleOpen => "Circle / Box Open",
            TransitionKind::CircleClose => "Circle Close",
            TransitionKind::Radial => "Radial",
            TransitionKind::ZoomIn => "Zoom In",
            TransitionKind::SqueezeHorizontal => "Squeeze Horizontal",
            TransitionKind::SmoothLeft => "Smooth Slide",
            TransitionKind::Pixelate => "Pixelate",
        }
    }

    /// The ffmpeg `xfade` transition name for this kind.
    pub fn to_xfade(&self) -> (r: &'static str)
        ensures
            r == match *self {
                TransitionKind::CrossFade => "dissolve",
                TransitionKind::DipToBlack => "fadeblack",
                TransitionKind::DipToWhite => "fadewhite",
                TransitionKind::WipeLeft => "wipeleft",
                TransitionKind::WipeRight => "wiperight",
                TransitionKind::WipeUp => "wipeup",
                TransitionKind::WipeDown => "wipedown",
                TransitionKind::SlideLeft => "slideleft",
                TransitionKind::SlideRight => "slideright",
                TransitionKind::SlideUp => "slideup",
                TransitionKind::SlideDown => "slidedown",
                TransitionKind::CircleOpen => "circleopen",
                TransitionKind::CircleClose => "circleclose",
                TransitionKind::Radial => "radial",
                TransitionKind::ZoomIn => "zoomin",
                TransitionKind::SqueezeHorizontal => "squeezeh",
                TransitionKind::SmoothLeft => "smoothleft",
                TransitionKind::Pixelate => "pixelize",
            },
    {
        match self {
            TransitionKind::CrossFade => "dissolve",
            TransitionKind::DipToBlack => "fadeblack",
            TransitionKind::DipToWhite => "fadewhite",
            TransitionKind::WipeLeft => "wipeleft",
            TransitionKind::WipeRight => "wiperight",
            TransitionKind::WipeUp => "wipeup",
            TransitionKind::WipeDown => "wipedown",
            TransitionKind::SlideLeft => "slideleft",
            TransitionKind::SlideRight => "slideright",
            TransitionKind::SlideUp => "slideup",
            TransitionKind::SlideDown => "slidedown",
            TransitionKind::CircleOpen => "circleopen",
            TransitionKind::CircleClose => "circleclose",
            TransitionKind::Radial => "radial",
            TransitionKind::ZoomIn => "zoomin",
            TransitionKind::SqueezeHorizontal => "squeezeh",
            TransitionKind::SmoothLeft => "smoothleft",
            TransitionKind::Pixelate => "pixelize",
        }
    }

    /// Every transition, in menu order.
    pub fn all() -> (r: &'static [TransitionKind])
        ensures
            r@ == seq![TransitionKind::CrossFade, TransitionKind::DipToBlack, TransitionKind::DipToWhite, TransitionKind::WipeLeft, TransitionKind::WipeRight, TransitionKind::WipeUp, TransitionKind::WipeDown, TransitionKind::SlideLeft, TransitionKind::SlideRight, TransitionKind::SlideUp, TransitionKind::SlideDown, TransitionKind::CircleOpen, TransitionKind::CircleClose, TransitionKind::Radial, TransitionKind::ZoomIn, TransitionKind::SqueezeHorizontal, TransitionKind::SmoothLeft, TransitionKind::Pixelate],
    {
        &[
            TransitionKind::CrossFade,
            TransitionKind::DipToBlack,
            TransitionKind::DipToWhite,
            TransitionKind::WipeLeft,
            TransitionKind::WipeRight,
            TransitionKind::WipeUp,
            TransitionKind::WipeDown,
            TransitionKind::SlideLeft,
            TransitionKind::SlideRight,
            TransitionKind::SlideUp,
            TransitionKind::SlideDown,
            TransitionKind::CircleOpen,
            TransitionKind::CircleClose,
            TransitionKind::Radial,
            TransitionKind::ZoomIn,
            TransitionKind::SqueezeHorizontal,
            TransitionKind::SmoothLeft,
            TransitionKind::Pixelate,
        ]
    }
}

} // verus!
