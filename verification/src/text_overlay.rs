//! Text styling choices for on-slide captions.
use vstd::prelude::*;

verus! {

/// Ten font styles, each with a bundled preview font and a font name for rendering.
#[derive(Clone, Copy, Debug, PartialEq, Eq, Structural)]
pub enum FontFamilyPreset {
    SansSerif,
    Serif,
    Monospace,
    Impact,
    Handwritten,
    Condensed,
    Display,
    VintageSerif,
    Script,
    Futuristic,
}

impl Default for FontFamilyPreset {
    fn default() -> (f: FontFamilyPreset)
        ensures
            f == FontFamilyPreset::SansSerif,
    {
        FontFamilyPreset::SansSerif
    }
}

impl FontFamilyPreset {
    /// Menu label of the font style.
    pub fn label(&self) -> (r: &'static str)
        ensures
            r == match *self {
                FontFamilyPreset::SansSerif => "Modern Sans",
                FontFamilyPreset::Serif => "Classic Serif",
                FontFamilyPreset::Monospace => "Typewriter Mono",
                FontFamilyPreset::Impact => "Cinematic Impact",
                FontFamilyPreset::Handwritten => "Handwritten Script",
                FontFamilyPreset::Condensed => "Condensed",
                FontFamilyPreset::Display => "Poster Display",
                FontFamilyPreset::VintageSerif => "Vintage Serif",
                FontFamilyPreset::Script => "Elegant Script",
                FontFamilyPreset::Futuristic => "Futuristic",
            },
    {
        match self {
            FontFamilyPreset::SansSerif => "Modern Sans",
            FontFamilyPreset::Serif => "Classic Serif",
            FontFamilyPreset::Monospace => "Typewriter Mono",
            FontFamilyPreset::Impact => "Cinematic Impact",
            FontFamilyPreset::Handwritten => "Handwritten Script",
            FontFamilyPreset::Condensed => "Condensed",
            FontFamilyPreset::Display => "Poster Display",
            FontFamilyPreset::VintageSerif => "Vintage Serif",
            FontFamilyPreset::Script => "Elegant Script",
            FontFamilyPreset::Futuristic => "Futuristic",
        }
    }

    /// One-line description of the font style.
    pub fn description(&self) -> (r: &'static str)
        ensures
            r == match *self {
                FontFamilyPreset::SansSerif => "Clean, crisp & geometric",
                FontFamilyPreset::Serif => "Elegant, literary & timeless",
                FontFamilyPreset::Monospace => "Retro code & typewriter",
                FontFamilyPreset::Impact => "Heavy, bold blockbuster headline",
                FontFamilyPreset::Handwritten => "Casual & personal cursive style",
                FontFamilyPreset::Condensed => "Tall, narrow, sports-style",
                FontFamilyPreset::Display => "Bold rounded poster lettering",
                FontFamilyPreset::VintageSerif => "Classic old-world serif",
                FontFamilyPreset::Script => "Flowing calligraphic cursive",
                FontFamilyPreset::Futuristic => "Geometric sci-fi lettering",
            },
    {
        match self {
            FontFamilyPreset::SansSerif => "Clean, crisp & geometric",
            FontFamilyPreset::Serif => "Elegant, literary & timeless",
            FontFamilyPreset::Monospace => "Retro code & typewriter",
            FontFamilyPreset::Impact => "Heavy, bold blockbuster headline",
            FontFamilyPreset::Handwritten => "Casual & personal cursive style",
            FontFamilyPreset::Condensed => "Tall, narrow, sports-style",
            FontFamilyPreset::Display => "Bold rounded poster lettering",
            FontFamilyPreset::VintageSerif => "Classic old-world serif",
            FontFamilyPreset::Script => "Flowing calligraphic cursive",
            FontFamilyPreset::Futuristic => "Geometric sci-fi lettering",
        }
    }

    /// Sample text shown in the font picker.
    pub fn preview_sample(&self) -> (r: &'static str)
        ensures
            r == match *self {
                FontFamilyPreset::SansSerif => "Aa Modern",
                FontFamilyPreset::Serif => "Aa Elegant",
                FontFamilyPreset::Monospace => "Aa [Type]",
                FontFamilyPreset::Impact => "AA IMPACT",
                FontFamilyPreset::Handwritten => "Aa Script",
                FontFamilyPreset::Condensed => "Aa Narrow",
                FontFamilyPreset::Display => "Aa Display",
                FontFamilyPreset::VintageSerif => "Aa Vintage",
                FontFamilyPreset::Script => "Aa Script",
                FontFamilyPreset::Futuristic => "AA Future",
            },
    {
        match self {
            FontFamilyPreset::SansSerif => "Aa Modern",
            FontFamilyPreset::Serif => "Aa Elegant",
            FontFamilyPreset::Monospace => "Aa [Type]",
            FontFamilyPreset::Impact => "AA IMPACT",
            FontFamilyPreset::Handwritten => "Aa Script",
            FontFamilyPreset::Condensed => "Aa Narrow",
            FontFamilyPreset::Display => "Aa Display",
            FontFamilyPreset::VintageSerif => "Aa Vintage",
            FontFamilyPreset::Script => "Aa Script",
            FontFamilyPreset::Futuristic => "AA Future",
        }
    }

    /// Name under which the preview font is registered.
    pub fn preview_family(&self) -> (r: &'static str)
        ensures
            r == match *self {
                FontFamilyPreset::SansSerif => "ve_sans",
                FontFamilyPreset::Serif => "ve_serif",
                FontFamilyPreset::Monospace => "ve_mono",
                FontFamilyPreset::Impact => "ve_impact",
                FontFamilyPreset::Handwritten => "ve_hand",
                FontFamilyPreset::Condensed => "ve_condensed",
                FontFamilyPreset::Display => "ve_display",
                FontFamilyPreset::VintageSerif => "ve_vintage",
                FontFamilyPreset::Script => "ve_script",
                FontFamilyPreset::Futuristic => "ve_futuristic",
            },
    {
        match self {
            FontFamilyPreset::SansSerif => "ve_sans",
            FontFamilyPreset::Serif => "ve_serif",
            FontFamilyPreset::Monospace => "ve_mono",
            FontFamilyPreset::Impact => "ve_impact",
            FontFamilyPreset::Handwritten => "ve_hand",
            FontFamilyPreset::Condensed => "ve_condensed",
            FontFamilyPreset::Display => "ve_display",
            FontFamilyPreset::VintageSerif => "ve_vintage",
            FontFamilyPreset::Script => "ve_script",
            FontFamilyPreset::Futuristic => "ve_futuristic",
        }
    }

    /// Font name used when rendering the video.
    pub fn ffmpeg_font_name(&self) -> (r: &'static str)
        ensures
            r == match *self {
                FontFamilyPreset::SansSerif => "Arial",
                FontFamilyPreset::Serif => "Times New Roman",
                FontFamilyPreset::Monospace => "Courier New",
                FontFamilyPreset::Impact => "Impact",
                FontFamilyPreset::Handwritten => "Comic Sans MS",
                FontFamilyPreset::Condensed => "Arial Narrow",
                FontFamilyPreset::Display => "Cooper Black",
                FontFamilyPreset::VintageSerif => "Georgia",
                FontFamilyPreset::Script => "Brush Script MT",
                FontFamilyPreset::Futuristic => "Century Gothic",
            },
    {
        match self {
            FontFamilyPreset::SansSerif => "Arial",
            FontFamilyPreset::Serif => "Times New Roman",
            FontFamilyPreset::Monospace => "Courier New",
            FontFamilyPreset::Impact => "Impact",
            FontFamilyPreset::Handwritten => "Comic Sans MS",
            FontFamilyPreset::Condensed => "Arial Narrow",
            FontFamilyPreset::Display => "Cooper Black",
            FontFamilyPreset::VintageSerif => "Georgia",
            FontFamilyPreset::Script => "Brush Script MT",
            FontFamilyPreset::Futuristic => "Century Gothic",
        }
    }

    /// Every font style, in menu order.
    pub fn all() -> (r: &'static [FontFamilyPreset])
        ensures
            r@ == seq![FontFamilyPreset::SansSerif, FontFamilyPreset::Serif, FontFamilyPreset::Monospace, FontFamilyPreset::Impact, FontFamilyPreset::Handwritten, FontFamilyPreset::Condensed, FontFamilyPreset::Display, FontFamilyPreset::VintageSerif, FontFamilyPreset::Script, FontFamilyPreset::Futuristic],
    {
        &[
            FontFamilyPreset::SansSerif,
            FontFamilyPreset::Serif,
            FontFamilyPreset::Monospace,
            FontFamilyPreset::Impact,
            FontFamilyPreset::Handwritten,
            FontFamilyPreset::Condensed,
            FontFamilyPreset::Display,
            FontFamilyPreset::VintageSerif,
            FontFamilyPreset::Script,
            FontFamilyPreset::Futuristic,
        ]
    }
}

/// Horizontal alignment of caption text.
#[derive(Clone, Copy, Debug, PartialEq, Eq, Structural)]
pub enum TextAlignment {
    Left,
    Center,
    Right,
}

impl Default for TextAlignment {
    fn default() -> (a: TextAlignment)
        ensures
            a == TextAlignment::Center,
    {
        TextAlignment::Center
    }
}

impl TextAlignment {
    /// Menu label of the alignment.
    pub fn label(&self) -> (r: &'static str)
        ensures
            r == match *self {
                TextAlignment::Left => "Left",
                TextAlignment::Center => "Center",
                TextAlignment::Right => "Right",
            },
    {
        match self {
            TextAlignment::Left => "Left",
            TextAlignment::Center => "Center",
            TextAlignment::Right => "Right",
        }
    }

    /// Every alignment, in menu order.
    pub fn all() -> (r: &'static [TextAlignment])
        ensures
            r@ == seq![TextAlignment::Left, TextAlignment::Center, TextAlignment::Right],
    {
        &[
            TextAlignment::Left,
            TextAlignment::Center,
            TextAlignment::Right,
        ]
    }
}

/// Optional solid background behind caption text: none, a tight box, or a full-width banner.
#[derive(Clone, Copy, Debug, PartialEq, Eq, Structural)]
pub enum TextBoxStyle {
    NoBackground,
    TranslucentBox,
    SolidBanner,
}

impl Default for TextBoxStyle {
    fn default() -> (b: TextBoxStyle)
        ensures
            b == TextBoxStyle::NoBackground,
    {
        TextBoxStyle::NoBackground
    }
}

impl TextBoxStyle {
    /// Menu label of the background style.
    pub fn label(&self) -> (r: &'static str)
        ensures
            r == match *self {
                TextBoxStyle::NoBackground => "No Background",
                TextBoxStyle::TranslucentBox => "Tight Box",
                TextBoxStyle::SolidBanner => "Full Banner",
            },
    {
        match self {
            TextBoxStyle::NoBackground => "No Background",
            TextBoxStyle::TranslucentBox => "Tight Box",
            TextBoxStyle::SolidBanner => "Full Banner",
        }
    }

    /// Every background style, in menu order.
    pub fn all() -> (r: &'static [TextBoxStyle])
        ensures
            r@ == seq![TextBoxStyle::NoBackground, TextBoxStyle::TranslucentBox, TextBoxStyle::SolidBanner],
    {
        &[
            TextBoxStyle::NoBackground,
            TextBoxStyle::TranslucentBox,
            TextBoxStyle::SolidBanner,
        ]
    }
}

} // verus!
