use vstd::prelude::*;

pub mod time;
pub mod text;

verus! {
}
pub mod calendar;
pub mod text_overlay;
pub mod transition;
pub mod effects;
pub mod stickers;
pub mod media;
pub mod export;
pub mod text_paint;
pub mod sorting;
pub mod envelope;
pub mod history;
pub mod clip;
pub mod track;
pub mod timeline;
pub mod peaks;
pub mod mixer;
pub mod slides;
pub mod project;
pub mod pptx;
pub mod pdf;
pub mod music;
pub mod playback;
pub mod placement;
