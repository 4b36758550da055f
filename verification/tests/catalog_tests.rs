use video_editor::effects::SlideEffectKind;
use video_editor::stickers::{StickerCatalog, StickerCategory};
use video_editor::text_overlay::{FontFamilyPreset, TextAlignment, TextBoxStyle};
use video_editor::transition::TransitionKind;
use std::path::{Path, PathBuf};

#[test]
fn transitions_map_to_xfade_names() {
    assert_eq!(TransitionKind::CrossFade.to_xfade(), "dissolve");
    assert_eq!(TransitionKind::Pixelate.to_xfade(), "pixelize");
    assert_eq!(TransitionKind::DipToWhite.label(), "Dip to White");
    assert_eq!(TransitionKind::all().len(), 18);
    assert_eq!(TransitionKind::all()[0], TransitionKind::CrossFade);
}

#[test]
fn sticker_catalog() {
    let all = StickerCatalog::all_stickers();
    assert_eq!(all.len(), 62);
    assert_eq!(all[all.len() - 1].id, "heart_eyes");
    let p = StickerCatalog::sticker_asset_path(Path::new("/assets"), "heart_eyes");
    assert_eq!(p, PathBuf::from("/assets/stickers/heart_eyes.png"));
    assert!(!StickerCategory::all_filter_categories().is_empty());
}

#[test]
fn text_style_defaults() {
    assert_eq!(TextAlignment::default(), TextAlignment::Center);
    assert_eq!(TextBoxStyle::default().label(), "No Background");
    assert_eq!(FontFamilyPreset::all().len(), 10);
    assert_eq!(FontFamilyPreset::default().ffmpeg_font_name(), "Arial");
    assert!(!SlideEffectKind::all().is_empty());
}
