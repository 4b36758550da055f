use video_editor::project::{MediaAsset, Project};

#[test]
fn new_project_defaults() {
    let p: Project<String, String> = Project::new("Trip".to_string());
    assert_eq!(p.name, "Trip");
    assert_eq!(p.export_width, 1920);
    assert_eq!(p.export_height, 1080);
    assert_eq!(p.export_bitrate_kbps, 8000);
    assert_eq!(p.export_audio_bitrate_kbps, 192);
    assert!(p.proxy_enabled);
    assert_eq!(p.next_asset_id, 1);
    assert_eq!(p.timeline.tracks.len(), 2);
}

#[test]
fn asset_ids() {
    let mut p: Project<String, String> = Project::new("Trip".to_string());
    let id = p.next_asset_id();
    assert_eq!(id, 1);
    assert_eq!(p.next_asset_id(), 2);
    let asset = MediaAsset { id, width: 640, height: 480, has_video: true, has_audio: false, media: "a.mp4".to_string() };
    assert_eq!(p.add_asset(asset), 1);
    assert_eq!(p.media_assets.len(), 1);
    assert_eq!(p.media_assets[0].media, "a.mp4");
}
