//! A project: its timeline, its media bin and its export settings.
use vstd::prelude::*;
use crate::timeline::Timeline;
use crate::track::TrackKind;

verus! {

/// A media file imported into the project's bin. What the editor reads from the file
/// itself (name, path, duration, frame rate, proxy and peak files) is `media`.
#[derive(Clone, Debug)]
pub struct MediaAsset<M> {
    pub id: u64,
    pub width: u32,
    pub height: u32,
    pub has_video: bool,
    pub has_audio: bool,
    pub media: M,
}

/// An editing project.
#[derive(Clone, Debug)]
pub struct Project<X, M> {
    pub name: String,
    pub timeline: Timeline<X>,
    pub media_assets: Vec<MediaAsset<M>>,
    pub export_width: u32,
    pub export_height: u32,
    pub export_bitrate_kbps: u32,
    pub export_audio_bitrate_kbps: u32,
    pub proxy_enabled: bool,
    /// The id the next imported asset will get.
    pub next_asset_id: u64,
}

impl<X, M> Project<X, M> {
    /// A new project: the default two-track timeline, an empty bin, 1080p export at
    /// 8000 kbps video and 192 kbps audio, proxies on.
    pub fn new(name: String) -> (p: Self)
        ensures
            p.name == name,
            p.timeline.tracks@.len() == 2,
            p.timeline.tracks@[0].id == 1,
            p.timeline.tracks@[0].kind == TrackKind::Video,
            p.timeline.tracks@[1].id == 2,
            p.timeline.tracks@[1].kind == TrackKind::Audio,
            p.timeline.next_id == 3,
            p.timeline.playhead.micros == 0,
            p.media_assets@ == Seq::<MediaAsset<M>>::empty(),
            p.export_width == 1920,
            p.export_height == 1080,
            p.export_bitrate_kbps == 8000,
            p.export_audio_bitrate_kbps == 192,
            p.proxy_enabled,
            p.next_asset_id == 1,
    {
        Project {
            name,
            timeline: Timeline::new(),
            media_assets: Vec::new(),
            export_width: 1920,
            export_height: 1080,
            export_bitrate_kbps: 8000,
            export_audio_bitrate_kbps: 192,
            proxy_enabled: true,
            next_asset_id: 1,
        }
    }

    /// Hand out the next asset id.
    pub fn next_asset_id(&mut self) -> (id: u64)
        requires
            old(self).next_asset_id < u64::MAX,
        ensures
            id == old(self).next_asset_id,
            *final(self) == (Project { next_asset_id: (id + 1) as u64, ..*old(self) }),
    {
        let id = self.next_asset_id;
        self.next_asset_id = self.next_asset_id + 1;
        id
    }

    /// Put an asset into the bin; returns its id.
    pub fn add_asset(&mut self, asset: MediaAsset<M>) -> (id: u64)
        ensures
            id == asset.id,
            final(self).media_assets@ == old(self).media_assets@.push(asset),
            *final(self) == (Project { media_assets: final(self).media_assets, ..*old(self) }),
    {
        let id = asset.id;
        self.media_assets.push(asset);
        id
    }
}

} // verus!
