//! Imported media: its probed metadata and its classification.

use crate::id::Id;
use crate::time::{TimeKey, ZERO_KEY};
use crate::timeline::TrackKind;
use vstd::prelude::*;

verus! {

/// Broad classification of a media asset.
#[derive(Clone, Copy, PartialEq, Eq, Debug, Structural)]
pub enum MediaKind {
    Video,
    Audio,
    Image,
    Unknown,
}

impl MediaKind {
    pub fn is_video(self) -> (r: bool)
        ensures
            r == (self == MediaKind::Video),
    {
        match self {
            MediaKind::Video => true,
            _ => false,
        }
    }

    pub fn is_audio(self) -> (r: bool)
        ensures
            r == (self == MediaKind::Audio),
    {
        match self {
            MediaKind::Audio => true,
            _ => false,
        }
    }

    /// The kind of track media of this kind plays on: pictures (video and
    /// still images) on video tracks, everything else on audio tracks.
    pub fn cast_to_track_kind(self) -> (r: TrackKind)
        ensures
            r == (if self == MediaKind::Video || self == MediaKind::Image {
                TrackKind::Video
            } else {
                TrackKind::Audio
            }),
    {
        match self {
            MediaKind::Video | MediaKind::Image => TrackKind::Video,
            _ => TrackKind::Audio,
        }
    }

    /// Classify probed media by which streams it has and whether it has a
    /// duration: a video stream with a duration is video, without one an
    /// image; audio alone is audio; no stream at all is unknown.
    pub fn from_streams(has_video: bool, has_audio: bool, has_duration: bool) -> (r: MediaKind)
        ensures
            r == kind_of_streams(has_video, has_audio, has_duration),
    {
        match (has_video, has_audio, has_duration) {
            (false, false, true) => MediaKind::Unknown,
            (false, false, false) => MediaKind::Unknown,
            (true, _, true) => MediaKind::Video,
            (true, _, false) => MediaKind::Image,
            (false, true, _) => MediaKind::Audio,
        }
    }
}

/// The kind of media with the given streams and duration.
pub open spec fn kind_of_streams(has_video: bool, has_audio: bool, has_duration: bool) -> MediaKind {
    if has_video {
        if has_duration {
            MediaKind::Video
        } else {
            MediaKind::Image
        }
    } else if has_audio {
        MediaKind::Audio
    } else {
        MediaKind::Unknown
    }
}

/// Width of media-pool thumbnails, in pixels; the height follows the
/// aspect ratio of the media.
pub const THUMB_W: u32 = 240;

/// Probed metadata for an audio stream.
#[derive(Clone, Debug)]
pub struct AudioInfo {
    /// Sample rate in Hz.
    pub sample_rate: u32,
    /// Number of channels.
    pub channels: u32,
    /// Codec reported by the prober.
    pub codec: String,
}

impl Default for AudioInfo {
    fn default() -> (r: AudioInfo)
        ensures
            r.sample_rate == 0,
            r.channels == 0,
            r.codec@ == Seq::<char>::empty(),
    {
        AudioInfo { sample_rate: 0, channels: 0, codec: String::new() }
    }
}

/// Probed metadata for a video stream.
#[derive(Clone, Debug)]
pub struct VideoInfo {
    /// Width in pixels.
    pub width: u32,
    /// Height in pixels.
    pub height: u32,
    /// Bit pattern of the average frame rate (frames per second).
    pub fps_bits: u64,
    /// Codec reported by the prober.
    pub codec: String,
    /// Pixel format.
    pub pixel_format: String,
}

/// What probing a media file found.
#[derive(Clone, Debug)]
pub struct MediaMetadata {
    /// Total duration; `None` for still images.
    pub duration: Option<TimeKey>,
    pub video: Option<VideoInfo>,
    pub audio: Option<AudioInfo>,
    /// Overall bitrate in bits per second, when known.
    pub bitrate: Option<u64>,
    /// Container format reported by the prober.
    pub format: String,
}

/// The duration of media, zero when it has none.
pub open spec fn duration_or_zero(d: Option<TimeKey>) -> TimeKey {
    match d {
        Some(t) => t,
        None => TimeKey(ZERO_KEY),
    }
}

impl MediaMetadata {
    /// The duration, or zero when there is none.
    pub fn duration_or_default(&self) -> (r: TimeKey)
        ensures
            r == duration_or_zero(self.duration),
    {
        match self.duration {
            Some(t) => t,
            None => TimeKey::zero(),
        }
    }

    /// The kind of the probed media.
    pub fn kind(&self) -> (r: MediaKind)
        ensures
            r == kind_of_streams(self.video is Some, self.audio is Some, self.duration is Some),
    {
        MediaKind::from_streams(self.video.is_some(), self.audio.is_some(), self.duration.is_some())
    }
}

/// An imported media file referenced by the project.
#[derive(Clone, Debug)]
pub struct MediaAsset {
    pub id: Id,
    /// Name shown in the media pool.
    pub name: String,
    /// Path of the source file.
    pub path: String,
    /// Probed metadata; `None` until probed.
    pub metadata: Option<MediaMetadata>,
    /// Colour label (0..7).
    pub label: u8,
    /// The file was missing when last looked for.
    pub offline: bool,
    /// A smaller copy used while editing, if any.
    pub proxy_path: Option<String>,
}

/// The kind of an asset: unknown until probed.
pub open spec fn asset_kind(a: MediaAsset) -> MediaKind {
    match a.metadata {
        Some(m) => kind_of_streams(m.video is Some, m.audio is Some, m.duration is Some),
        None => MediaKind::Unknown,
    }
}

/// The duration of an asset: zero when not probed or without duration.
pub open spec fn asset_duration(a: MediaAsset) -> TimeKey {
    match a.metadata {
        Some(m) => duration_or_zero(m.duration),
        None => TimeKey(ZERO_KEY),
    }
}

impl MediaAsset {
    /// The asset's kind.
    pub fn kind(&self) -> (r: MediaKind)
        ensures
            r == asset_kind(*self),
    {
        match &self.metadata {
            Some(m) => m.kind(),
            None => MediaKind::Unknown,
        }
    }

    /// The asset's duration.
    pub fn duration(&self) -> (r: TimeKey)
        ensures
            r == asset_duration(*self),
    {
        match &self.metadata {
            Some(m) => m.duration_or_default(),
            None => TimeKey::zero(),
        }
    }

    /// The probed video stream, if any.
    pub fn video_info(&self) -> (r: Option<&VideoInfo>)
        ensures
            r == (match self.metadata {
                Some(m) => match m.video {
                    Some(v) => Some(&v),
                    None => None,
                },
                None => None,
            }),
    {
        match &self.metadata {
            Some(m) => match &m.video {
                Some(v) => Some(v),
                None => None,
            },
            None => None,
        }
    }

    /// The probed audio stream, if any.
    pub fn audio_info(&self) -> (r: Option<&AudioInfo>)
        ensures
            r == (match self.metadata {
                Some(m) => match m.audio {
                    Some(a) => Some(&a),
                    None => None,
                },
                None => None,
            }),
    {
        match &self.metadata {
            Some(m) => match &m.audio {
                Some(a) => Some(a),
                None => None,
            },
            None => None,
        }
    }

    /// The file edited from: the proxy when there is one, else the source.
    pub fn editing_path(&self) -> (r: &str)
        ensures
            r@ == (match self.proxy_path {
                Some(p) => p@,
                None => self.path@,
            }),
    {
        match &self.proxy_path {
            Some(p) => p.as_str(),
            None => self.path.as_str(),
        }
    }
}

} // verus!
