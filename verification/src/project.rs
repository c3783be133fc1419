//! The project: settings, imported media and the timeline, and the file
//! format version a loader checks.

use crate::export::{default_export, ExportSettings, FPS_30_BITS};
use crate::id::{generated_id, Id, IdGenerator, COUNTER_START};
use crate::media::MediaAsset;
use crate::time::TimeKey;
use crate::timeline::{tracks_end, Timeline, TrackKind, FULL_LEVEL_BITS};
use vstd::prelude::*;

verus! {

/// Version of the project file format written by this library.
pub const PROJECT_FORMAT_VERSION: u32 = 1;

/// How a readable project file's format relates to the current one.
#[derive(Clone, Copy, PartialEq, Eq, Debug, Structural)]
pub enum FormatAge {
    /// Written in the current format.
    Current,
    /// Written in an older format; loading migrates it.
    Older,
}

/// A project file written in a format newer than this library knows.
#[derive(Clone, Copy, PartialEq, Eq, Debug, Structural)]
pub struct UnsupportedVersion {
    pub found: u32,
    pub supported: u32,
}

/// Decide whether a project file of format version `found` can be loaded.
pub fn check_format_version(found: u32) -> (r: Result<FormatAge, UnsupportedVersion>)
    ensures
        found > PROJECT_FORMAT_VERSION <==> r is Err,
        r is Err ==> r == Err::<FormatAge, UnsupportedVersion>(
            UnsupportedVersion { found, supported: PROJECT_FORMAT_VERSION },
        ),
        found == PROJECT_FORMAT_VERSION ==> r == Ok::<FormatAge, UnsupportedVersion>(
            FormatAge::Current,
        ),
        found < PROJECT_FORMAT_VERSION ==> r == Ok::<FormatAge, UnsupportedVersion>(
            FormatAge::Older,
        ),
{
    if found > PROJECT_FORMAT_VERSION {
        return Err(UnsupportedVersion { found, supported: PROJECT_FORMAT_VERSION });
    }
    if found < PROJECT_FORMAT_VERSION {
        return Ok(FormatAge::Older);
    }
    Ok(FormatAge::Current)
}

/// Settings that hold for the whole project.
#[derive(Clone, Debug)]
pub struct ProjectSettings {
    /// Project name (also the default file name).
    pub name: String,
    /// Bit pattern of the edit frame rate (frames per second).
    pub fps_bits: u64,
    /// Canvas width in pixels.
    pub width: u32,
    /// Canvas height in pixels.
    pub height: u32,
    /// Background colour (red, green, blue) where no clip covers.
    pub background: [u8; 3],
    /// Audio bus sample rate in Hz.
    pub audio_sample_rate: u32,
    /// Audio bus channel count.
    pub audio_channels: u32,
}

/// The default settings: "Untitled Project", 30 frames per second,
/// 1920×1080 on black, 48 kHz stereo audio.
pub open spec fn default_settings(s: ProjectSettings) -> bool {
    &&& s.name@ == "Untitled Project"@
    &&& s.fps_bits == FPS_30_BITS
    &&& s.width == 1920
    &&& s.height == 1080
    &&& s.background@ == seq![0u8, 0u8, 0u8]
    &&& s.audio_sample_rate == 48_000
    &&& s.audio_channels == 2
}

impl Default for ProjectSettings {
    fn default() -> (r: ProjectSettings)
        ensures
            default_settings(r),
    {
        let background = [0u8, 0u8, 0u8];
        assert(background@ =~= seq![0u8, 0u8, 0u8]);
        ProjectSettings {
            name: "Untitled Project".to_owned(),
            fps_bits: FPS_30_BITS,
            width: 1920,
            height: 1080,
            background,
            audio_sample_rate: 48_000,
            audio_channels: 2,
        }
    }
}

/// The root of everything saved about an edit.
#[derive(Clone, Debug)]
pub struct Project {
    pub settings: ProjectSettings,
    /// Imported media, in import order.
    pub assets: Vec<MediaAsset>,
    pub timeline: Timeline,
    /// Export settings the export dialog starts from.
    pub export: ExportSettings,
    /// Where the project was last saved; never saved when `None`.
    pub last_save_path: Option<String>,
}

/// `i` is the first asset with id `id`.
pub open spec fn is_first_asset(assets: Seq<MediaAsset>, id: Id, i: int) -> bool {
    &&& 0 <= i < assets.len()
    &&& assets[i].id == id
    &&& forall|j: int| 0 <= j < i ==> (#[trigger] assets[j]).id != id
}

/// Some asset has id `id`.
pub open spec fn has_asset(assets: Seq<MediaAsset>, id: Id) -> bool {
    exists|i: int| 0 <= i < assets.len() && (#[trigger] assets[i]).id == id
}

/// The first asset with id `id` (meaningful when there is one).
pub open spec fn first_asset(assets: Seq<MediaAsset>, id: Id) -> MediaAsset {
    assets[choose|i: int| is_first_asset(assets, id, i)]
}

/// Only one index is the first with a given id.
pub proof fn lemma_first_asset_unique(assets: Seq<MediaAsset>, id: Id, i: int, k: int)
    requires
        is_first_asset(assets, id, i),
        is_first_asset(assets, id, k),
    ensures
        i == k,
{
    if i < k {
        assert(assets[i].id != id);
    }
    if k < i {
        assert(assets[k].id != id);
    }
}

impl Project {
    /// An empty project with default settings, whose timeline holds the
    /// two video and two audio tracks of a new edit, numbered by `gen`,
    /// which is handed back for the ids that follow.
    pub fn with_generator(gen: IdGenerator) -> (r: (Project, IdGenerator))
        ensures
            default_settings(r.0.settings),
            r.0.assets@.len() == 0,
            r.0.export == default_export(),
            r.0.last_save_path is None,
            r.0.timeline.tracks@.len() == 4,
            r.0.timeline.transitions@.len() == 0,
            r.0.timeline.tracks@[0].name@ == "V1"@,
            r.0.timeline.tracks@[1].name@ == "V2"@,
            r.0.timeline.tracks@[2].name@ == "A1"@,
            r.0.timeline.tracks@[3].name@ == "A2"@,
            r.0.timeline.tracks@[0].kind == TrackKind::Video,
            r.0.timeline.tracks@[1].kind == TrackKind::Video,
            r.0.timeline.tracks@[2].kind == TrackKind::Audio,
            r.0.timeline.tracks@[3].kind == TrackKind::Audio,
            forall|i: int| 0 <= i < 4 ==> (#[trigger] r.0.timeline.tracks@[i]).clips@.len() == 0,
            forall|i: int|
                0 <= i < 4 ==> !(#[trigger] r.0.timeline.tracks@[i]).locked
                    && !r.0.timeline.tracks@[i].muted && !r.0.timeline.tracks@[i].solo
                    && r.0.timeline.tracks@[i].level_bits == FULL_LEVEL_BITS,
            r.0.timeline.tracks@[0].id.0 == generated_id(gen.seed(), gen.counter()),
            r.0.timeline.tracks@[1].id.0 == generated_id(
                gen.seed(),
                gen.counter().wrapping_add(1),
            ),
            r.0.timeline.tracks@[2].id.0 == generated_id(
                gen.seed(),
                gen.counter().wrapping_add(1).wrapping_add(1),
            ),
            r.0.timeline.tracks@[3].id.0 == generated_id(
                gen.seed(),
                gen.counter().wrapping_add(1).wrapping_add(1).wrapping_add(1),
            ),
            r.1.seed() == gen.seed(),
            r.1.counter() == gen.counter().wrapping_add(1).wrapping_add(1).wrapping_add(
                1,
            ).wrapping_add(1),
    {
        let mut gen = gen;
        let timeline = Timeline::with_default_tracks(&mut gen);
        let p = Project {
            settings: ProjectSettings::default(),
            assets: Vec::new(),
            timeline,
            export: ExportSettings::default(),
            last_save_path: None,
        };
        (p, gen)
    }

    /// An empty project as [`Project::with_generator`] makes it, numbered
    /// by a fresh clock-seeded generator.
    pub fn new() -> (r: (Project, IdGenerator))
        ensures
            default_settings(r.0.settings),
            r.0.assets@.len() == 0,
            r.0.export == default_export(),
            r.0.last_save_path is None,
            r.0.timeline.tracks@.len() == 4,
            r.0.timeline.transitions@.len() == 0,
            r.0.timeline.tracks@[0].name@ == "V1"@,
            r.0.timeline.tracks@[1].name@ == "V2"@,
            r.0.timeline.tracks@[2].name@ == "A1"@,
            r.0.timeline.tracks@[3].name@ == "A2"@,
            r.0.timeline.tracks@[0].kind == TrackKind::Video,
            r.0.timeline.tracks@[1].kind == TrackKind::Video,
            r.0.timeline.tracks@[2].kind == TrackKind::Audio,
            r.0.timeline.tracks@[3].kind == TrackKind::Audio,
            forall|i: int| 0 <= i < 4 ==> (#[trigger] r.0.timeline.tracks@[i]).clips@.len() == 0,
            forall|i: int|
                0 <= i < 4 ==> !(#[trigger] r.0.timeline.tracks@[i]).locked
                    && !r.0.timeline.tracks@[i].muted && !r.0.timeline.tracks@[i].solo
                    && r.0.timeline.tracks@[i].level_bits == FULL_LEVEL_BITS,
            forall|i: int|
                0 <= i < 4 ==> (#[trigger] r.0.timeline.tracks@[i]).id.0 == generated_id(
                    r.1.seed(),
                    (COUNTER_START + i) as u64,
                ),
            r.1.counter() == COUNTER_START + 4,
    {
        let gen = IdGenerator::new();
        assert(COUNTER_START + 4 < u64::MAX);
        Project::with_generator(gen)
    }

    /// Add an imported asset after the others.
    pub fn add_asset(&mut self, asset: MediaAsset)
        ensures
            final(self).assets@ == old(self).assets@.push(asset),
            final(self).settings == old(self).settings,
            final(self).timeline == old(self).timeline,
            final(self).export == old(self).export,
            final(self).last_save_path == old(self).last_save_path,
    {
        self.assets.push(asset);
    }

    /// Index of the first asset with id `id`.
    fn asset_index(&self, id: Id) -> (r: Option<usize>)
        ensures
            r is None <==> forall|i: int|
                0 <= i < self.assets@.len() ==> (#[trigger] self.assets@[i]).id != id,
            r matches Some(i) ==> is_first_asset(self.assets@, id, i as int),
    {
        let mut i: usize = 0;
        while i < self.assets.len()
            invariant
                i <= self.assets@.len(),
                forall|j: int| 0 <= j < i ==> (#[trigger] self.assets@[j]).id != id,
            decreases self.assets@.len() - i,
        {
            if self.assets[i].id == id {
                return Some(i);
            }
            i = i + 1;
        }
        None
    }

    /// The first asset with id `id`.
    pub fn asset(&self, id: Id) -> (r: Option<&MediaAsset>)
        ensures
            r is None <==> !has_asset(self.assets@, id),
            r matches Some(a) ==> *a == first_asset(self.assets@, id),
    {
        match self.asset_index(id) {
            Some(i) => {
                proof {
                    lemma_first_asset_unique(
                        self.assets@,
                        id,
                        i as int,
                        choose|k: int| is_first_asset(self.assets@, id, k),
                    );
                }
                Some(&self.assets[i])
            },
            None => None,
        }
    }

    /// The first asset with id `id`, for editing.
    pub fn asset_mut(&mut self, id: Id) -> (r: Option<&mut MediaAsset>)
        ensures
            r is None <==> forall|i: int|
                0 <= i < old(self).assets@.len() ==> (#[trigger] old(self).assets@[i]).id != id,
            r is None ==> *final(self) == *old(self),
            r matches Some(a) ==> exists|i: int|
                is_first_asset(old(self).assets@, id, i) && *a == old(self).assets@[i]
                    && final(self).assets@ == old(self).assets@.update(i, *final(a))
                    && final(self).settings == old(self).settings && final(self).timeline
                    == old(self).timeline && final(self).export == old(self).export
                    && final(self).last_save_path == old(self).last_save_path,
    {
        match self.asset_index(id) {
            Some(i) => Some(&mut self.assets[i]),
            None => None,
        }
    }

    /// Total length of the timeline.
    pub fn duration(&self) -> (r: TimeKey)
        ensures
            r.0 == tracks_end(self.timeline.tracks@),
    {
        self.timeline.duration()
    }
}

/// The name of the sibling file a save writes first and then renames over
/// the project file: the file name with a dot before and `.tmp` after.
pub fn temp_file_name(file_name: &str) -> (r: String)
    ensures
        r@ == "."@ + file_name@ + ".tmp"@,
{
    let mut out = ".".to_owned();
    crate::text::append_str(&mut out, file_name);
    crate::text::append_str(&mut out, ".tmp");
    out
}

/// A project as written to disk, with the format version it was written
/// in.
#[derive(Clone, Debug)]
pub struct ProjectFile {
    pub format_version: u32,
    pub project: Project,
}

impl ProjectFile {
    /// `project`, marked with the current format version.
    pub fn wrap(project: Project) -> (r: ProjectFile)
        ensures
            r.format_version == PROJECT_FORMAT_VERSION,
            r.project == project,
    {
        ProjectFile { format_version: PROJECT_FORMAT_VERSION, project }
    }
}

} // verus!
