use edt::export::{asset_color, plan_export, ExportPlanError, ExportStrategy};
use edt::id::{Id, IdGenerator};
use edt::project::{
    check_format_version, FormatAge, Project, ProjectFile, ProjectSettings, UnsupportedVersion,
    PROJECT_FORMAT_VERSION,
};
use edt::timeline::TrackKind;
use edt::media::MediaAsset;
use edt::time::TimeKey;
use edt::timeline::{Clip, ClipSource, Timeline};

fn t(x: f64) -> TimeKey {
    TimeKey::from_f64_bits(x.to_bits())
}

#[test]
fn load_rejects_future_versions() {
    let err = check_format_version(PROJECT_FORMAT_VERSION + 1).unwrap_err();
    assert_eq!(
        err,
        UnsupportedVersion { found: PROJECT_FORMAT_VERSION + 1, supported: PROJECT_FORMAT_VERSION }
    );
}

#[test]
fn current_and_older_versions_load() {
    assert_eq!(check_format_version(1), Ok(FormatAge::Current));
    assert_eq!(check_format_version(0), Ok(FormatAge::Older));
}

#[test]
fn empty_timeline_errors() {
    let (p, _) = Project::new();
    assert_eq!(
        plan_export(&p.timeline, ExportStrategy::Concat),
        Err(ExportPlanError::EmptyTimeline)
    );
}

#[test]
fn new_project_has_default_tracks() {
    let (p, _) = Project::new();
    assert!(p.timeline.tracks.len() >= 4, "expected seeded tracks");
    assert!(p.timeline.tracks.iter().any(|t| t.kind == TrackKind::Video));
    assert!(p.timeline.tracks.iter().any(|t| t.kind == TrackKind::Audio));
}

#[test]
fn project_defaults_and_lookups() {
    let (mut p, mut gen) = Project::new();
    let s = ProjectSettings::default();
    assert_eq!(s.name, "Untitled Project");
    assert_eq!(f64::from_bits(s.fps_bits), 30.0);
    assert_eq!((s.width, s.height, s.background), (1920, 1080, [0, 0, 0]));
    assert_eq!((s.audio_sample_rate, s.audio_channels), (48_000, 2));
    assert_eq!(p.settings.name, "Untitled Project");
    let id = gen.next();
    assert!(p.timeline.tracks.iter().all(|t| t.id != id));
    let asset = MediaAsset {
        id,
        name: "a".into(),
        path: "/a".into(),
        metadata: None,
        label: 2,
        offline: false,
        proxy_path: None,
    };
    p.add_asset(asset);
    assert_eq!(p.asset(id).unwrap().label, 2);
    assert!(p.asset(Id(0)).is_none());
    p.asset_mut(id).unwrap().offline = true;
    assert!(p.asset(id).unwrap().offline);
    assert_eq!(p.duration(), TimeKey::zero());
    let file = ProjectFile::wrap(p);
    assert_eq!(file.format_version, PROJECT_FORMAT_VERSION);
    assert_eq!(file.project.assets.len(), 1);
}

#[test]
fn plan_export_picks_strategy() {
    let mut tl = Timeline::with_default_tracks(&mut IdGenerator::with_seed(7));
    let c = Clip::new(
        Id(1),
        "c",
        ClipSource { asset_id: Id(2), source_start: t(0.0), source_end: t(3.0) },
        t(0.0),
        t(3.0),
    );
    tl.tracks[0].insert_clip(c);
    assert_eq!(plan_export(&tl, ExportStrategy::Concat), Ok(ExportStrategy::Concat));
    assert_eq!(plan_export(&tl, ExportStrategy::FramePipe), Ok(ExportStrategy::FramePipe));
}

#[test]
fn color_for_asset_is_deterministic() {
    let mut gen = IdGenerator::new();
    let id = gen.next();
    assert_eq!(asset_color(id), asset_color(id));
    assert_eq!(asset_color(Id(0x0012_3456)), [0x56, 0x34, 0x12, 255]);
}

#[test]
fn saves_go_through_a_hidden_temp_file() {
    assert_eq!(edt::project::temp_file_name("cut.json"), ".cut.json.tmp");
    assert_eq!(edt::project::temp_file_name(""), "..tmp");
}
