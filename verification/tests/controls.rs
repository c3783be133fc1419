use edt::controls::{
    autosave_file_name, clip_label_rgb, label_rgb, project_file_name, save_step, shortcut_action, snap_candidates,
    DialogRequests, DragKind, FileDialogKind, MenuState, SaveStep, ShortcutAction, ShortcutKey,
};
use edt::id::{Id, IdGenerator};
use edt::time::TimeKey;
use edt::timeline::{Clip, ClipSource, Timeline};

fn t(secs: f64) -> TimeKey {
    TimeKey::from_f64_bits(secs.to_bits())
}

#[test]
fn dialogs_are_taken_once() {
    let mut d = DialogRequests::new();
    assert_eq!(d.take(), None);
    d.request(FileDialogKind::OpenProject);
    assert!(d.open);
    assert_eq!(d.take(), Some(FileDialogKind::OpenProject));
    assert_eq!(d, DialogRequests::new());
    assert_eq!(d.take(), None);
    d.request(FileDialogKind::ImportMedia);
    d.request(FileDialogKind::SaveProject);
    assert!(d.import && d.save && !d.open);
    assert_eq!(d.take(), Some(FileDialogKind::SaveProject));
    assert_eq!(d.take(), None);
}

#[test]
fn saving_asks_for_a_path_only_when_needed() {
    assert_eq!(save_step(true, Some("/p.json".into())), SaveStep::AskForPath);
    assert_eq!(save_step(false, None), SaveStep::AskForPath);
    assert_eq!(save_step(false, Some("/p.json".into())), SaveStep::SaveTo("/p.json".into()));
}

#[test]
fn project_file_names_end_in_json() {
    assert_eq!(project_file_name("Untitled"), "Untitled.json");
    assert_eq!(project_file_name("cut.json"), "cut.json");
    assert_eq!(project_file_name(""), ".json");
    assert_eq!(project_file_name("a.JSON"), "a.JSON.json");
    assert_eq!(project_file_name(&project_file_name("x")), "x.json");
}

#[test]
fn shortcut_table() {
    assert_eq!(shortcut_action(ShortcutKey::Space, false, false, false), Some(ShortcutAction::TogglePlay));
    assert_eq!(shortcut_action(ShortcutKey::ArrowLeft, false, false, false), Some(ShortcutAction::StepBack));
    assert_eq!(shortcut_action(ShortcutKey::ArrowRight, true, true, false), Some(ShortcutAction::StepForward));
    assert_eq!(shortcut_action(ShortcutKey::Delete, false, false, false), Some(ShortcutAction::DeleteSelected));
    assert_eq!(shortcut_action(ShortcutKey::S, false, false, false), Some(ShortcutAction::SplitAtPlayhead));
    assert_eq!(shortcut_action(ShortcutKey::S, true, false, false), Some(ShortcutAction::Save { save_as: false }));
    assert_eq!(shortcut_action(ShortcutKey::S, true, true, false), Some(ShortcutAction::Save { save_as: true }));
    assert_eq!(shortcut_action(ShortcutKey::Z, true, false, false), Some(ShortcutAction::Undo));
    assert_eq!(shortcut_action(ShortcutKey::Z, true, true, false), Some(ShortcutAction::Redo));
    assert_eq!(shortcut_action(ShortcutKey::Z, false, false, false), None);
    assert_eq!(shortcut_action(ShortcutKey::O, true, false, false), Some(ShortcutAction::OpenProject));
    assert_eq!(shortcut_action(ShortcutKey::I, true, false, false), Some(ShortcutAction::ImportMedia));
    assert_eq!(shortcut_action(ShortcutKey::E, true, false, false), Some(ShortcutAction::ShowExport));
    assert_eq!(shortcut_action(ShortcutKey::E, false, false, false), None);
    assert_eq!(shortcut_action(ShortcutKey::Other, true, false, false), None);
    assert_eq!(shortcut_action(ShortcutKey::Space, false, false, true), None);
}

#[test]
fn label_colours_repeat_every_eight() {
    assert_eq!(label_rgb(0), [96, 165, 250]);
    assert_eq!(label_rgb(7), [20, 184, 166]);
    assert_eq!(label_rgb(8), label_rgb(0));
    assert_eq!(label_rgb(255), [20, 184, 166]);
    assert_eq!(clip_label_rgb(true), [180, 215, 255]);
    assert_eq!(clip_label_rgb(false), [200, 230, 180]);
}

#[test]
fn menus_and_drags_start_closed() {
    let m = MenuState::default();
    assert!(!m.show_export && !m.show_about && !m.show_settings && !m.show_known_issues);
    assert_ne!(DragKind::Nothing, DragKind::Scrub);
}

#[test]
fn snap_candidates_skip_the_dragged_clip() {
    let mut gen = IdGenerator::with_seed(7);
    let mut tl = Timeline::with_default_tracks(&mut gen);
    let v1 = tl.tracks[0].id;
    let a1 = tl.tracks[2].id;
    let src = ClipSource { asset_id: Id(9), source_start: t(0.0), source_end: t(5.0) };
    tl.add_clip_to_track(v1, Clip::new(Id(100), "a", src, t(1.0), t(3.0)));
    tl.add_clip_to_track(v1, Clip::new(Id(101), "b", src, t(4.0), t(6.0)));
    tl.add_clip_to_track(a1, Clip::new(Id(102), "c", src, t(0.5), t(2.5)));
    let all = snap_candidates(&tl, t(2.0), None);
    assert_eq!(all, vec![t(0.0), t(2.0), t(1.0), t(3.0), t(4.0), t(6.0), t(0.5), t(2.5)]);
    let some = snap_candidates(&tl, t(2.0), Some(Id(101)));
    assert_eq!(some, vec![t(0.0), t(2.0), t(1.0), t(3.0), t(0.5), t(2.5)]);
}

#[test]
fn autosave_file_name_adds_json() {
    assert_eq!(autosave_file_name("cut.v2"), "cut.v2.json");
    assert_eq!(autosave_file_name("My Project"), "My Project.json");
    assert_eq!(autosave_file_name(""), ".json");
}
