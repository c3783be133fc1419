//! Decisions of the editor window: keyboard shortcuts, file dialogs,
//! saving, menus and timeline drags.

use crate::id::Id;
use crate::time::{TimeKey, ZERO_KEY};
use crate::timeline::{Clip, Timeline, Track};
use vstd::prelude::*;

verus! {

/// Which file dialog is waiting to be shown.
#[derive(Clone, Copy, PartialEq, Eq, Debug, Structural)]
pub enum FileDialogKind {
    Nothing,
    OpenProject,
    SaveProject,
    ImportMedia,
}

/// Windows opened from the menu bar.
#[derive(Clone, Copy, PartialEq, Eq, Debug, Structural)]
pub struct MenuState {
    pub show_export: bool,
    pub show_about: bool,
    pub show_settings: bool,
    pub show_known_issues: bool,
}

impl Default for MenuState {
    fn default() -> (r: MenuState)
        ensures
            !r.show_export && !r.show_about && !r.show_settings && !r.show_known_issues,
    {
        MenuState {
            show_export: false,
            show_about: false,
            show_settings: false,
            show_known_issues: false,
        }
    }
}

/// What a drag on the timeline does.
#[derive(Clone, Copy, PartialEq, Eq, Debug, Structural)]
pub enum DragKind {
    Nothing,
    MoveClip,
    TrimLeft,
    TrimRight,
    Scrub,
}

/// File dialogs asked for and not yet shown.
#[derive(Clone, Copy, PartialEq, Eq, Debug, Structural)]
pub struct DialogRequests {
    pub open: bool,
    pub save: bool,
    pub import: bool,
    pub kind: FileDialogKind,
}

/// A dialog is waiting.
pub open spec fn dialog_pending(d: DialogRequests) -> bool {
    d.open || d.save || d.import
}

/// The requests after asking for the dialog `kind`: its flag is raised
/// and it becomes the dialog to show; the other flags stay as they were.
pub open spec fn requested(d: DialogRequests, kind: FileDialogKind) -> DialogRequests {
    DialogRequests {
        open: d.open || kind == FileDialogKind::OpenProject,
        save: d.save || kind == FileDialogKind::SaveProject,
        import: d.import || kind == FileDialogKind::ImportMedia,
        kind,
    }
}

/// No dialog waiting, and none chosen.
pub open spec fn no_dialog(d: DialogRequests) -> bool {
    !d.open && !d.save && !d.import && d.kind == FileDialogKind::Nothing
}

impl DialogRequests {
    /// Nothing asked for.
    pub fn new() -> (r: DialogRequests)
        ensures
            no_dialog(r),
    {
        DialogRequests { open: false, save: false, import: false, kind: FileDialogKind::Nothing }
    }

    /// Ask for the dialog `kind`.
    pub fn request(&mut self, kind: FileDialogKind)
        ensures
            *final(self) == requested(*old(self), kind),
    {
        match kind {
            FileDialogKind::OpenProject => self.open = true,
            FileDialogKind::SaveProject => self.save = true,
            FileDialogKind::ImportMedia => self.import = true,
            FileDialogKind::Nothing => {},
        }
        self.kind = kind;
    }

    /// The dialog to show now, if one was asked for; asking is then
    /// cleared. Nothing changes when nothing was asked for.
    pub fn take(&mut self) -> (r: Option<FileDialogKind>)
        ensures
            dialog_pending(*old(self)) ==> r == Some(old(self).kind) && no_dialog(*final(self)),
            !dialog_pending(*old(self)) ==> r is None && *final(self) == *old(self),
    {
        if !self.open && !self.save && !self.import {
            return None;
        }
        let kind = self.kind;
        *self = DialogRequests::new();
        Some(kind)
    }
}

/// After asking for a dialog, a dialog is waiting and it is the one
/// asked for: taking it (see `DialogRequests::take`) gives that dialog
/// and leaves nothing waiting.
pub proof fn lemma_take_after_request(d: DialogRequests, kind: FileDialogKind)
    requires
        kind != FileDialogKind::Nothing,
    ensures
        dialog_pending(requested(d, kind)),
        requested(d, kind).kind == kind,
{
}

/// What saving the project does first.
#[derive(Clone, PartialEq, Eq, Debug)]
pub enum SaveStep {
    /// Ask the user where to save.
    AskForPath,
    /// Save to this path.
    SaveTo(String),
}

/// Saving asks for a path when "save as" was chosen or the project was
/// never saved; otherwise it saves where it was saved last.
pub fn save_step(save_as: bool, last_save_path: Option<String>) -> (r: SaveStep)
    ensures
        save_as ==> r == SaveStep::AskForPath,
        !save_as && last_save_path is None ==> r == SaveStep::AskForPath,
        !save_as && last_save_path is Some ==> r == SaveStep::SaveTo(last_save_path->0),
{
    if save_as {
        return SaveStep::AskForPath;
    }
    match last_save_path {
        Some(p) => SaveStep::SaveTo(p),
        None => SaveStep::AskForPath,
    }
}

/// `s` ends with `suffix`.
pub open spec fn ends_with(s: Seq<char>, suffix: Seq<char>) -> bool {
    s.len() >= suffix.len() && s.subrange(s.len() - suffix.len(), s.len() as int) == suffix
}

/// The file name a project is offered to be saved under: its name, with
/// `.json` added unless it already ends so.
pub open spec fn project_file_name_spec(name: Seq<char>) -> Seq<char> {
    if ends_with(name, ".json"@) {
        name
    } else {
        name + ".json"@
    }
}

/// The file name offered when saving a project called `name`.
pub fn project_file_name(name: &str) -> (r: String)
    ensures
        r@ == project_file_name_spec(name@),
{
    let cs = crate::text::chars_of(name);
    let suffix = crate::text::chars_of(".json");
    let mut ends = false;
    if cs.len() >= suffix.len() {
        let off = cs.len() - suffix.len();
        let mut i: usize = 0;
        ends = true;
        while i < suffix.len()
            invariant
                off + suffix@.len() == cs@.len(),
                cs@.len() <= usize::MAX,
                i <= suffix@.len(),
                ends <==> forall|k: int| 0 <= k < i ==> cs@[off + k] == suffix@[k],
            decreases suffix@.len() - i,
        {
            if cs[off + i] != suffix[i] {
                ends = false;
            }
            i = i + 1;
        }
        proof {
            let tail = cs@.subrange(off as int, cs@.len() as int);
            if ends {
                assert(tail =~= suffix@);
            } else {
                let k = choose|k: int| 0 <= k < suffix@.len() && cs@[off + k] != suffix@[k];
                assert(tail[k] != suffix@[k]);
            }
        }
    }
    let mut out = name.to_owned();
    if !ends {
        crate::text::append_str(&mut out, ".json");
    }
    out
}

/// The offered file name always ends with `.json`, and offering it again
/// changes nothing.
pub proof fn lemma_project_file_name(name: Seq<char>)
    ensures
        ends_with(project_file_name_spec(name), ".json"@),
        project_file_name_spec(project_file_name_spec(name)) == project_file_name_spec(name),
{
    let out = project_file_name_spec(name);
    if !ends_with(name, ".json"@) {
        assert(out.subrange(out.len() - ".json"@.len(), out.len() as int) =~= ".json"@);
    }
}

/// The name of the file a project called `name` is autosaved to: the
/// name with `.json` after it, whatever the name ends with.
pub fn autosave_file_name(name: &str) -> (r: String)
    ensures
        r@ == name@ + ".json"@,
{
    let mut out = name.to_owned();
    crate::text::append_str(&mut out, ".json");
    out
}

/// The keys the editor reacts to.
#[derive(Clone, Copy, PartialEq, Eq, Debug, Structural)]
pub enum ShortcutKey {
    Space,
    ArrowLeft,
    ArrowRight,
    Delete,
    S,
    Z,
    O,
    I,
    E,
    Other,
}

/// What a keyboard shortcut does.
#[derive(Clone, Copy, PartialEq, Eq, Debug, Structural)]
pub enum ShortcutAction {
    TogglePlay,
    /// Move the playhead one frame back.
    StepBack,
    /// Move the playhead one frame forward.
    StepForward,
    Save { save_as: bool },
    DeleteSelected,
    SplitAtPlayhead,
    Undo,
    Redo,
    OpenProject,
    ImportMedia,
    ShowExport,
}

/// The shortcut table: Space plays or pauses, the arrows step a frame,
/// Delete deletes the selection, S splits at the playhead, Ctrl+S saves
/// (with Shift: save as), Ctrl+Z undoes (with Shift: redoes), Ctrl+O
/// opens, Ctrl+I imports and Ctrl+E shows the export dialog. Nothing
/// fires while a text field has the keyboard.
pub open spec fn shortcut_spec(key: ShortcutKey, ctrl: bool, shift: bool, text_focused: bool) -> Option<
    ShortcutAction,
> {
    if text_focused {
        None
    } else {
        match key {
            ShortcutKey::Space => Some(ShortcutAction::TogglePlay),
            ShortcutKey::ArrowLeft => Some(ShortcutAction::StepBack),
            ShortcutKey::ArrowRight => Some(ShortcutAction::StepForward),
            ShortcutKey::Delete => Some(ShortcutAction::DeleteSelected),
            ShortcutKey::S => if ctrl {
                Some(ShortcutAction::Save { save_as: shift })
            } else {
                Some(ShortcutAction::SplitAtPlayhead)
            },
            ShortcutKey::Z => if !ctrl {
                None
            } else if shift {
                Some(ShortcutAction::Redo)
            } else {
                Some(ShortcutAction::Undo)
            },
            ShortcutKey::O => if ctrl {
                Some(ShortcutAction::OpenProject)
            } else {
                None
            },
            ShortcutKey::I => if ctrl {
                Some(ShortcutAction::ImportMedia)
            } else {
                None
            },
            ShortcutKey::E => if ctrl {
                Some(ShortcutAction::ShowExport)
            } else {
                None
            },
            ShortcutKey::Other => None,
        }
    }
}

/// The action of pressing `key` with the given modifiers.
pub fn shortcut_action(key: ShortcutKey, ctrl: bool, shift: bool, text_focused: bool) -> (r: Option<
    ShortcutAction,
>)
    ensures
        r == shortcut_spec(key, ctrl, shift, text_focused),
{
    if text_focused {
        return None;
    }
    match key {
        ShortcutKey::Space => Some(ShortcutAction::TogglePlay),
        ShortcutKey::ArrowLeft => Some(ShortcutAction::StepBack),
        ShortcutKey::ArrowRight => Some(ShortcutAction::StepForward),
        ShortcutKey::Delete => Some(ShortcutAction::DeleteSelected),
        ShortcutKey::S => {
            if ctrl {
                Some(ShortcutAction::Save { save_as: shift })
            } else {
                Some(ShortcutAction::SplitAtPlayhead)
            }
        },
        ShortcutKey::Z => {
            if !ctrl {
                None
            } else if shift {
                Some(ShortcutAction::Redo)
            } else {
                Some(ShortcutAction::Undo)
            }
        },
        ShortcutKey::O => {
            if ctrl {
                Some(ShortcutAction::OpenProject)
            } else {
                None
            }
        },
        ShortcutKey::I => {
            if ctrl {
                Some(ShortcutAction::ImportMedia)
            } else {
                None
            }
        },
        ShortcutKey::E => {
            if ctrl {
                Some(ShortcutAction::ShowExport)
            } else {
                None
            }
        },
        ShortcutKey::Other => None,
    }
}

/// The eight label colours (blue, purple, pink, red, orange, yellow,
/// green, teal), as red, green and blue.
pub open spec fn label_palette() -> Seq<Seq<u8>> {
    seq![
        seq![96u8, 165u8, 250u8],
        seq![167u8, 139u8, 250u8],
        seq![244u8, 114u8, 182u8],
        seq![248u8, 113u8, 113u8],
        seq![251u8, 146u8, 60u8],
        seq![250u8, 204u8, 21u8],
        seq![132u8, 204u8, 22u8],
        seq![20u8, 184u8, 166u8],
    ]
}

/// The colour of label `idx`, the palette repeating every eight labels.
pub fn label_rgb(idx: u8) -> (r: [u8; 3])
    ensures
        r@ == label_palette()[(idx % 8) as int],
{
    let out = match idx % 8 {
        0 => [96u8, 165u8, 250u8],
        1 => [167u8, 139u8, 250u8],
        2 => [244u8, 114u8, 182u8],
        3 => [248u8, 113u8, 113u8],
        4 => [251u8, 146u8, 60u8],
        5 => [250u8, 204u8, 21u8],
        6 => [132u8, 204u8, 22u8],
        _ => [20u8, 184u8, 166u8],
    };
    assert(out@ =~= label_palette()[(idx % 8) as int]);
    out
}

/// The text colour of a clip's label: light blue on video, light green
/// on audio.
pub fn clip_label_rgb(is_video: bool) -> (r: [u8; 3])
    ensures
        r@ == (if is_video {
            seq![180u8, 215u8, 255u8]
        } else {
            seq![200u8, 230u8, 180u8]
        }),
{
    let out = if is_video {
        [180u8, 215u8, 255u8]
    } else {
        [200u8, 230u8, 180u8]
    };
    assert(out@ =~= (if is_video {
        seq![180u8, 215u8, 255u8]
    } else {
        seq![200u8, 230u8, 180u8]
    }));
    out
}

/// The start and end of every clip of `clips` but the one with id
/// `exclude`, in order.
pub open spec fn clip_edges(clips: Seq<Clip>, exclude: Option<Id>) -> Seq<TimeKey>
    decreases clips.len(),
{
    if clips.len() == 0 {
        Seq::empty()
    } else {
        clip_edges(clips.drop_last(), exclude) + (if exclude == Some(clips.last().id) {
            Seq::empty()
        } else {
            seq![clips.last().timeline_start, clips.last().timeline_end]
        })
    }
}

/// The clip edges of every track, top track first.
pub open spec fn track_edges(tracks: Seq<Track>, exclude: Option<Id>) -> Seq<TimeKey>
    decreases tracks.len(),
{
    if tracks.len() == 0 {
        Seq::empty()
    } else {
        track_edges(tracks.drop_last(), exclude) + clip_edges(tracks.last().clips@, exclude)
    }
}

/// The times a dragged edge can snap to: the start of the timeline, the
/// playhead, and the edges of all clips but the one dragged.
pub open spec fn snap_candidates_spec(tracks: Seq<Track>, playhead: TimeKey, exclude: Option<Id>) -> Seq<
    TimeKey,
> {
    seq![TimeKey(ZERO_KEY), playhead] + track_edges(tracks, exclude)
}

fn push_clip_edges(out: &mut Vec<TimeKey>, clips: &Vec<Clip>, exclude: Option<Id>)
    ensures
        final(out)@ == old(out)@ + clip_edges(clips@, exclude),
{
    let mut i: usize = 0;
    while i < clips.len()
        invariant
            i <= clips@.len(),
            out@ == old(out)@ + clip_edges(clips@.take(i as int), exclude),
        decreases clips@.len() - i,
    {
        let c = &clips[i];
        proof {
            assert(clips@.take(i + 1).drop_last() =~= clips@.take(i as int));
        }
        let skip = match exclude {
            Some(id) => id == c.id,
            None => false,
        };
        if !skip {
            out.push(c.timeline_start);
            out.push(c.timeline_end);
        }
        proof {
            assert(out@ =~= old(out)@ + clip_edges(clips@.take(i + 1), exclude));
        }
        i = i + 1;
    }
    proof {
        assert(clips@.take(i as int) =~= clips@);
    }
}

/// The times a dragged edge can snap to, for a drag of clip `exclude`
/// (or of no clip).
pub fn snap_candidates(timeline: &Timeline, playhead: TimeKey, exclude: Option<Id>) -> (r: Vec<
    TimeKey,
>)
    ensures
        r@ == snap_candidates_spec(timeline.tracks@, playhead, exclude),
{
    let mut out: Vec<TimeKey> = Vec::new();
    out.push(TimeKey::zero());
    out.push(playhead);
    let ghost head = out@;
    let mut i: usize = 0;
    while i < timeline.tracks.len()
        invariant
            i <= timeline.tracks@.len(),
            head == seq![TimeKey(ZERO_KEY), playhead],
            out@ == head + track_edges(timeline.tracks@.take(i as int), exclude),
        decreases timeline.tracks@.len() - i,
    {
        proof {
            assert(timeline.tracks@.take(i + 1).drop_last() =~= timeline.tracks@.take(i as int));
        }
        push_clip_edges(&mut out, &timeline.tracks[i].clips, exclude);
        proof {
            assert(out@ =~= head + track_edges(timeline.tracks@.take(i + 1), exclude));
        }
        i = i + 1;
    }
    proof {
        assert(timeline.tracks@.take(i as int) =~= timeline.tracks@);
    }
    out
}

/// While a text field has the keyboard no shortcut fires, whatever the
/// key and the modifiers held.
pub proof fn lemma_no_shortcut_while_typing(key: ShortcutKey, ctrl: bool, shift: bool)
    ensures
        shortcut_spec(key, ctrl, shift, true) is None,
{
}

/// Outside a text field the keys do what the shortcut table says: Space,
/// the arrows and Delete act whatever modifiers are held; S saves with
/// Ctrl (saving as with Shift too) and splits without it; Z, O, I and E
/// act only with Ctrl, Z redoing with Shift and undoing without.
pub proof fn lemma_shortcut_table(ctrl: bool, shift: bool)
    ensures
        shortcut_spec(ShortcutKey::Space, ctrl, shift, false) == Some(ShortcutAction::TogglePlay),
        shortcut_spec(ShortcutKey::ArrowLeft, ctrl, shift, false) == Some(ShortcutAction::StepBack),
        shortcut_spec(ShortcutKey::ArrowRight, ctrl, shift, false) == Some(
            ShortcutAction::StepForward,
        ),
        shortcut_spec(ShortcutKey::Delete, ctrl, shift, false) == Some(
            ShortcutAction::DeleteSelected,
        ),
        ctrl ==> shortcut_spec(ShortcutKey::S, ctrl, shift, false) == Some(
            ShortcutAction::Save { save_as: shift },
        ),
        !ctrl ==> shortcut_spec(ShortcutKey::S, ctrl, shift, false) == Some(
            ShortcutAction::SplitAtPlayhead,
        ),
        ctrl ==> shortcut_spec(ShortcutKey::Z, ctrl, shift, false) == Some(
            if shift {
                ShortcutAction::Redo
            } else {
                ShortcutAction::Undo
            },
        ),
        ctrl ==> shortcut_spec(ShortcutKey::O, ctrl, shift, false) == Some(
            ShortcutAction::OpenProject,
        ),
        ctrl ==> shortcut_spec(ShortcutKey::I, ctrl, shift, false) == Some(
            ShortcutAction::ImportMedia,
        ),
        ctrl ==> shortcut_spec(ShortcutKey::E, ctrl, shift, false) == Some(
            ShortcutAction::ShowExport,
        ),
        !ctrl ==> shortcut_spec(ShortcutKey::Z, ctrl, shift, false) is None && shortcut_spec(
            ShortcutKey::O,
            ctrl,
            shift,
            false,
        ) is None && shortcut_spec(ShortcutKey::I, ctrl, shift, false) is None && shortcut_spec(
            ShortcutKey::E,
            ctrl,
            shift,
            false,
        ) is None,
        shortcut_spec(ShortcutKey::Other, ctrl, shift, false) is None,
{
}

proof fn lemma_clip_edges_cover(clips: Seq<Clip>, exclude: Option<Id>, j: int)
    requires
        0 <= j < clips.len(),
        exclude != Some(clips[j].id),
    ensures
        clip_edges(clips, exclude).contains(clips[j].timeline_start),
        clip_edges(clips, exclude).contains(clips[j].timeline_end),
    decreases clips.len(),
{
    let rest = clip_edges(clips.drop_last(), exclude);
    let e = clip_edges(clips, exclude);
    if j == clips.len() - 1 {
        assert(e[rest.len() as int] == clips[j].timeline_start);
        assert(e[rest.len() + 1int] == clips[j].timeline_end);
    } else {
        assert(clips.drop_last()[j] == clips[j]);
        lemma_clip_edges_cover(clips.drop_last(), exclude, j);
        let a = choose|a: int| 0 <= a < rest.len() && rest[a] == clips[j].timeline_start;
        let b = choose|b: int| 0 <= b < rest.len() && rest[b] == clips[j].timeline_end;
        assert(e[a] == rest[a]);
        assert(e[b] == rest[b]);
    }
}

proof fn lemma_clip_edges_sound(clips: Seq<Clip>, exclude: Option<Id>, k: int)
    requires
        0 <= k < clip_edges(clips, exclude).len(),
    ensures
        exists|j: int|
            0 <= j < clips.len() && exclude != Some(clips[j].id) && (clip_edges(clips, exclude)[k]
                == clips[j].timeline_start || clip_edges(clips, exclude)[k] == clips[j].timeline_end),
    decreases clips.len(),
{
    let rest = clip_edges(clips.drop_last(), exclude);
    let e = clip_edges(clips, exclude);
    let last = clips.len() - 1;
    if k < rest.len() {
        assert(e[k] == rest[k]);
        lemma_clip_edges_sound(clips.drop_last(), exclude, k);
        let j = choose|j: int|
            0 <= j < clips.drop_last().len() && exclude != Some(clips.drop_last()[j].id) && (rest[k]
                == clips.drop_last()[j].timeline_start || rest[k] == clips.drop_last()[j].timeline_end);
        assert(clips.drop_last()[j] == clips[j]);
    } else {
        assert(exclude != Some(clips[last].id));
        assert(e[k] == clips[last].timeline_start || e[k] == clips[last].timeline_end);
    }
}

proof fn lemma_track_edges_cover(tracks: Seq<Track>, exclude: Option<Id>, i: int, j: int)
    requires
        0 <= i < tracks.len(),
        0 <= j < tracks[i].clips@.len(),
        exclude != Some(tracks[i].clips@[j].id),
    ensures
        track_edges(tracks, exclude).contains(tracks[i].clips@[j].timeline_start),
        track_edges(tracks, exclude).contains(tracks[i].clips@[j].timeline_end),
    decreases tracks.len(),
{
    let rest = track_edges(tracks.drop_last(), exclude);
    let e = track_edges(tracks, exclude);
    let c = tracks[i].clips@[j];
    if i == tracks.len() - 1 {
        lemma_clip_edges_cover(tracks[i].clips@, exclude, j);
        let own = clip_edges(tracks[i].clips@, exclude);
        let a = choose|a: int| 0 <= a < own.len() && own[a] == c.timeline_start;
        let b = choose|b: int| 0 <= b < own.len() && own[b] == c.timeline_end;
        assert(e[rest.len() as int + a] == own[a]);
        assert(e[rest.len() as int + b] == own[b]);
    } else {
        assert(tracks.drop_last()[i] == tracks[i]);
        lemma_track_edges_cover(tracks.drop_last(), exclude, i, j);
        let a = choose|a: int| 0 <= a < rest.len() && rest[a] == c.timeline_start;
        let b = choose|b: int| 0 <= b < rest.len() && rest[b] == c.timeline_end;
        assert(e[a] == rest[a]);
        assert(e[b] == rest[b]);
    }
}

proof fn lemma_track_edges_sound(tracks: Seq<Track>, exclude: Option<Id>, k: int)
    requires
        0 <= k < track_edges(tracks, exclude).len(),
    ensures
        exists|i: int, j: int|
            0 <= i < tracks.len() && 0 <= j < tracks[i].clips@.len() && exclude != Some(
                tracks[i].clips@[j].id,
            ) && (track_edges(tracks, exclude)[k] == tracks[i].clips@[j].timeline_start
                || track_edges(tracks, exclude)[k] == tracks[i].clips@[j].timeline_end),
    decreases tracks.len(),
{
    let rest = track_edges(tracks.drop_last(), exclude);
    let e = track_edges(tracks, exclude);
    let last = tracks.len() - 1;
    if k < rest.len() {
        assert(e[k] == rest[k]);
        lemma_track_edges_sound(tracks.drop_last(), exclude, k);
        let (i, j) = choose|i: int, j: int|
            0 <= i < tracks.drop_last().len() && 0 <= j < tracks.drop_last()[i].clips@.len()
                && exclude != Some(tracks.drop_last()[i].clips@[j].id) && (rest[k]
                == tracks.drop_last()[i].clips@[j].timeline_start || rest[k]
                == tracks.drop_last()[i].clips@[j].timeline_end);
        assert(tracks.drop_last()[i] == tracks[i]);
    } else {
        let own = clip_edges(tracks[last].clips@, exclude);
        assert(e[k] == own[k - rest.len()]);
        lemma_clip_edges_sound(tracks[last].clips@, exclude, k - rest.len());
    }
}

/// The snap targets of a drag are exactly the start of the timeline, the
/// playhead, and both edges of every clip of every track (locked, muted or
/// not) but the dragged one: each of those is a target, and every target is
/// one of those.
pub proof fn lemma_snap_targets(tracks: Seq<Track>, playhead: TimeKey, exclude: Option<Id>)
    ensures
        snap_candidates_spec(tracks, playhead, exclude).contains(TimeKey(ZERO_KEY)),
        snap_candidates_spec(tracks, playhead, exclude).contains(playhead),
        forall|i: int, j: int|
            0 <= i < tracks.len() && 0 <= j < tracks[i].clips@.len() && exclude != Some(
                tracks[i].clips@[j].id,
            ) ==> snap_candidates_spec(tracks, playhead, exclude).contains(
                #[trigger] tracks[i].clips@[j].timeline_start,
            ) && snap_candidates_spec(tracks, playhead, exclude).contains(
                tracks[i].clips@[j].timeline_end,
            ),
        forall|k: int|
            0 <= k < snap_candidates_spec(tracks, playhead, exclude).len() ==> {
                let x = #[trigger] snap_candidates_spec(tracks, playhead, exclude)[k];
                x == TimeKey(ZERO_KEY) || x == playhead || exists|i: int, j: int|
                    0 <= i < tracks.len() && 0 <= j < tracks[i].clips@.len() && exclude != Some(
                        tracks[i].clips@[j].id,
                    ) && (x == tracks[i].clips@[j].timeline_start || x
                        == tracks[i].clips@[j].timeline_end)
            },
{
    let head = seq![TimeKey(ZERO_KEY), playhead];
    let e = track_edges(tracks, exclude);
    let all = snap_candidates_spec(tracks, playhead, exclude);
    assert(all[0] == TimeKey(ZERO_KEY));
    assert(all[1] == playhead);
    assert forall|i: int, j: int|
        0 <= i < tracks.len() && 0 <= j < tracks[i].clips@.len() && exclude != Some(
            tracks[i].clips@[j].id,
        ) implies all.contains(#[trigger] tracks[i].clips@[j].timeline_start) && all.contains(
        tracks[i].clips@[j].timeline_end,
    ) by {
        lemma_track_edges_cover(tracks, exclude, i, j);
        let c = tracks[i].clips@[j];
        let a = choose|a: int| 0 <= a < e.len() && e[a] == c.timeline_start;
        let b = choose|b: int| 0 <= b < e.len() && e[b] == c.timeline_end;
        assert(all[2 + a] == e[a]);
        assert(all[2 + b] == e[b]);
    }
    assert forall|k: int| 0 <= k < all.len() implies {
        let x = #[trigger] all[k];
        x == TimeKey(ZERO_KEY) || x == playhead || exists|i: int, j: int|
            0 <= i < tracks.len() && 0 <= j < tracks[i].clips@.len() && exclude != Some(
                tracks[i].clips@[j].id,
            ) && (x == tracks[i].clips@[j].timeline_start || x == tracks[i].clips@[j].timeline_end)
    } by {
        if k >= 2 {
            assert(all[k] == e[k - 2]);
            lemma_track_edges_sound(tracks, exclude, k - 2);
        }
    }
}

} // verus!
