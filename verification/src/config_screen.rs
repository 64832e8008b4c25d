//! The settings screen: which comic files are chosen, which one is
//! highlighted, which value the arrow keys adjust, which popup is open, and
//! what each key does.

use vstd::prelude::*;
use crate::comic::{chars_lt, lemma_name_lt_total, lemma_name_lt_transitive, name_lt};
use crate::text::chars_of;
use crate::settings::{
    ComicConfig, DevicePreset, SelectedField, adjusted_config, brightness_step_fits, next_output,
    next_split, same_settings,
};

verus! {

/// A comic file offered on the settings screen.
#[derive(Debug)]
pub struct MangaFile {
    pub archive_path: String,
    pub name: String,
}

/// The popup over the settings screen.
#[derive(Debug, Clone, Copy, PartialEq, Eq, Structural)]
pub enum ModalState {
    Closed,
    Help,
    DeviceSelector,
}

/// A key press, as far as the settings screen tells keys apart.
#[derive(Debug, Clone, Copy, PartialEq, Eq, Structural)]
pub enum Key {
    Char(char),
    Up,
    Down,
    Left,
    Right,
    Enter,
    Esc,
    Other,
}

/// What the program is to do after a key press on the settings screen.
#[derive(Debug, PartialEq, Eq)]
pub enum ConfigAction {
    Nothing,
    /// Convert these comic files with the current settings.
    StartProcessing(Vec<String>),
    /// Load the preview of the highlighted file.
    LoadPreview,
    /// The device selector popup was opened on the current device.
    OpenDeviceSelector,
}

/// The settings screen.
pub struct ConfigState {
    /// The comic files and whether each is chosen for conversion.
    pub files: Vec<(MangaFile, bool)>,
    /// The highlighted file.
    pub selected: Option<usize>,
    /// The value the left/right keys adjust.
    pub selected_field: Option<SelectedField>,
    pub config: ComicConfig,
    pub output_dir: String,
    pub modal_state: ModalState,
}

/// The chosen flags of the files.
pub open spec fn chosen_flags(files: Seq<(MangaFile, bool)>) -> Seq<bool> {
    files.map_values(|f: (MangaFile, bool)| f.1)
}

/// The paths of the chosen files, in list order.
pub open spec fn chosen_paths(files: Seq<(MangaFile, bool)>) -> Seq<Seq<char>>
    decreases files.len(),
{
    if files.len() == 0 {
        Seq::empty()
    } else {
        let rest = chosen_paths(files.drop_last());
        if files.last().1 {
            rest.push(files.last().0.archive_path@)
        } else {
            rest
        }
    }
}

/// The highlight after moving it up one file (it stays on the first).
pub open spec fn moved_up(selected: Option<usize>) -> Option<usize> {
    match selected {
        Some(s) => if s > 0 { Some((s - 1) as usize) } else { Some(s) },
        None => None,
    }
}

/// The highlight after moving it down one file (it stays on the last).
pub open spec fn moved_down(selected: Option<usize>, count: int) -> Option<usize> {
    match selected {
        Some(s) => if s + 1 < count { Some((s + 1) as usize) } else { Some(s) },
        None => None,
    }
}

impl ConfigState {
    /// The screen is consistent: the highlight, if any, is on a file.
    pub open spec fn wf(&self) -> bool {
        self.selected matches Some(s) ==> s < self.files@.len()
    }

    /// The settings screen over `files`, all chosen, the first highlighted.
    pub fn new(files: Vec<MangaFile>, config: ComicConfig, output_dir: String) -> (r: Self)
        ensures
            r.wf(),
            r.files@.len() == files@.len(),
            forall|k: int|
                0 <= k < files@.len() ==> #[trigger] r.files@[k] == (files@[k], true),
            r.selected == if files@.len() > 0 { Some(0usize) } else { None::<usize> },
            r.selected_field is None,
            r.config == config,
            r.output_dir == output_dir,
            r.modal_state == ModalState::Closed,
    {
        let ghost given = files@;
        let mut marked: Vec<(MangaFile, bool)> = Vec::new();
        let mut rest = files;
        let mut taken: Vec<MangaFile> = Vec::new();
        while rest.len() > 0
            invariant
                taken@ + rest@.reverse() == given.reverse().take(taken@.len() as int) + rest@.reverse(),
                rest@ == given.take(rest@.len() as int),
                taken@.len() + rest@.len() == given.len(),
                forall|k: int| 0 <= k < taken@.len() ==> #[trigger] taken@[k] == given[given.len() - 1 - k],
            decreases rest@.len(),
        {
            let ghost n = rest@.len();
            let f = rest.pop().unwrap();
            proof {
                assert(given[n - 1] == f);
                assert(rest@ =~= given.take(n - 1));
            }
            taken.push(f);
        }
        while taken.len() > 0
            invariant
                forall|k: int| 0 <= k < taken@.len() ==> #[trigger] taken@[k] == given[given.len() - 1 - k],
                marked@.len() + taken@.len() == given.len(),
                forall|k: int| 0 <= k < marked@.len() ==> #[trigger] marked@[k] == (given[k], true),
            decreases taken@.len(),
        {
            let ghost t = taken@.len();
            let f = taken.pop().unwrap();
            proof {
                assert(f == given[given.len() - t]);
            }
            marked.push((f, true));
        }
        let selected = if marked.len() > 0 { Some(0usize) } else { None };
        ConfigState {
            files: marked,
            selected,
            selected_field: None,
            config,
            output_dir,
            modal_state: ModalState::Closed,
        }
    }

    /// Whether a popup is open.
    pub fn is_modal_open(&self) -> (r: bool)
        ensures
            r == (self.modal_state != ModalState::Closed),
    {
        match self.modal_state {
            ModalState::Closed => false,
            _ => true,
        }
    }

    /// Moves the highlight up one file.
    pub fn select_previous(&mut self)
        requires
            old(self).wf(),
        ensures
            final(self).wf(),
            final(self).selected == moved_up(old(self).selected),
            final(self).files == old(self).files,
            final(self).config == old(self).config,
            final(self).selected_field == old(self).selected_field,
            final(self).modal_state == old(self).modal_state,
            final(self).output_dir == old(self).output_dir,
    {
        if let Some(s) = self.selected {
            if s > 0 {
                self.selected = Some(s - 1);
            }
        }
    }

    /// Moves the highlight down one file.
    pub fn select_next(&mut self)
        requires
            old(self).wf(),
        ensures
            final(self).wf(),
            final(self).selected == moved_down(old(self).selected, old(self).files@.len() as int),
            final(self).files == old(self).files,
            final(self).config == old(self).config,
            final(self).selected_field == old(self).selected_field,
            final(self).modal_state == old(self).modal_state,
            final(self).output_dir == old(self).output_dir,
    {
        if let Some(s) = self.selected {
            if s < self.files.len() - 1 {
                self.selected = Some(s + 1);
            }
        }
    }

    /// Flips whether the highlighted file is chosen.
    pub fn toggle_selected(&mut self)
        requires
            old(self).wf(),
        ensures
            final(self).wf(),
            final(self).files@.len() == old(self).files@.len(),
            forall|k: int|
                0 <= k < old(self).files@.len() ==> (#[trigger] final(self).files@[k]).0 == old(
                    self,
                ).files@[k].0,
            chosen_flags(final(self).files@) == match old(self).selected {
                Some(s) => chosen_flags(old(self).files@).update(
                    s as int,
                    !old(self).files@[s as int].1,
                ),
                None => chosen_flags(old(self).files@),
            },
            final(self).selected == old(self).selected,
            final(self).config == old(self).config,
            final(self).selected_field == old(self).selected_field,
            final(self).modal_state == old(self).modal_state,
            final(self).output_dir == old(self).output_dir,
    {
        if let Some(s) = self.selected {
            let flag = self.files[s].1;
            let ghost before = self.files@;
            self.files[s].1 = !flag;
            proof {
                assert(chosen_flags(self.files@) =~= chosen_flags(before).update(s as int, !flag));
            }
        } else {
            proof {
                assert(chosen_flags(self.files@) =~= chosen_flags(old(self).files@));
            }
        }
    }

    /// Chooses every file, or none when every file was already chosen.
    pub fn toggle_all(&mut self)
        requires
            old(self).wf(),
        ensures
            final(self).wf(),
            final(self).files@.len() == old(self).files@.len(),
            forall|k: int|
                0 <= k < old(self).files@.len() ==> (#[trigger] final(self).files@[k]).0 == old(
                    self,
                ).files@[k].0 && final(self).files@[k].1 == !(forall|m: int|
                    0 <= m < old(self).files@.len() ==> #[trigger] old(self).files@[m].1),
            final(self).selected == old(self).selected,
            final(self).config == old(self).config,
            final(self).selected_field == old(self).selected_field,
            final(self).modal_state == old(self).modal_state,
            final(self).output_dir == old(self).output_dir,
    {
        let ghost before = self.files@;
        let mut all_selected = true;
        let mut k: usize = 0;
        while k < self.files.len()
            invariant
                self.selected == old(self).selected,
                self.config == old(self).config,
                self.selected_field == old(self).selected_field,
                self.modal_state == old(self).modal_state,
                self.output_dir == old(self).output_dir,
                self.files@ == before,
                k <= before.len(),
                all_selected == (forall|m: int| 0 <= m < k ==> #[trigger] before[m].1),
            decreases before.len() - k,
        {
            if !self.files[k].1 {
                all_selected = false;
            }
            k += 1;
        }
        let mut k: usize = 0;
        while k < self.files.len()
            invariant
                self.selected == old(self).selected,
                self.config == old(self).config,
                self.selected_field == old(self).selected_field,
                self.modal_state == old(self).modal_state,
                self.output_dir == old(self).output_dir,
                self.files@.len() == before.len(),
                k <= before.len(),
                forall|m: int|
                    0 <= m < before.len() ==> (#[trigger] self.files@[m]).0 == before[m].0,
                forall|m: int| 0 <= m < k ==> (#[trigger] self.files@[m]).1 == !all_selected,
                forall|m: int| k <= m < before.len() ==> (#[trigger] self.files@[m]).1 == before[m].1,
            decreases before.len() - k,
        {
            self.files[k].1 = !all_selected;
            k += 1;
        }
    }

    /// The paths of the chosen files, in list order.
    pub fn chosen_files(&self) -> (r: Vec<String>)
        ensures
            r@.map_values(|s: String| s@) == chosen_paths(self.files@),
    {
        let mut r: Vec<String> = Vec::new();
        let mut k: usize = 0;
        while k < self.files.len()
            invariant
                k <= self.files@.len(),
                r@.map_values(|s: String| s@) == chosen_paths(self.files@.take(k as int)),
            decreases self.files@.len() - k,
        {
            proof {
                assert(self.files@.take(k + 1).drop_last() =~= self.files@.take(k as int));
            }
            if self.files[k].1 {
                let p = self.files[k].0.archive_path.clone();
                let ghost before = r@;
                r.push(p);
                proof {
                    assert(r@.map_values(|s: String| s@) =~= before.map_values(|s: String| s@).push(
                        p@,
                    ));
                }
            }
            k += 1;
        }
        proof {
            assert(self.files@.take(k as int) =~= self.files@);
        }
        r
    }
}

/// Whether a key press reaches the settings screen itself: Esc never does
/// (it closes everything), nor 'd' or a choice in the open device selector,
/// nor 'h' in the open help popup.
pub open spec fn key_reaches_screen(
    modal: ModalState,
    key: Key,
    selector_choice: Option<DevicePreset>,
) -> bool {
    key != Key::Esc && match modal {
        ModalState::DeviceSelector => key != Key::Char('d') && selector_choice is None,
        ModalState::Help => key != Key::Char('h'),
        ModalState::Closed => true,
    }
}

/// The keys the settings screen acts on.
pub open spec fn is_screen_key(key: Key) -> bool {
    match key {
        Key::Char(c) => c == 'h' || c == 'k' || c == 'j' || c == ' ' || c == 'a' || c == 'm' || c
            == 's' || c == 'c' || c == 'f' || c == 'u' || c == 'b' || c == 'g' || c == 'd' || c
            == 'p',
        Key::Up | Key::Down | Key::Left | Key::Right | Key::Enter => true,
        Key::Esc | Key::Other => false,
    }
}

/// `n` is `o` with at most the chosen flags of its files changed, to `flags`.
pub open spec fn only_flags_changed(o: ConfigState, n: ConfigState, flags: Seq<bool>) -> bool {
    &&& n.files@.len() == o.files@.len()
    &&& forall|k: int| 0 <= k < o.files@.len() ==> (#[trigger] n.files@[k]).0 == o.files@[k].0
    &&& chosen_flags(n.files@) == flags
    &&& n.selected == o.selected
    &&& n.selected_field == o.selected_field
    &&& n.config == o.config
    &&& n.modal_state == o.modal_state
    &&& n.output_dir == o.output_dir
}

/// What a key that reaches the screen does, taking `o` to `n` and asking
/// for `r`; all that is not named stays as it was.
pub open spec fn screen_key_effect(o: ConfigState, n: ConfigState, key: Key, shift: bool, r: ConfigAction) -> bool {
    &&& key == Key::Char('h') ==> n == (ConfigState { modal_state: ModalState::Help, ..o }) && r
        == ConfigAction::Nothing
    &&& key == Key::Enter ==> n == o && (chosen_paths(o.files@).len() == 0 ==> r
        == ConfigAction::Nothing) && (chosen_paths(o.files@).len() > 0 ==> (r matches ConfigAction::StartProcessing(v)
        && v@.map_values(|s: String| s@) == chosen_paths(o.files@)))
    &&& (key == Key::Up || key == Key::Char('k')) ==> n == (ConfigState {
        selected: moved_up(o.selected),
        ..o
    }) && r == ConfigAction::Nothing
    &&& (key == Key::Down || key == Key::Char('j')) ==> n == (ConfigState {
        selected: moved_down(o.selected, o.files@.len() as int),
        ..o
    }) && r == ConfigAction::Nothing
    &&& key == Key::Char(' ') ==> only_flags_changed(
        o,
        n,
        match o.selected {
            Some(s) => chosen_flags(o.files@).update(s as int, !o.files@[s as int].1),
            None => chosen_flags(o.files@),
        },
    ) && r == ConfigAction::Nothing
    &&& key == Key::Char('a') ==> only_flags_changed(
        o,
        n,
        Seq::new(
            o.files@.len(),
            |k: int| !(forall|m: int| 0 <= m < o.files@.len() ==> #[trigger] o.files@[m].1),
        ),
    ) && r == ConfigAction::Nothing
    &&& key == Key::Char('m') ==> n == (ConfigState {
        config: ComicConfig { right_to_left: !o.config.right_to_left, ..o.config },
        ..o
    }) && r == ConfigAction::Nothing
    &&& key == Key::Char('s') ==> n == (ConfigState {
        config: ComicConfig { split: next_split(o.config.split), ..o.config },
        ..o
    }) && r == ConfigAction::Nothing
    &&& key == Key::Char('c') ==> n == (ConfigState {
        config: ComicConfig { auto_crop: !o.config.auto_crop, ..o.config },
        ..o
    }) && r == ConfigAction::Nothing
    &&& key == Key::Char('f') ==> n == (ConfigState {
        config: ComicConfig { output_format: next_output(o.config.output_format), ..o.config },
        ..o
    }) && r == ConfigAction::Nothing
    &&& key == Key::Char('u') ==> n == (ConfigState {
        selected_field: Some(SelectedField::Quality),
        ..o
    }) && r == ConfigAction::Nothing
    &&& key == Key::Char('b') ==> n == (ConfigState {
        selected_field: Some(SelectedField::Brightness),
        ..o
    }) && r == ConfigAction::Nothing
    &&& key == Key::Char('g') ==> n == (ConfigState {
        selected_field: Some(SelectedField::Gamma),
        ..o
    }) && r == ConfigAction::Nothing
    &&& key == Key::Char('d') ==> n == (ConfigState { modal_state: ModalState::DeviceSelector, ..o })
        && r == ConfigAction::OpenDeviceSelector
    &&& key == Key::Char('p') ==> n == o && r == ConfigAction::LoadPreview
    &&& key == Key::Left ==> n == (ConfigState {
        config: match o.selected_field {
            Some(f) => adjusted_config(o.config, f, false, shift),
            None => o.config,
        },
        ..o
    }) && r == ConfigAction::Nothing
    &&& key == Key::Right ==> n == (ConfigState {
        config: match o.selected_field {
            Some(f) => adjusted_config(o.config, f, true, shift),
            None => o.config,
        },
        ..o
    }) && r == ConfigAction::Nothing
    &&& !is_screen_key(key) ==> n == o && r == ConfigAction::Nothing
}

impl ConfigState {
    /// Moves the adjusted value one step (a fine step with shift) when a
    /// value is selected.
    pub fn adjust_setting(&mut self, field: SelectedField, increase: bool, is_fine: bool)
        requires
            field == SelectedField::Brightness ==> brightness_step_fits(
                old(self).config.brightness,
                increase,
                is_fine,
            ),
        ensures
            final(self).config == adjusted_config(old(self).config, field, increase, is_fine),
            final(self).files == old(self).files,
            final(self).selected == old(self).selected,
            final(self).selected_field == old(self).selected_field,
            final(self).modal_state == old(self).modal_state,
            final(self).output_dir == old(self).output_dir,
    {
        self.config.adjust_setting(field, increase, is_fine);
    }

    /// What starting the conversion asks for: the chosen files, when there
    /// are any.
    pub fn start_processing_action(&self) -> (r: ConfigAction)
        ensures
            chosen_paths(self.files@).len() == 0 ==> r == ConfigAction::Nothing,
            chosen_paths(self.files@).len() > 0 ==> (r matches ConfigAction::StartProcessing(v)
                && v@.map_values(|s: String| s@) == chosen_paths(self.files@)),
    {
        let paths = self.chosen_files();
        if paths.len() > 0 {
            ConfigAction::StartProcessing(paths)
        } else {
            proof {
                assert(paths@.map_values(|s: String| s@).len() == 0);
            }
            ConfigAction::Nothing
        }
    }

    /// Handles a key press (`shift` held or not). `selector_choice` is the
    /// device the open device selector settled on with this key, if any.
    ///
    /// Esc closes any popup and ends value adjustment. In the device
    /// selector, 'd' closes it and a chosen device is taken; in the help
    /// popup, 'h' closes it; other keys act as on the screen: 'h' help,
    /// Enter start, Up/'k' and Down/'j' move the highlight, space chooses
    /// the highlighted file, 'a' chooses all (or none), 'm' flips the
    /// reading direction, 's' the split strategy, 'c' auto-crop, 'f' the
    /// output format, 'u'/'b'/'g' select quality/brightness/gamma for
    /// Left/Right to adjust, 'd' opens the device selector, 'p' loads the
    /// preview. Every key leaves all that it is not said to change as it was,
    /// keeps the number of files, and keeps "no highlight exactly when there
    /// are no files" when it held.
    pub fn handle_key(&mut self, key: Key, shift: bool, selector_choice: Option<DevicePreset>) -> (r:
        ConfigAction)
        requires
            old(self).wf(),
            key_reaches_screen(old(self).modal_state, key, selector_choice) && (key == Key::Left
                || key == Key::Right) && old(self).selected_field == Some(SelectedField::Brightness)
                ==> brightness_step_fits(old(self).config.brightness, key == Key::Right, shift),
        ensures
            final(self).wf(),
            final(self).output_dir == old(self).output_dir,
            final(self).files@.len() == old(self).files@.len(),
            (old(self).files@.len() == 0 <==> old(self).selected is None) ==> (final(self).files@.len()
                == 0 <==> final(self).selected is None),
            key == Key::Esc ==> *final(self) == (ConfigState {
                modal_state: ModalState::Closed,
                selected_field: None,
                ..*old(self)
            }) && r == ConfigAction::Nothing,
            key != Key::Esc && old(self).modal_state == ModalState::DeviceSelector && key
                == Key::Char('d') ==> *final(self) == (ConfigState {
                modal_state: ModalState::Closed,
                ..*old(self)
            }) && r == ConfigAction::Nothing,
            key != Key::Esc && old(self).modal_state == ModalState::DeviceSelector && key
                != Key::Char('d') && selector_choice is Some ==> *final(self) == (ConfigState {
                modal_state: ModalState::Closed,
                config: ComicConfig { device: selector_choice->0, ..old(self).config },
                ..*old(self)
            }) && r == ConfigAction::Nothing,
            key != Key::Esc && old(self).modal_state == ModalState::Help && key == Key::Char('h')
                ==> *final(self) == (ConfigState { modal_state: ModalState::Closed, ..*old(self) })
                && r == ConfigAction::Nothing,
            key_reaches_screen(old(self).modal_state, key, selector_choice) ==> screen_key_effect(
                *old(self),
                *final(self),
                key,
                shift,
                r,
            ),
    {
        if key == Key::Esc {
            self.modal_state = ModalState::Closed;
            self.selected_field = None;
            return ConfigAction::Nothing;
        }
        match self.modal_state {
            ModalState::DeviceSelector => {
                if key == Key::Char('d') {
                    self.modal_state = ModalState::Closed;
                    return ConfigAction::Nothing;
                }
                if let Some(preset) = selector_choice {
                    self.modal_state = ModalState::Closed;
                    self.config.device = preset;
                    return ConfigAction::Nothing;
                }
            },
            ModalState::Help => {
                if key == Key::Char('h') {
                    self.modal_state = ModalState::Closed;
                    return ConfigAction::Nothing;
                }
            },
            ModalState::Closed => {},
        }
        match key {
            Key::Char('h') => {
                self.modal_state = ModalState::Help;
                ConfigAction::Nothing
            },
            Key::Enter => self.start_processing_action(),
            Key::Up | Key::Char('k') => {
                self.select_previous();
                ConfigAction::Nothing
            },
            Key::Down | Key::Char('j') => {
                self.select_next();
                ConfigAction::Nothing
            },
            Key::Char(' ') => {
                self.toggle_selected();
                ConfigAction::Nothing
            },
            Key::Char('a') => {
                self.toggle_all();
                proof {
                    let o = *old(self);
                    assert(chosen_flags(self.files@) =~= Seq::new(
                        o.files@.len(),
                        |k: int| !(forall|m: int| 0 <= m < o.files@.len() ==> #[trigger] o.files@[m].1),
                    ));
                }
                ConfigAction::Nothing
            },
            Key::Char('m') => {
                self.config.right_to_left = !self.config.right_to_left;
                ConfigAction::Nothing
            },
            Key::Char('s') => {
                self.config.split = self.config.split.next();
                ConfigAction::Nothing
            },
            Key::Char('c') => {
                self.config.auto_crop = !self.config.auto_crop;
                ConfigAction::Nothing
            },
            Key::Char('f') => {
                self.config.output_format = self.config.output_format.next();
                ConfigAction::Nothing
            },
            Key::Char('u') => {
                self.selected_field = Some(SelectedField::Quality);
                ConfigAction::Nothing
            },
            Key::Char('b') => {
                self.selected_field = Some(SelectedField::Brightness);
                ConfigAction::Nothing
            },
            Key::Char('g') => {
                self.selected_field = Some(SelectedField::Gamma);
                ConfigAction::Nothing
            },
            Key::Char('d') => {
                self.modal_state = ModalState::DeviceSelector;
                ConfigAction::OpenDeviceSelector
            },
            Key::Char('p') => ConfigAction::LoadPreview,
            Key::Left => {
                if let Some(field) = self.selected_field {
                    self.adjust_setting(field, false, shift);
                }
                ConfigAction::Nothing
            },
            Key::Right => {
                if let Some(field) = self.selected_field {
                    self.adjust_setting(field, true, shift);
                }
                ConfigAction::Nothing
            },
            _ => ConfigAction::Nothing,
        }
    }

    /// A mouse wheel step: up or down the file list when no popup is open.
    /// Returns whether the step belongs to the open device selector instead.
    pub fn handle_scroll(&mut self, up: bool) -> (r: bool)
        requires
            old(self).wf(),
        ensures
            final(self).wf(),
            r == (old(self).modal_state == ModalState::DeviceSelector),
            final(self).selected == if old(self).modal_state == ModalState::Closed {
                if up {
                    moved_up(old(self).selected)
                } else {
                    moved_down(old(self).selected, old(self).files@.len() as int)
                }
            } else {
                old(self).selected
            },
            final(self).files == old(self).files,
            final(self).config == old(self).config,
            final(self).selected_field == old(self).selected_field,
            final(self).modal_state == old(self).modal_state,
            final(self).output_dir == old(self).output_dir,
    {
        match self.modal_state {
            ModalState::DeviceSelector => true,
            ModalState::Help => false,
            ModalState::Closed => {
                if up {
                    self.select_previous();
                } else {
                    self.select_next();
                }
                false
            },
        }
    }
}

/// The preview a load asks for: the highlighted file at the page already
/// shown when that file is the one shown, else at its first page.
pub open spec fn preview_target(
    selected: Option<usize>,
    file_count: int,
    shown: Option<(usize, usize)>,
) -> Option<(usize, usize)> {
    match selected {
        Some(f) => if f < file_count {
            match shown {
                Some((sf, sp)) => if sf == f { Some((f, sp)) } else { Some((f, 0usize)) },
                None => Some((f, 0usize)),
            }
        } else {
            None
        },
        None => None,
    }
}

/// (file, page) of the preview to load, given the highlighted file, the
/// number of files and the (file, page) of the preview shown, if any.
pub fn preview_request(selected: Option<usize>, file_count: usize, shown: Option<(usize, usize)>) -> (r:
    Option<(usize, usize)>)
    ensures
        r == preview_target(selected, file_count as int, shown),
{
    match selected {
        Some(f) => {
            if f < file_count {
                match shown {
                    Some((sf, sp)) => if sf == f {
                        Some((f, sp))
                    } else {
                        Some((f, 0))
                    },
                    None => Some((f, 0)),
                }
            } else {
                None
            }
        },
        None => None,
    }
}

/// (file, page) the next/previous buttons ask for, given the (file, page)
/// shown: the same file, one page further or back, stopping at the ends of
/// the index range; nothing when no preview is shown.
pub fn preview_step(shown: Option<(usize, usize)>, forward: bool) -> (r: Option<(usize, usize)>)
    ensures
        match shown {
            None => r is None,
            Some((f, p)) => r == Some((
                f,
                if forward {
                    if p < usize::MAX {
                        (p + 1) as usize
                    } else {
                        p
                    }
                } else {
                    if p > 0 {
                        (p - 1) as usize
                    } else {
                        0usize
                    }
                },
            )),
        },
{
    match shown {
        None => None,
        Some((f, p)) => {
            let page = if forward {
                if p < usize::MAX {
                    p + 1
                } else {
                    p
                }
            } else {
                if p > 0 {
                    p - 1
                } else {
                    0
                }
            };
            Some((f, page))
        },
    }
}

/// The page index a preview shows out of `total` pages: the requested page
/// clamped to the last one.
pub fn clamp_page(requested: usize, total: usize) -> (r: usize)
    requires
        total > 0,
    ensures
        r == if requested < total { requested } else { (total - 1) as usize },
{
    if requested < total {
        requested
    } else {
        total - 1
    }
}

/// The panel that the keys act on.
#[derive(Debug, Clone, Copy, PartialEq, Eq, Structural)]
pub enum Focus {
    FileList,
    Settings,
}

impl Focus {
    /// The other panel (what the tab key switches to).
    pub fn switched(self) -> (r: Focus)
        ensures
            r != self,
    {
        match self {
            Focus::FileList => Focus::Settings,
            Focus::Settings => Focus::FileList,
        }
    }
}

/// The key hints at the foot of the screen, by the focused panel and
/// whether a setting is being adjusted.
pub open spec fn footer_text(focus: Focus, adjusting: bool) -> Seq<char> {
    match focus {
        Focus::FileList => "\u{2191}/\u{2193}: navigate | space: toggle | a: toggle all | tab: switch panel | h: help | t: theme | q: quit"@,
        Focus::Settings => if adjusting {
            "\u{2190}/\u{2192}: adjust | shift+\u{2190}/\u{2192}: fine adjust | esc: cancel | enter: process | h: help | t: theme | q: quit"@
        } else {
            "enter: start | tab: switch | h: help | t: theme | q: quit"@
        },
    }
}

/// The key hints for the focused panel and the setting being adjusted.
pub fn footer_hint(focus: Focus, selected_field: Option<SelectedField>) -> (r: &'static str)
    ensures
        r@ == footer_text(focus, selected_field is Some),
{
    match (focus, selected_field) {
        (Focus::FileList, _) => "\u{2191}/\u{2193}: navigate | space: toggle | a: toggle all | tab: switch panel | h: help | t: theme | q: quit",
        (Focus::Settings, Some(_)) => "\u{2190}/\u{2192}: adjust | shift+\u{2190}/\u{2192}: fine adjust | esc: cancel | enter: process | h: help | t: theme | q: quit",
        (Focus::Settings, None) => "enter: start | tab: switch | h: help | t: theme | q: quit",
    }
}

impl ConfigState {
    /// Whether the load-preview button is enabled, given the file path and
    /// settings of the preview shown, if any: when the settings or the
    /// highlighted file differ from the shown preview's (or nothing is
    /// shown), and no popup is open.
    pub fn load_preview_enabled(&self, shown: Option<(&str, &ComicConfig)>) -> (r: bool)
        requires
            self.wf(),
        ensures
            r == ({
                let config_changed = match shown {
                    Some((_, c)) => !same_settings(*c, self.config),
                    None => true,
                };
                let file_changed = match (self.selected, shown) {
                    (Some(i), Some((p, _))) => p@ != self.files@[i as int].0.archive_path@,
                    _ => true,
                };
                (config_changed || file_changed) && self.modal_state == ModalState::Closed
            }),
    {
        let config_changed = match shown {
            Some((_, c)) => !c.same_as(&self.config),
            None => true,
        };
        let file_changed = match (self.selected, shown) {
            (Some(i), Some((p, _))) => {
                let path = self.files[i].0.archive_path.as_str();
                !str_eq(p, path)
            },
            _ => true,
        };
        (config_changed || file_changed) && !self.is_modal_open()
    }
}

/// Whether two strings hold the same characters.
fn str_eq(a: &str, b: &str) -> (r: bool)
    ensures
        r == (a@ == b@),
{
    let x = crate::text::chars_of(a);
    let y = crate::text::chars_of(b);
    if x.len() != y.len() {
        return false;
    }
    let mut k: usize = 0;
    while k < x.len()
        invariant
            x@ == a@,
            y@ == b@,
            x@.len() == y@.len(),
            k <= x@.len(),
            forall|i: int| 0 <= i < k ==> x@[i] == y@[i],
        decreases x@.len() - k,
    {
        if x[k] != y[k] {
            proof {
                assert(a@[k as int] != b@[k as int]);
            }
            return false;
        }
        k += 1;
    }
    proof {
        assert(x@ =~= y@);
    }
    true
}

/// What the program does with a key before the screen sees it.
#[derive(Debug, Clone, Copy, PartialEq, Eq, Structural)]
pub enum KeyRoute {
    /// 'q' quits.
    Quit,
    /// 't' switches between the dark and light theme.
    ToggleTheme,
    /// Any other key goes to the screen shown.
    ToScreen,
}

/// Where a key goes.
pub fn route_key(key: Key) -> (r: KeyRoute)
    ensures
        r == (if key == Key::Char('q') {
            KeyRoute::Quit
        } else if key == Key::Char('t') {
            KeyRoute::ToggleTheme
        } else {
            KeyRoute::ToScreen
        }),
{
    match key {
        Key::Char('q') => KeyRoute::Quit,
        Key::Char('t') => KeyRoute::ToggleTheme,
        _ => KeyRoute::ToScreen,
    }
}

/// Files ordered by name: no file's name comes before an earlier one's.
pub open spec fn sorted_by_name(s: Seq<MangaFile>) -> bool {
    forall|i: int, j: int|
        0 <= i < j < s.len() ==> !name_lt(#[trigger] s[j].name@, #[trigger] s[i].name@)
}

proof fn lemma_insert_by_name(before: Seq<MangaFile>, p: int, x: MangaFile)
    requires
        sorted_by_name(before),
        0 <= p <= before.len(),
        forall|m: int| 0 <= m < p ==> name_lt(#[trigger] before[m].name@, x.name@),
        p < before.len() ==> !name_lt(before[p].name@, x.name@),
    ensures
        sorted_by_name(before.insert(p, x)),
{
    let after = before.insert(p, x);
    assert forall|i: int, j: int| 0 <= i < j < after.len() implies !name_lt(
        #[trigger] after[j].name@,
        #[trigger] after[i].name@,
    ) by {
        if j < p {
            assert(after[i] == before[i] && after[j] == before[j]);
        } else if j == p {
            assert(after[i] == before[i]);
            lemma_name_lt_total(before[i].name@, x.name@);
        } else if i == p {
            assert(after[j] == before[j - 1]);
            // before[j - 1] is not before before[p], which is not before x.
            if name_lt(before[j - 1].name@, x.name@) {
                if j - 1 > p {
                    lemma_name_lt_total(before[p].name@, before[j - 1].name@);
                    lemma_name_lt_total(before[p].name@, x.name@);
                    if before[p].name@ == before[j - 1].name@ {
                    } else {
                        lemma_name_lt_transitive(before[p].name@, before[j - 1].name@, x.name@);
                    }
                }
            }
        } else if i < p {
            assert(after[i] == before[i] && after[j] == before[j - 1]);
            if name_lt(before[j - 1].name@, before[i].name@) {
                lemma_name_lt_transitive(before[j - 1].name@, before[i].name@, x.name@);
                if j - 1 > p {
                    lemma_name_lt_total(before[p].name@, before[j - 1].name@);
                    lemma_name_lt_total(before[p].name@, x.name@);
                    if before[p].name@ != before[j - 1].name@ {
                        lemma_name_lt_transitive(before[p].name@, before[j - 1].name@, x.name@);
                    }
                }
            }
        } else {
            assert(after[i] == before[i - 1] && after[j] == before[j - 1]);
        }
    }
}

/// Whether a file has the name `n`.
pub open spec fn has_name(n: Seq<char>) -> spec_fn(MangaFile) -> bool {
    |f: MangaFile| f.name@ == n
}

/// The files of `s` named `n`, in their order in `s`.
pub open spec fn named(s: Seq<MangaFile>, n: Seq<char>) -> Seq<MangaFile> {
    s.filter(has_name(n))
}

/// A list of which no file is named `n` has none named `n`.
proof fn lemma_named_none(s: Seq<MangaFile>, n: Seq<char>)
    requires
        forall|i: int| 0 <= i < s.len() ==> (#[trigger] s[i]).name@ != n,
    ensures
        named(s, n) == Seq::<MangaFile>::empty(),
    decreases s.len(),
{
    reveal(Seq::filter);
    if s.len() > 0 {
        lemma_named_none(s.drop_last(), n);
        assert(s[s.len() - 1].name@ != n);
    }
}

/// The files of one file named `n`: itself, or none.
proof fn lemma_named_single(x: MangaFile, n: Seq<char>)
    ensures
        named(seq![x], n) == if x.name@ == n {
            seq![x]
        } else {
            Seq::<MangaFile>::empty()
        },
{
    reveal(Seq::filter);
    assert(seq![x].drop_last() =~= Seq::<MangaFile>::empty());
    assert(Seq::<MangaFile>::empty().filter(has_name(n)) =~= Seq::<MangaFile>::empty());
    assert(Seq::<MangaFile>::empty().push(x) =~= seq![x]);
}

/// The files ordered by name, files of one name keeping their order (as a
/// stable sort by name leaves them); the same files, none lost or added.
pub fn sort_by_name(files: Vec<MangaFile>) -> (r: Vec<MangaFile>)
    ensures
        sorted_by_name(r@),
        r@.to_multiset() == files@.to_multiset(),
        forall|n: Seq<char>| #[trigger] named(r@, n) == named(files@, n),
{
    broadcast use vstd::seq_lib::group_to_multiset_ensures;
    let ghost orig = files@;
    let mut rest = files;
    let mut out: Vec<MangaFile> = Vec::new();
    proof {
        assert(rest@ =~= orig.take(rest@.len() as int));
        assert(out@.to_multiset() =~= vstd::multiset::Multiset::empty());
        assert forall|n: Seq<char>| #[trigger] named(out@, n) == named(orig.skip(rest@.len() as int), n) by {
            assert(orig.skip(rest@.len() as int) =~= Seq::<MangaFile>::empty());
            lemma_named_none(out@, n);
            lemma_named_none(orig.skip(rest@.len() as int), n);
        }
    }
    while rest.len() > 0
        invariant
            rest@ == orig.take(rest@.len() as int),
            rest@.len() <= orig.len(),
            sorted_by_name(out@),
            out@.to_multiset().add(rest@.to_multiset()) == orig.to_multiset(),
            forall|n: Seq<char>| #[trigger] named(out@, n) == named(orig.skip(rest@.len() as int), n),
        decreases rest@.len(),
    {
        let ghost before_rest = rest@;
        let x = rest.pop().unwrap();
        proof {
            assert(before_rest =~= rest@.push(x));
        }
        let xc = chars_of(x.name.as_str());
        let mut p: usize = 0;
        while p < out.len()
            invariant
                p <= out@.len(),
                xc@ == x.name@,
                forall|m: int| 0 <= m < p ==> name_lt(#[trigger] out@[m].name@, x.name@),
            ensures
                p <= out@.len(),
                forall|m: int| 0 <= m < p ==> name_lt(#[trigger] out@[m].name@, x.name@),
                p < out@.len() ==> !name_lt(out@[p as int].name@, x.name@),
            decreases out@.len() - p,
        {
            let oc = chars_of(out[p].name.as_str());
            if !chars_lt(&oc, &xc) {
                break;
            }
            p += 1;
        }
        proof {
            lemma_insert_by_name(out@, p as int, x);
            vstd::seq_lib::to_multiset_insert(out@, p as int, x);
            vstd::seq_lib::to_multiset_build(rest@, x);
            assert(out@.insert(p as int, x).to_multiset().add(rest@.to_multiset()) =~= orig.to_multiset());
            let k = rest@.len() as int;
            assert(orig[k] == x);
            assert(orig.skip(k) =~= seq![x] + orig.skip(k + 1));
            let ins = out@.insert(p as int, x);
            let front = out@.take(p as int);
            let back = out@.skip(p as int);
            assert(ins =~= front + seq![x] + back);
            assert(out@ =~= front + back);
            assert forall|n: Seq<char>| #[trigger] named(ins, n) == named(orig.skip(k), n) by {
                Seq::filter_distributes_over_add(front + seq![x], back, has_name(n));
                Seq::filter_distributes_over_add(front, seq![x], has_name(n));
                Seq::filter_distributes_over_add(front, back, has_name(n));
                Seq::filter_distributes_over_add(seq![x], orig.skip(k + 1), has_name(n));
                lemma_named_single(x, n);
                assert(named(out@, n) == named(orig.skip(k + 1), n));
                assert(named(out@, n) == named(front, n) + named(back, n));
                assert(named(ins, n) == named(front, n) + named(seq![x], n) + named(back, n));
                assert(named(orig.skip(k), n) == named(seq![x], n) + named(orig.skip(k + 1), n));
                if x.name@ == n {
                    assert forall|i: int| 0 <= i < front.len() implies (#[trigger] front[i]).name@
                        != n by {
                        assert(name_lt(out@[i].name@, x.name@));
                        lemma_name_lt_total(x.name@, x.name@);
                    }
                    lemma_named_none(front, n);
                    assert(named(front, n) + named(back, n) =~= named(back, n));
                    assert(named(front, n) + seq![x] =~= seq![x]);
                } else {
                    assert(named(front, n) + Seq::<MangaFile>::empty() =~= named(front, n));
                    assert(Seq::<MangaFile>::empty() + named(orig.skip(k + 1), n) =~= named(
                        orig.skip(k + 1),
                        n,
                    ));
                }
            }
        }
        out.insert(p, x);
    }
    proof {
        assert(rest@.to_multiset() =~= vstd::multiset::Multiset::empty());
        assert(out@.to_multiset().add(rest@.to_multiset()) =~= out@.to_multiset());
        assert(orig.skip(0) =~= orig);
    }
    out
}

} // verus!
