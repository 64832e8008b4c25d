use comically::config_screen::{
    clamp_page, footer_hint, preview_request, preview_step, route_key, sort_by_name, ConfigAction, ConfigState,
    Focus, Key, KeyRoute, MangaFile, ModalState,
};
use comically::gray::GrayImage;
use comically::mobi::{kindlegen_failed, output_has_error};
use comically::pipeline::{
    completes_with_batch, package_step, Incoming, KindleGenRuns, NextStep, PackageStep,
};
use comically::progress::{
    current_status, finished_counts, progress_keys, scroll_down, scroll_up, scroll_window,
    stage_share, stage_weight, ComicStage, StageTimingBar, StageTimings, StatusKind,
};
use comically::screen::{
    button_colors, button_mouse, help_popup_area, placeholder_text_origin, ButtonVariant,
    CallOnce, ColorRole, DoNothing, ErrorInfo, MouseAction, Rect, Side, SplashScreen, State,
    ThemeMode,
};
use comically::settings::{ComicConfig, DevicePreset, OutputFormat, SelectedField, SplitStrategy};

fn files(n: usize) -> Vec<MangaFile> {
    (0..n)
        .map(|i| MangaFile { archive_path: format!("/c/{i}.cbz"), name: format!("{i}") })
        .collect()
}

fn screen(n: usize) -> ConfigState {
    ConfigState::new(files(n), ComicConfig::default(), "/out".to_string())
}

#[test]
fn error_screens() {
    let e = ErrorInfo::unknown_error("boom".to_string());
    assert_eq!(e.title, "unknown error");
    assert_eq!(e.message, vec!["boom".to_string()]);
    assert!(e.hint.is_none());
    let e = ErrorInfo::no_files("/x");
    assert_eq!(e.title, "no files found");
    assert_eq!(e.message, vec!["no comic/manga files found", "", "directory: /x"]);
    assert_eq!(e.hint.as_deref(), Some("supports .cbz .cbr .zip .rar"));
    let e = ErrorInfo::directory_error("/x", "denied");
    assert_eq!(e.title, "can't read dir");
    assert_eq!(e.message, vec!["failed to read directory", "", "directory: /x", "", "error: denied"]);
    assert_eq!(e.hint.as_deref(), Some("check that the directory exists"));
    let e = ErrorInfo::output_dir_error("/o", "full");
    assert_eq!(e.title, "fatal error");
    assert_eq!(e.message[4], "error: full");
    assert_eq!(e.hint.as_deref(), Some("check permissions and disk space"));
}

#[test]
fn new_screen_chooses_every_file() {
    let s = screen(3);
    assert_eq!(s.files.len(), 3);
    assert!(s.files.iter().all(|(_, chosen)| *chosen));
    assert_eq!(s.files[2].0.archive_path, "/c/2.cbz");
    assert_eq!(s.selected, Some(0));
    assert_eq!(s.modal_state, ModalState::Closed);
    assert_eq!(screen(0).selected, None);
}

#[test]
fn keys_move_toggle_and_start() {
    let mut s = screen(3);
    assert_eq!(s.handle_key(Key::Up, false, None), ConfigAction::Nothing);
    assert_eq!(s.selected, Some(0));
    s.handle_key(Key::Char('j'), false, None);
    s.handle_key(Key::Down, false, None);
    s.handle_key(Key::Down, false, None);
    assert_eq!(s.selected, Some(2));
    s.handle_key(Key::Char(' '), false, None);
    assert!(!s.files[2].1);
    match s.handle_key(Key::Enter, false, None) {
        ConfigAction::StartProcessing(paths) => {
            assert_eq!(paths, vec!["/c/0.cbz".to_string(), "/c/1.cbz".to_string()])
        }
        other => panic!("unexpected {:?}", other),
    }
    s.handle_key(Key::Char('a'), false, None);
    assert!(s.files.iter().all(|(_, c)| *c));
    s.handle_key(Key::Char('a'), false, None);
    assert!(s.files.iter().all(|(_, c)| !*c));
    assert_eq!(s.handle_key(Key::Enter, false, None), ConfigAction::Nothing);
}

#[test]
fn keys_change_settings() {
    let mut s = screen(1);
    s.handle_key(Key::Char('m'), false, None);
    assert!(!s.config.right_to_left);
    s.handle_key(Key::Char('s'), false, None);
    assert_eq!(s.config.split, SplitStrategy::Keep);
    s.handle_key(Key::Char('c'), false, None);
    assert!(!s.config.auto_crop);
    s.handle_key(Key::Char('f'), false, None);
    assert_eq!(s.config.output_format, OutputFormat::Epub);
    s.handle_key(Key::Char('u'), false, None);
    assert_eq!(s.selected_field, Some(SelectedField::Quality));
    s.handle_key(Key::Right, false, None);
    assert_eq!(s.config.compression_quality, 90);
    s.handle_key(Key::Char('g'), false, None);
    s.handle_key(Key::Left, true, None);
    assert_eq!(s.config.gamma, 175);
    s.handle_key(Key::Esc, false, None);
    assert_eq!(s.selected_field, None);
    s.handle_key(Key::Right, false, None);
    assert_eq!(s.config.gamma, 175);
    assert_eq!(s.handle_key(Key::Char('p'), false, None), ConfigAction::LoadPreview);
}

#[test]
fn popups_take_their_keys() {
    let mut s = screen(2);
    s.handle_key(Key::Char('h'), false, None);
    assert_eq!(s.modal_state, ModalState::Help);
    assert!(s.is_modal_open());
    s.handle_key(Key::Char('h'), false, None);
    assert_eq!(s.modal_state, ModalState::Closed);
    assert_eq!(s.handle_key(Key::Char('d'), false, None), ConfigAction::OpenDeviceSelector);
    assert_eq!(s.modal_state, ModalState::DeviceSelector);
    let kobo = DevicePreset { name: "Kobo Clara".to_string(), dimensions: (1072, 1448) };
    s.handle_key(Key::Enter, false, Some(kobo));
    assert_eq!(s.modal_state, ModalState::Closed);
    assert_eq!(s.config.device.name, "Kobo Clara");
    assert_eq!(s.config.device_dimensions(), (1072, 1448));
    assert!(!s.handle_scroll(true));
    assert_eq!(s.selected, Some(0));
    assert!(!s.handle_scroll(false));
    assert_eq!(s.selected, Some(1));
}

#[test]
fn preview_requests_and_enabling() {
    assert_eq!(preview_request(Some(1), 3, Some((1, 4))), Some((1, 4)));
    assert_eq!(preview_request(Some(2), 3, Some((1, 4))), Some((2, 0)));
    assert_eq!(preview_request(Some(5), 3, None), None);
    assert_eq!(preview_request(None, 3, None), None);
    assert_eq!(clamp_page(7, 5), 4);
    assert_eq!(preview_step(Some((2, 4)), true), Some((2, 5)));
    assert_eq!(preview_step(Some((2, 0)), false), Some((2, 0)));
    assert_eq!(preview_step(Some((2, usize::MAX)), true), Some((2, usize::MAX)));
    assert_eq!(preview_step(None, true), None);
    assert_eq!(clamp_page(2, 5), 2);
    let s = screen(2);
    let config = ComicConfig::default();
    assert!(s.load_preview_enabled(None));
    assert!(!s.load_preview_enabled(Some(("/c/0.cbz", &config))));
    assert!(s.load_preview_enabled(Some(("/c/1.cbz", &config))));
    let mut other = ComicConfig::default();
    other.gamma = 100;
    assert!(s.load_preview_enabled(Some(("/c/0.cbz", &other))));
}

#[test]
fn focus_footer_and_key_routes() {
    assert_eq!(Focus::FileList.switched(), Focus::Settings);
    assert_eq!(Focus::Settings.switched(), Focus::FileList);
    assert_eq!(footer_hint(Focus::Settings, None), "enter: start | tab: switch | h: help | t: theme | q: quit");
    assert!(footer_hint(Focus::FileList, None).starts_with("\u{2191}/\u{2193}: navigate"));
    assert!(footer_hint(Focus::Settings, Some(SelectedField::Gamma)).contains("fine adjust"));
    assert_eq!(route_key(Key::Char('q')), KeyRoute::Quit);
    assert_eq!(route_key(Key::Char('t')), KeyRoute::ToggleTheme);
    assert_eq!(route_key(Key::Up), KeyRoute::ToScreen);
    assert_eq!(ThemeMode::Dark.toggled(), ThemeMode::Light);
    assert_eq!(ThemeMode::Light.toggled(), ThemeMode::Dark);
    let _ = Side::Top;
    DoNothing.call_once();
}

#[test]
fn buttons_press_and_release() {
    assert_eq!(button_mouse(State::Normal, true, true, MouseAction::LeftDown, true), (State::Pressed, false));
    assert_eq!(button_mouse(State::Pressed, true, true, MouseAction::LeftUp, true), (State::Normal, true));
    assert_eq!(button_mouse(State::Pressed, true, false, MouseAction::LeftUp, true), (State::Normal, false));
    assert_eq!(button_mouse(State::Normal, false, true, MouseAction::LeftDown, true), (State::Normal, false));
    assert_eq!(button_mouse(State::Normal, true, true, MouseAction::LeftDown, false), (State::Normal, false));
    assert_eq!(
        button_colors(false, State::Pressed, ButtonVariant::Primary),
        (ColorRole::Content, ColorRole::Muted, ColorRole::Border, ColorRole::Border)
    );
    assert_eq!(
        button_colors(true, State::Pressed, ButtonVariant::Secondary),
        (ColorRole::Secondary, ColorRole::SecondaryPressed, ColorRole::Secondary, ColorRole::Border)
    );
}

#[test]
fn popup_and_placeholder_geometry() {
    let r = help_popup_area(Rect { x: 0, y: 0, width: 200, height: 60 });
    assert_eq!(r, Rect { x: 60, y: 10, width: 80, height: 40 });
    let r = help_popup_area(Rect { x: 5, y: 2, width: 50, height: 20 });
    assert_eq!(r, Rect { x: 10, y: 3, width: 40, height: 18 });
    assert_eq!(placeholder_text_origin(Rect { x: 4, y: 6, width: 30, height: 9 }), (14, 10));
    assert_eq!(placeholder_text_origin(Rect { x: 4, y: 6, width: 6, height: 1 }), (4, 6));
}

#[test]
fn stage_timings_add_up() {
    let mut t = StageTimings::new();
    assert_eq!(t.total(), 0);
    assert!(t.shares().is_empty());
    t.add_stage(ComicStage::Process, 3_000_000_000);
    t.add_stage(ComicStage::Package, 1_000_000_000);
    assert_eq!(t.total(), 4_000_000_000);
    assert_eq!(t.checked_total(), Some(4_000_000_000));
    let mut huge = StageTimings::new();
    huge.add_stage(ComicStage::Process, 18_446_744_073_709_551_615_999_999_999);
    assert_eq!(huge.checked_total(), Some(18_446_744_073_709_551_615_999_999_999));
    huge.add_stage(ComicStage::Convert, 1);
    assert_eq!(huge.checked_total(), None);
    assert_eq!(t.shares(), vec![75, 25]);
    assert_eq!(stage_share(1, 3), 33);
    assert_eq!(stage_share(1, 2), 50);
    assert_eq!(stage_share(1, 8), 13);
    assert_eq!(ComicStage::Convert.name(), "convert");
    let bar = StageTimingBar::new(&t).width(30);
    assert_eq!(bar.width, 30);
}

#[test]
fn progress_list_scrolls_within_bounds() {
    let w = scroll_window(10, 4, 8);
    assert_eq!((w.offset, w.end, w.scrollbar), (6, 10, true));
    let w = scroll_window(3, 4, 2);
    assert_eq!((w.offset, w.end, w.scrollbar), (0, 3, false));
    let w = scroll_window(10, 4, 2);
    assert_eq!((w.offset, w.end), (2, 6));
    assert_eq!(scroll_down(2, true), 3);
    assert_eq!(scroll_down(2, false), 2);
    assert_eq!(scroll_down(usize::MAX, true), usize::MAX);
    assert_eq!(scroll_up(0), 0);
    assert_eq!(scroll_up(5), 4);
    assert_eq!(progress_keys(false), "q: quit");
    assert_eq!(progress_keys(true), "q: quit | \u{2191}/k: up | \u{2193}/j: down");
}

#[test]
fn packaging_steps_by_format() {
    assert_eq!(package_step(OutputFormat::Cbz), PackageStep::Cbz);
    assert_eq!(package_step(OutputFormat::Epub), PackageStep::Epub);
    assert_eq!(package_step(OutputFormat::Mobi), PackageStep::EpubThenKindleGen);
    assert!(completes_with_batch(OutputFormat::Cbz));
    assert!(completes_with_batch(OutputFormat::Epub));
    assert!(!completes_with_batch(OutputFormat::Mobi));
}

#[test]
fn kindlegen_runs_bookkeeping() {
    let mut runs = KindleGenRuns::new();
    assert!(runs.is_idle());
    assert_eq!(runs.on_incoming(Incoming::Nothing), NextStep::CheckRuns);
    assert_eq!(runs.on_incoming(Incoming::Closed), NextStep::Stop);
    assert_eq!(runs.on_incoming(Incoming::Started(3)), NextStep::LookAgain);
    assert_eq!(runs.on_incoming(Incoming::Started(5)), NextStep::LookAgain);
    assert_eq!(runs.on_incoming(Incoming::Closed), NextStep::CheckRuns);
    assert!(runs.on_ended(3));
    assert!(!runs.on_ended(3));
    assert!(!runs.is_idle());
    assert!(runs.on_ended(5));
    assert!(runs.is_idle());
    assert_eq!(runs.on_incoming(Incoming::Closed), NextStep::Stop);
}

#[test]
fn kindlegen_errors_are_found_on_line_starts() {
    assert!(output_has_error("Error(prcgen):E23006: Unexpected error"));
    assert!(output_has_error("Info(prcgen): ok\r\nError(core): bad\r\n"));
    assert!(!output_has_error("Info(prcgen): no Error( here"));
    assert!(!output_has_error(""));
    assert!(kindlegen_failed(false, "all fine"));
    assert!(kindlegen_failed(true, "x\nError(a)"));
    assert!(!kindlegen_failed(true, "Warning(x): fine"));
}

#[test]
fn manga_files_sort_by_name_stably() {
    let mk = |path: &str, name: &str| MangaFile { archive_path: path.to_string(), name: name.to_string() };
    let sorted = sort_by_name(vec![mk("/c", "b"), mk("/a1", "a"), mk("/d", "B"), mk("/a2", "a")]);
    let paths: Vec<&str> = sorted.iter().map(|f| f.archive_path.as_str()).collect();
    assert_eq!(paths, vec!["/d", "/a1", "/a2", "/c"]);
}

#[test]
fn splash_advances_to_its_end() {
    let mut s = SplashScreen::new(GrayImage::new(2, 2), 2);
    assert!(!s.is_complete());
    s.advance();
    s.advance();
    assert!(s.is_complete());
    s.advance();
    assert_eq!(s.current_step, 2);
}

#[test]
fn stage_weights_by_format() {
    assert_eq!(stage_weight(OutputFormat::Mobi, ComicStage::Process), 50);
    assert_eq!(stage_weight(OutputFormat::Mobi, ComicStage::Convert), 40);
    assert_eq!(stage_weight(OutputFormat::Epub, ComicStage::Package), 10);
    assert_eq!(stage_weight(OutputFormat::Cbz, ComicStage::Process), 85);
    assert_eq!(stage_weight(OutputFormat::Cbz, ComicStage::Convert), 0);
}

#[test]
fn current_status_skips_stage_completions() {
    assert_eq!(current_status(&vec![StatusKind::Waiting, StatusKind::Processing, StatusKind::StageCompleted, StatusKind::StageCompleted]), Some(1));
    assert_eq!(current_status(&vec![StatusKind::Waiting, StatusKind::Success]), Some(1));
    assert_eq!(current_status(&vec![StatusKind::StageCompleted]), None);
    assert_eq!(current_status(&vec![]), None);
    assert_eq!(finished_counts(&vec![StatusKind::Success, StatusKind::Failed, StatusKind::Processing, StatusKind::Success, StatusKind::Waiting]), (3, 2));
    assert_eq!(finished_counts(&vec![]), (0, 0));
}

#[test]
fn every_started_run_is_reported_ended_once() {
    let mut runs = KindleGenRuns::new();
    let mut reported: Vec<usize> = Vec::new();
    assert_eq!(runs.on_incoming(Incoming::Started(1)), NextStep::LookAgain);
    assert_eq!(runs.on_incoming(Incoming::Started(2)), NextStep::LookAgain);
    assert_eq!(runs.on_incoming(Incoming::Closed), NextStep::CheckRuns);
    for id in [2, 2, 7, 1, 1] {
        if runs.on_ended(id) {
            reported.push(id);
        }
    }
    assert_eq!(reported, vec![2, 1]);
    assert!(runs.is_idle());
    assert_eq!(runs.on_incoming(Incoming::Closed), NextStep::Stop);
}

#[test]
fn toggles_change_nothing_else() {
    let mut s = screen(3);
    s.handle_key(Key::Down, false, None);
    s.config.brightness = i32::MAX;
    s.handle_key(Key::Char('m'), false, None);
    assert_eq!(s.selected, Some(1));
    assert_eq!(s.modal_state, ModalState::Closed);
    assert_eq!(s.selected_field, None);
    assert!(s.config.right_to_left != ComicConfig::default().right_to_left);
    s.handle_key(Key::Char('a'), false, None);
    assert_eq!(s.files[1].0.archive_path, "/c/1.cbz");
    assert_eq!(s.files[2].0.name, "2");
    assert!(s.files.iter().all(|(_, chosen)| !*chosen));
    s.handle_key(Key::Char('h'), false, None);
    assert_eq!(s.handle_key(Key::Enter, false, None), ConfigAction::Nothing);
    assert_eq!(s.modal_state, ModalState::Help);
    assert_eq!(s.selected, Some(1));
    assert_eq!(s.handle_key(Key::Esc, false, None), ConfigAction::Nothing);
    assert_eq!(s.modal_state, ModalState::Closed);
    assert_eq!(s.config.brightness, i32::MAX);
    let mut empty = screen(0);
    empty.handle_key(Key::Down, false, None);
    empty.handle_key(Key::Char(' '), false, None);
    assert_eq!(empty.selected, None);
    assert_eq!(empty.files.len(), 0);
}

#[test]
fn popup_fits_near_the_edge_of_the_screen() {
    let r = help_popup_area(Rect { x: 65000, y: 65000, width: 100, height: 40 });
    assert_eq!((r.x, r.y, r.width, r.height), (65010, 65002, 80, 36));
    assert_eq!(placeholder_text_origin(Rect { x: 65500, y: 65500, width: 30, height: 20 }), (65510, 65510));
}

#[test]
fn scrolling_keeps_the_rest_of_the_screen() {
    let mut s = screen(3);
    s.handle_key(Key::Char('b'), false, None);
    assert!(!s.handle_scroll(false));
    assert_eq!(s.selected, Some(1));
    assert_eq!(s.selected_field, Some(SelectedField::Brightness));
    assert_eq!(s.modal_state, ModalState::Closed);
    assert_eq!(s.output_dir, "/out");
}
