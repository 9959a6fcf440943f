use dialog_cursor_mover::config::Config;
use dialog_cursor_mover::dialog::{
    center_of, class_contains, class_is, dpi_scale_percent, find_default_button, find_ok_button,
    has_progress_bar, is_browser_window, is_candidate_dialog, is_dialog_like, is_file_dialog,
    point_in_rect, process_name, Point, Rect, WindowFacts, BS_DEFPUSHBUTTON, BS_PUSHBUTTON,
    IDOK, WS_CAPTION, WS_CHILD, WS_POPUP,
};
use dialog_cursor_mover::monitor::{dialog_route, timer_delay, Monitor, PendingKind, Route, UiaFacts, UiaVerdict};
use dialog_cursor_mover::pending::{next_step, PendingFacts, Question, Reason, Step, Via};
use dialog_cursor_mover::uia::{find_ok_button as uia_find_ok_button, has_cancel_sibling, read_button, ButtonInfo, ElementFacts, ScanInfo, CONTROL_TYPE_BUTTON, CONTROL_TYPE_PROGRESSBAR};

fn class(s: &str) -> Vec<u16> {
    s.encode_utf16().collect()
}

fn rect(left: i32, top: i32, right: i32, bottom: i32) -> Rect {
    Rect { left, top, right, bottom }
}

fn button(text: &str, style: u32, id: i32, r: Rect) -> WindowFacts {
    WindowFacts {
        exists: true,
        visible: true,
        enabled: true,
        class: class("Button"),
        style,
        id,
        text: text.to_string(),
        rect: Some(r),
    }
}

fn child(cls: &str, visible: bool) -> WindowFacts {
    WindowFacts {
        exists: true,
        visible,
        enabled: true,
        class: class(cls),
        style: WS_CHILD,
        id: 0,
        text: String::new(),
        rect: None,
    }
}

#[test]
fn geometry_of_rectangles() {
    let r = rect(100, 500, 181, 531);
    assert_eq!(center_of(&r), Point { x: 140, y: 515 });
    assert!(point_in_rect(&Point { x: 100, y: 500 }, &r));
    assert!(!point_in_rect(&Point { x: 181, y: 510 }, &r));
    assert_eq!(dpi_scale_percent(96), 100);
    assert_eq!(dpi_scale_percent(192), 200);
    assert_eq!(dpi_scale_percent(0), 100);
}

#[test]
fn class_names_compare_without_case() {
    assert!(class_is(&class("#32770"), "#32770"));
    assert!(class_contains(&class("WindowsForms10.BUTTON.app"), "button"));
    assert!(!class_is(&class("Button2"), "button"));
    assert!(is_browser_window(&class("Chrome_WidgetWin_1")));
    assert!(!is_browser_window(&class("Notepad")));
}

#[test]
fn the_executable_name_is_lower_cased() {
    assert_eq!(process_name(r"C:\Tools\PeaZip.EXE"), Some("peazip.exe".to_string()));
    assert_eq!(process_name(r"C:\Tools\"), None);
    assert_eq!(process_name(""), None);
}

#[test]
fn a_standard_dialog_is_a_candidate() {
    let mut w = WindowFacts {
        exists: true,
        visible: true,
        enabled: true,
        class: class("#32770"),
        style: WS_POPUP | WS_CAPTION,
        id: 0,
        text: "Save".to_string(),
        rect: Some(rect(0, 0, 300, 200)),
    };
    assert!(is_candidate_dialog(&w, true));
    w.class = class("MyPopup");
    assert!(!is_candidate_dialog(&w, true));
    assert!(is_candidate_dialog(&w, false));
    w.text = String::new();
    assert!(!is_candidate_dialog(&w, false));
}

#[test]
fn a_large_window_is_not_dialog_like() {
    let small = WindowFacts {
        exists: true,
        visible: true,
        enabled: true,
        class: class("Something"),
        style: WS_POPUP | WS_CAPTION,
        id: 0,
        text: "Question".to_string(),
        rect: Some(rect(100, 100, 500, 300)),
    };
    assert!(is_dialog_like(&small, false, Some((1920, 1080))));
    let mut big = small;
    big.rect = Some(rect(0, 0, 1900, 1000));
    assert!(!is_dialog_like(&big, false, Some((1920, 1080))));
    let mut shadow = big;
    shadow.rect = Some(rect(100, 100, 500, 300));
    shadow.class = class("SysShadow");
    assert!(!is_dialog_like(&shadow, false, Some((1920, 1080))));
}

#[test]
fn the_ok_button_wins_over_other_labels() {
    let children = vec![
        button("Cancel", BS_PUSHBUTTON, 2, rect(200, 300, 280, 330)),
        button("はい", BS_PUSHBUTTON, 6, rect(10, 300, 90, 330)),
        button("OK", BS_DEFPUSHBUTTON, IDOK, rect(100, 300, 180, 330)),
    ];
    assert_eq!(find_ok_button(&children, &[]), Some(2));
    let none = vec![button("Delete", BS_PUSHBUTTON, 3, rect(0, 0, 10, 10))];
    assert_eq!(find_ok_button(&none, &[]), None);
}

#[test]
fn a_default_button_beside_cancel_is_followed() {
    let dlg = rect(0, 0, 400, 300);
    let children = vec![
        button("Proceed", BS_DEFPUSHBUTTON, 10, rect(100, 100, 180, 130)),
        button("Cancel", BS_PUSHBUTTON, 2, rect(190, 100, 270, 130)),
    ];
    assert_eq!(find_default_button(Some(dlg), &children, 100), Some(0));
    // alone and high up in the dialog: not followed
    let alone = vec![button("Proceed", BS_DEFPUSHBUTTON, 10, rect(100, 20, 180, 50))];
    assert_eq!(find_default_button(Some(dlg), &alone, 100), None);
    // alone but in the bottom quarter: followed
    let footer = vec![button("Proceed", BS_DEFPUSHBUTTON, 10, rect(100, 250, 180, 280))];
    assert_eq!(find_default_button(Some(dlg), &footer, 100), Some(0));
    assert_eq!(find_default_button(None, &footer, 100), None);
}

#[test]
fn pickers_and_progress_dialogs_are_told_apart() {
    assert!(is_file_dialog(&[child("SHELLDLL_DefView", true)]));
    assert!(!is_file_dialog(&[child("SHELLDLL_DefView", true), child("SysTabControl32", true)]));
    assert!(!is_file_dialog(&[child("SHELLDLL_DefView", false)]));
    assert!(has_progress_bar(&[child("msctls_progress32", true)]));
    assert!(!has_progress_bar(&[child("msctls_progress32", false)]));
}

#[test]
fn events_are_routed_by_the_settings() {
    let mut cfg = Config::default();
    cfg.enabled = true;
    cfg.uia_enabled = true;
    assert_eq!(dialog_route(&cfg.flags(), true), Route::Classic);
    assert_eq!(dialog_route(&cfg.flags(), false), Route::ThroughUia);
    cfg.uia_enabled = false;
    assert_eq!(dialog_route(&cfg.flags(), false), Route::Uninteresting);
    cfg.enabled = false;
    assert_eq!(dialog_route(&cfg.flags(), true), Route::Disabled);
    assert_eq!(timer_delay(0), 1);
    assert_eq!(timer_delay(250), 250);
}

#[test]
fn a_dialog_seen_twice_in_a_short_time_is_a_repeat() {
    let mut cfg = Config::default();
    cfg.ignore_own_process = true;
    let flags = cfg.flags();
    let mut m = Monitor::new();
    assert!(m.accept_dialog(&flags, 0x100, false, false, 1_000));
    assert_eq!(m.pending, 0x100);
    assert_eq!(m.pending_kind, PendingKind::Window);
    assert!(!m.accept_dialog(&flags, 0x100, false, false, 2_000));
    // after the dedup window it counts again
    assert!(m.accept_dialog(&flags, 0x100, false, false, 2_600));
    // the same window through UI Automation is throttled elsewhere, not here
    assert!(m.accept_dialog(&flags, 0x100, true, false, 2_700));
    assert_eq!(m.pending_kind, PendingKind::Uia);
    m.finish_pending(0x100);
    assert_eq!(m.pending, 0);
}

#[test]
fn own_dialogs_are_skipped_unless_allowed_once() {
    let mut cfg = Config::default();
    cfg.ignore_own_process = true;
    let flags = cfg.flags();
    let mut m = Monitor::new();
    assert!(!m.accept_dialog(&flags, 7, false, true, 0));
    m.allow_own_once = true;
    assert!(m.accept_dialog(&flags, 7, false, true, 0));
    assert!(!m.allow_own_once);
    cfg.ignore_own_process = false;
    let flags = cfg.flags();
    m.begin_suppress();
    assert!(!m.accept_dialog(&flags, 8, false, true, 0));
    m.end_suppress();
    assert!(m.accept_dialog(&flags, 8, false, true, 0));
}

#[test]
fn a_window_is_moved_to_once_while_it_stays_open() {
    let mut m = Monitor::new();
    assert!(m.claim_move(5, true, &[]));
    assert!(!m.claim_move(5, true, &[]));
    // once closed, its record is dropped
    assert!(m.claim_move(6, true, &[5]));
    assert!(m.claim_move(5, true, &[]));
    assert!(m.claim_move(5, false, &[]));
}

#[test]
fn moves_to_the_same_place_are_not_repeated_soon() {
    let mut m = Monitor::new();
    let p = Point { x: 10, y: 20 };
    m.record_move(3, p, 1_000);
    assert!(m.recently_moved(3, p, 3_000));
    assert!(!m.recently_moved(3, p, 3_500));
    assert!(!m.recently_moved(4, p, 1_500));
    assert!(!m.recently_moved(3, Point { x: 11, y: 20 }, 1_500));
}

#[test]
fn focus_changes_and_scans_are_throttled() {
    let mut m = Monitor::new();
    assert!(!m.focus_throttled(1_000));
    assert!(m.focus_throttled(1_100));
    assert!(!m.focus_throttled(1_200));
    let mut cfg = Config::default();
    cfg.uia_dialog_like_only = true;
    let flags = cfg.flags();
    let facts = UiaFacts { is_ripple: false, root: 9, self_window: 1, root_visible: true, dialog_like: Some(true), in_front: true };
    assert_eq!(m.uia_candidate(&flags, &facts, 0), UiaVerdict::Scan(9));
    assert_eq!(m.uia_candidate(&flags, &facts, 100), UiaVerdict::Throttled);
    let behind = UiaFacts { in_front: false, ..facts };
    assert_eq!(m.uia_candidate(&flags, &behind, 5_000), UiaVerdict::NotInFront);
    let odd = UiaFacts { dialog_like: Some(false), ..facts };
    assert_eq!(m.uia_candidate(&flags, &odd, 5_000), UiaVerdict::NotDialogLike);
    let mine = UiaFacts { root: 1, ..facts };
    assert_eq!(m.uia_candidate(&flags, &mine, 5_000), UiaVerdict::Ignored);
}

#[test]
fn the_tray_icon_is_retried_a_limited_number_of_times() {
    let mut m = Monitor::new();
    for i in 1..=20 {
        assert_eq!(m.tray_failed(), Some(i));
    }
    assert_eq!(m.tray_failed(), None);
    assert!(m.tray_registered());
    assert!(!m.tray_registered());
}

#[test]
fn a_pending_dialog_is_asked_about_in_turn() {
    let mut cfg = Config::default();
    cfg.enabled = true;
    cfg.require_foreground = true;
    cfg.exclude_titles = vec![];
    cfg.exclude_processes = vec![];
    cfg.skip_file_dialogs = true;
    cfg.skip_progress_dialogs = true;
    cfg.skip_if_cursor_inside = true;
    let mut f = PendingFacts::new();
    assert_eq!(next_step(&cfg, false, 0x10, &f), Step::Ask(Question::Alive));
    f.alive = Some(true);
    assert_eq!(next_step(&cfg, false, 0x10, &f), Step::Ask(Question::Minimized));
    f.minimized = Some(false);
    assert_eq!(next_step(&cfg, false, 0x10, &f), Step::Ask(Question::Foreground));
    f.foreground = Some(true);
    assert_eq!(next_step(&cfg, false, 0x10, &f), Step::Ask(Question::FileDialog));
    f.file_dialog = Some(false);
    assert_eq!(next_step(&cfg, false, 0x10, &f), Step::Ask(Question::ProgressBar));
    f.progress_bar = Some(false);
    assert_eq!(next_step(&cfg, false, 0x10, &f), Step::Ask(Question::OkButton));
    f.ok_button = Some(Some(rect(100, 500, 180, 530)));
    assert_eq!(next_step(&cfg, false, 0x10, &f), Step::Ask(Question::Cursor));
    f.cursor = Some(Some(Point { x: 0, y: 0 }));
    assert_eq!(next_step(&cfg, false, 0x10, &f), Step::Ask(Question::OnMonitor));
    f.on_monitor = Some(true);
    assert_eq!(next_step(&cfg, false, 0x10, &f), Step::Move(Point { x: 140, y: 515 }, Via::Hwnd));
    f.cursor = Some(Some(Point { x: 120, y: 510 }));
    assert_eq!(next_step(&cfg, false, 0x10, &f), Step::Skip(Reason::CursorInside));
}

#[test]
fn pending_dialogs_are_skipped_for_each_reason() {
    let mut cfg = Config::default();
    cfg.enabled = true;
    cfg.exclude_titles = vec!["fastcopy".to_string()];
    cfg.exclude_processes = vec!["PeaZip.exe".to_string()];
    let mut f = PendingFacts::new();
    f.alive = Some(false);
    assert_eq!(next_step(&cfg, false, 1, &f), Step::Skip(Reason::Closed));
    f.alive = Some(true);
    f.minimized = Some(true);
    assert_eq!(next_step(&cfg, false, 1, &f), Step::Skip(Reason::Minimized));
    f.minimized = Some(false);
    f.foreground = Some(false);
    cfg.require_foreground = true;
    assert_eq!(next_step(&cfg, false, 1, &f), Step::Skip(Reason::NotForeground));
    cfg.require_foreground = false;
    f.title = Some("FastCopy ver5".to_string());
    assert_eq!(next_step(&cfg, false, 1, &f), Step::Skip(Reason::ExcludedTitle));
    f.title = Some("Other".to_string());
    f.process = Some(Some("peazip.exe".to_string()));
    assert_eq!(next_step(&cfg, false, 1, &f), Step::Skip(Reason::ExcludedProcess));
    cfg.enabled = false;
    assert_eq!(next_step(&cfg, false, 1, &f), Step::Skip(Reason::Disabled));
}

#[test]
fn without_a_labelled_button_the_default_and_then_uia_are_tried() {
    let mut cfg = Config::default();
    cfg.enabled = true;
    cfg.require_foreground = false;
    cfg.exclude_titles = vec![];
    cfg.exclude_processes = vec![];
    cfg.skip_file_dialogs = false;
    cfg.skip_progress_dialogs = true;
    cfg.skip_if_cursor_inside = false;
    cfg.follow_dialog_default_button = true;
    cfg.follow_default_in_browser = true;
    cfg.uia_enabled = true;
    let mut f = PendingFacts::new();
    f.alive = Some(true);
    f.minimized = Some(false);
    f.progress_bar = Some(false);
    f.ok_button = Some(None);
    assert_eq!(next_step(&cfg, false, 1, &f), Step::Ask(Question::DefaultButton));
    f.default_button = Some(None);
    assert_eq!(next_step(&cfg, false, 1, &f), Step::Ask(Question::UiaButton));
    f.uia = Some((Some(rect(0, 0, 10, 10)), true));
    assert_eq!(next_step(&cfg, false, 1, &f), Step::Skip(Reason::ProgressBarSeenByUia));
    f.uia = Some((None, false));
    assert_eq!(next_step(&cfg, false, 1, &f), Step::NotFound);
    f.uia = Some((Some(rect(0, 0, 10, 10)), false));
    f.on_monitor = Some(false);
    assert_eq!(next_step(&cfg, false, 1, &f), Step::Skip(Reason::OffMonitor));
    f.on_monitor = Some(true);
    assert_eq!(next_step(&cfg, false, 1, &f), Step::Move(Point { x: 5, y: 5 }, Via::Uia));
}

#[test]
fn ui_automation_elements_become_buttons() {
    let mut info = ScanInfo::new();
    let ok = ElementFacts {
        control_type: Some(CONTROL_TYPE_BUTTON),
        offscreen: Some(false),
        enabled: Some(true),
        name: Some("OK".to_string()),
        rect: Some(rect(10, 10, 50, 30)),
    };
    let b = read_button(ok, &mut info).expect("a pressable button");
    assert_eq!(b.name, "OK");
    assert_eq!(info.seen, vec!["OK".to_string()]);
    let bar = ElementFacts {
        control_type: Some(CONTROL_TYPE_PROGRESSBAR),
        offscreen: None,
        enabled: Some(true),
        name: None,
        rect: None,
    };
    assert!(read_button(bar, &mut info).is_none());
    assert!(info.progress);
    let disabled = ElementFacts {
        control_type: Some(CONTROL_TYPE_BUTTON),
        offscreen: Some(false),
        enabled: Some(false),
        name: Some("Go".to_string()),
        rect: Some(rect(0, 0, 5, 5)),
    };
    assert!(read_button(disabled, &mut info).is_none());
}

#[test]
fn the_best_labelled_uia_button_is_found() {
    let buttons = vec![
        ButtonInfo { name: "Cancel".to_string(), rect: rect(200, 100, 280, 130) },
        ButtonInfo { name: "OK".to_string(), rect: rect(100, 100, 180, 130) },
    ];
    let found = uia_find_ok_button(&buttons, &[]).expect("OK is found");
    assert_eq!(found.name, "OK");
    assert_eq!(found.rect, rect(100, 100, 180, 130));
    assert!(has_cancel_sibling(&buttons, &rect(100, 100, 180, 130), 100));
    assert!(!has_cancel_sibling(&buttons[1..], &rect(100, 100, 180, 130), 100));
}
