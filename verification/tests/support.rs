use dialog_cursor_mover::autostart::{
    invalidate_cache, is_registered, mix, task_xml, uninstall, unique_suffix, xml_escape,
    RegistrationCache, ARG_AUTOSTART,
};
use dialog_cursor_mover::cursor::{slot_of, Cached, CursorState, Speed};
use dialog_cursor_mover::dialog::Point;
use dialog_cursor_mover::log::{
    debug, format_line, info, sanitize, set_level, timestamp, truncation_start, Logger, NORMAL, VERBOSE,
};
use dialog_cursor_mover::motion::{gives_up, is_near, left_start, move_rejected, moves_instantly, next_stall_count, tick_stalled, tick_stuck, user_moved};
use dialog_cursor_mover::sound::{file_refusal, path_refusal, wav_target, MAX_WAV_BYTES};
use dialog_cursor_mover::theme::{available as themes_available, cursor, dir_of, icon, is_valid_name, sound};
use dialog_cursor_mover::util::{encode_utf16, fill_wide, from_wide, system32_path, wide};

#[test]
fn wide_strings_end_in_nul_and_read_back() {
    assert_eq!(wide("ab"), vec![0x61, 0x62, 0]);
    assert_eq!(encode_utf16("😀"), vec![0xD83D, 0xDE00]);
    assert_eq!(from_wide(&[0x61, 0x62, 0, 0x63]), "ab");
    assert_eq!(from_wide(&[0x61, 0x62]), "ab");
    // a lone surrogate becomes U+FFFD
    assert_eq!(from_wide(&[0xD800, 0x61]), "\u{fffd}a");
}

#[test]
fn a_fixed_buffer_keeps_its_nul() {
    let mut buf = [0xFFFFu16; 4];
    fill_wide(&mut buf, "abcdef");
    assert_eq!(buf, [0x61, 0x62, 0x63, 0]);
    let mut buf = [0xFFFFu16; 4];
    fill_wide(&mut buf, "a");
    assert_eq!(buf[..2], [0x61, 0]);
}

#[test]
fn system_files_are_found_in_system32() {
    assert_eq!(system32_path(Some(r"C:\Windows\System32".to_string()), "schtasks.exe"), r"C:\Windows\System32\schtasks.exe");
    assert_eq!(system32_path(None, "schtasks.exe"), "schtasks.exe");
}

#[test]
fn theme_names_cannot_leave_the_theme_directory() {
    assert!(is_valid_name("cat"));
    assert!(!is_valid_name(".."));
    assert!(!is_valid_name(r"a\b"));
    assert_eq!(dir_of(r"C:\app", "cat"), Some(r"C:\app\theme\cat".to_string()));
    assert_eq!(dir_of(r"C:\app", ""), None);
    assert_eq!(icon(r"C:\app", "cat"), Some(r"C:\app\theme\cat\icon.ico".to_string()));
    assert_eq!(sound(r"C:\app", "cat"), Some(r"C:\app\theme\cat\sound.wav".to_string()));
    assert_eq!(sound(r"C:\app", "../x"), None);
}

#[test]
fn running_cursors_are_named_by_direction_and_speed() {
    let (arrow, busy) = cursor(r"C:\app", "cat", true, Speed::Fast.suffix()).unwrap();
    assert!(arrow.starts_with(r"C:\app\theme\cat\"));
    assert!(busy.starts_with(r"C:\app\theme\cat\"));
    assert!(arrow.contains("_fast"));
    assert_ne!(arrow, busy);
    assert_eq!(cursor(r"C:\app", "", true, ""), None);
}

#[test]
fn themes_are_listed_in_order() {
    let found = vec!["zebra".to_string(), "cat".to_string(), "dog".to_string()];
    assert_eq!(themes_available(&found), vec!["cat".to_string(), "dog".to_string(), "zebra".to_string()]);
}

#[test]
fn speeds_follow_the_duration() {
    assert_eq!(Speed::from_duration_ms(160), Speed::Fast);
    assert_eq!(Speed::from_duration_ms(320), Speed::Normal);
    assert_eq!(Speed::from_duration_ms(640), Speed::Slow);
    assert_eq!(slot_of(true, Speed::Fast), 0);
    assert_eq!(slot_of(false, Speed::Slow), 5);
}

#[test]
fn the_cursor_cache_belongs_to_one_theme() {
    let mut c = CursorState::new();
    let dropped = c.use_theme("cat");
    assert!(dropped.iter().all(|h| *h == 0));
    assert_eq!(c.cached(1), Cached::Empty);
    c.remember(1, Some(42));
    assert_eq!(c.cached(1), Cached::Loaded(42));
    c.remember(2, None);
    assert_eq!(c.cached(2), Cached::Failed);
    assert!(c.needs_apply(1));
    assert!(c.applied(1));
    assert!(!c.needs_apply(1));
    assert!(!c.applied(1));
    assert!(c.restored());
    assert!(!c.is_active());
    let dropped = c.use_theme("dog");
    assert!(dropped.contains(&42));
    assert_eq!(c.cached(1), Cached::Empty);
}

#[test]
fn moves_are_judged_by_the_measured_position() {
    let from = Point { x: 0, y: 0 };
    assert!(is_near(Point { x: 2, y: -2 }, from));
    assert!(!is_near(Point { x: 3, y: 0 }, from));
    assert!(moves_instantly(true, 300, from, Point { x: 5, y: 5 }));
    assert!(!moves_instantly(true, 300, from, Point { x: 100, y: 0 }));
    assert!(moves_instantly(false, 300, from, Point { x: 100, y: 0 }));
    assert!(moves_instantly(true, 0, from, Point { x: 100, y: 0 }));
    assert!(move_rejected(from, Point { x: 100, y: 0 }, Point { x: 1, y: 0 }));
    assert!(!move_rejected(from, Point { x: 100, y: 0 }, Point { x: 98, y: 0 }));
    let last = Point { x: 50, y: 0 };
    let prev = Point { x: 40, y: 0 };
    assert!(!user_moved(Point { x: 55, y: 0 }, last, prev, from, 3));
    assert!(user_moved(Point { x: 80, y: 0 }, last, prev, from, 3));
    assert!(!user_moved(Point { x: 1, y: 0 }, last, prev, from, 3));
    assert!(tick_stuck(true, Point { x: 60, y: 0 }, last, last));
    assert!(!tick_stuck(false, Point { x: 60, y: 0 }, last, last));
    assert_eq!(next_stall_count(2, true), 3);
    assert_eq!(next_stall_count(2, false), 0);
    assert_eq!(next_stall_count(255, true), 255);
    assert!(gives_up(3));
    assert!(!gives_up(2));
    assert!(tick_stalled(100, 49));
    assert!(!tick_stalled(100, 50));
    assert!(left_start(true, Point { x: 3, y: 0 }, from));
    assert!(!left_start(false, Point { x: 30, y: 0 }, from));
}

#[test]
fn sound_files_are_checked_before_playing() {
    assert_eq!(path_refusal(r"C:\a\b.WAV"), None);
    assert!(path_refusal(r"\\server\share\a.wav").is_some());
    assert!(path_refusal(r"C:\a\b.mp3").is_some());
    assert!(path_refusal(r"C:\a.b\wav").is_some());
    assert!(path_refusal(r"C:\a\.wav").is_some());
    assert_eq!(file_refusal(true, true, 100), None);
    assert!(file_refusal(false, true, 100).is_some());
    assert!(file_refusal(true, false, 100).is_some());
    assert!(file_refusal(true, true, MAX_WAV_BYTES + 1).is_some());
    assert_eq!(wav_target("  C:\\a.wav "), Some("C:\\a.wav".to_string()));
    assert_eq!(wav_target("   "), None);
}

#[test]
fn log_lines_are_stamped_and_kept_on_one_line() {
    assert_eq!(timestamp(2024, 3, 7, 9, 5, 1, 42), "2024-03-07 09:05:01.042");
    assert_eq!(format_line("T", "a\nb\rc\u{1}"), "[T] a\u{21B5}bc\u{FFFD}\r\n");
    assert_eq!(sanitize("x\ty"), "x\u{FFFD}y");
    let mut log = Logger::new();
    assert_eq!(info(&log, "T", "m"), None);
    assert!(set_level(&mut log, 7));
    assert_eq!(log.level, VERBOSE);
    assert_eq!(debug(&log, "T", "m"), Some("[T] m\r\n".to_string()));
    assert!(set_level(&mut log, NORMAL));
    assert_eq!(debug(&log, "T", "m"), None);
    assert!(info(&log, "T", "m").is_some());
    assert!(!set_level(&mut log, NORMAL));
}

#[test]
fn a_truncated_log_starts_at_a_line() {
    let data = b"aaaa\nbbbb\ncccc\ndddd\n";
    let start = truncation_start(data);
    assert_eq!(&data[start..], b"dddd\n");
}

#[test]
fn task_definitions_escape_their_values() {
    assert_eq!(xml_escape("a<b>&c"), "a&lt;b&gt;&amp;c");
    let xml = task_xml(r"C:\A&B\app.exe", r"C:\A&B", Some("PC".to_string()), Some("me".to_string())).unwrap();
    assert!(xml.contains(r"<UserId>PC\me</UserId>"));
    assert!(xml.contains(r"<Command>C:\A&amp;B\app.exe</Command>"));
    assert!(xml.contains(&format!("<Arguments>{ARG_AUTOSTART}</Arguments>")));
    assert!(task_xml("a", "b", Some("PC".to_string()), None).is_err());
    let local = task_xml("a", "b", None, Some("me".to_string())).unwrap();
    assert!(local.contains("<UserId>me</UserId>"));
}

#[test]
fn file_name_suffixes_are_hex_of_the_mixed_seed() {
    let s = unique_suffix(12345);
    assert_eq!(s.len(), 32);
    assert!(s.chars().all(|c| c.is_ascii_hexdigit()));
    assert_eq!(u128::from_str_radix(&s, 16).unwrap(), mix(12345));
    assert_ne!(unique_suffix(1), unique_suffix(2));
}

#[test]
fn registration_is_asked_once_until_invalidated() {
    let mut cache = RegistrationCache::new();
    assert!(is_registered(&mut cache, || true));
    assert!(is_registered(&mut cache, || false));
    invalidate_cache(&mut cache);
    assert!(!is_registered(&mut cache, || false));
    let r = uninstall(&mut cache, || Err("denied".to_string()));
    assert_eq!(r, Err("denied".to_string()));
    assert_eq!(cache.known, None);
}
