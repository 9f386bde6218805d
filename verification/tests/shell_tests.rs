use prinny_shell::capture::{CapturePolicy, CAPTURE_INTENT_WINDOW_NS};
use prinny_shell::custom_css::{
    check_stylesheet_size, CssError, CssFileWatch, CustomCssWatch, FileStamp, StampStep, MAX_FILE_BYTES,
};
use prinny_shell::dropped::{
    check_dropped_size, describe_dropped, dropped_file_info, DropError, DroppedPaths, DROPPED_FILE_MAX_BYTES,
};
use prinny_shell::numbers::parse_i64;
use prinny_shell::shell::{
    badge_overlay_index, badge_value, new_window_action, no_proxy_value, spell_check_locales, starts_minimized,
    NewWindowAction,
};
use prinny_shell::taskbar::{best_image, set_overlay};

const SEC: u64 = 1_000_000_000;

#[test]
fn capture_needs_arming_or_call() {
    let mut p = CapturePolicy::new();
    assert!(!p.decide(true, 5 * SEC));
    p.arm(10 * SEC);
    assert!(!p.decide(false, 11 * SEC));
    assert!(p.decide(true, 11 * SEC));
    // one arming, one request
    assert!(!p.decide(true, 12 * SEC));
}

#[test]
fn capture_window_expires() {
    let mut p = CapturePolicy::new();
    p.arm(SEC);
    assert!(!p.decide(true, SEC + CAPTURE_INTENT_WINDOW_NS));
    p.arm(SEC);
    assert!(p.decide(true, SEC + CAPTURE_INTENT_WINDOW_NS - 1));
    // a clock that went backwards counts as no time elapsed
    p.arm(20 * SEC);
    assert!(p.decide(true, 19 * SEC));
}

#[test]
fn capture_during_call() {
    let mut p = CapturePolicy::new();
    p.set_session(true);
    assert!(p.decide(true, 0));
    assert!(p.decide(true, 100 * SEC));
    assert!(!p.decide(false, 100 * SEC));
    p.set_session(false);
    assert!(!p.decide(true, 100 * SEC));
}

#[test]
fn dropped_paths_authorise_one_read() {
    let mut d = DroppedPaths::new();
    assert!(!d.take_authorisation("/a", "/a"));
    d.record("/home/u/a.png".to_string());
    d.record("/home/u/b.txt".to_string());
    d.record("/home/u/a.png".to_string());
    assert!(d.take_authorisation("/home/u/a.png", "/home/u/./a.png"));
    assert!(!d.take_authorisation("/home/u/a.png", "/home/u/a.png"));
    // the page may name the link, the canonical form is listed
    assert!(d.take_authorisation("/home/u/b.txt", "/link/b.txt"));
    assert!(!d.take_authorisation("/home/u/b.txt", "/link/b.txt"));
    d.record("/x".to_string());
    assert!(d.take_authorisation("/elsewhere", "/x"));
}

#[test]
fn dropped_size_and_description() {
    assert_eq!(check_dropped_size(DROPPED_FILE_MAX_BYTES), Ok(()));
    assert_eq!(check_dropped_size(DROPPED_FILE_MAX_BYTES + 1), Err(DropError::TooLarge));
    let i = describe_dropped("/home/u/photo.png");
    assert_eq!(i.name, "photo.png");
    assert_eq!(i.mime, "image/png");
    let i = describe_dropped("/home/u/notes.unknownext");
    assert_eq!(i.mime, "application/octet-stream");
    let i = describe_dropped("/");
    assert_eq!(i.name, "file");
    let i = dropped_file_info(None, "text/plain".to_string());
    assert_eq!((i.name.as_str(), i.mime.as_str()), ("file", "text/plain"));
    let i = dropped_file_info(Some("a.txt".to_string()), "text/plain".to_string());
    assert_eq!(i.name, "a.txt");
}

#[test]
fn stylesheet_limits() {
    assert_eq!(check_stylesheet_size(MAX_FILE_BYTES), Ok(()));
    assert_eq!(check_stylesheet_size(MAX_FILE_BYTES + 1), Err(CssError::TooLarge(MAX_FILE_BYTES + 1)));
}

#[test]
fn one_css_watcher() {
    let mut w = CustomCssWatch::new();
    assert_eq!(w.replace(1), None);
    assert_eq!(w.replace(2), Some(1));
    assert_eq!(w.stop(), Some(2));
    assert_eq!(w.stop(), None);
}

#[test]
fn css_file_watch_passes_real_edits_only() {
    let s0 = FileStamp { secs: 100, nanos: 0, len: 3 };
    let mut w = CssFileWatch::new(Some(s0), "a{}".to_string());
    assert!(w.begin_round(false));
    assert_eq!(w.on_stamp(Some(s0)), StampStep::Unchanged);
    assert!(w.begin_round(false));
    assert_eq!(w.on_stamp(None), StampStep::Unchanged);
    // touched without changing the content
    let s1 = FileStamp { secs: 101, nanos: 0, len: 3 };
    assert!(w.begin_round(false));
    assert_eq!(w.on_stamp(Some(s1)), StampStep::Read);
    assert_eq!(w.on_content("a{}".to_string()), None);
    assert!(w.begin_round(false));
    assert_eq!(w.on_stamp(Some(s1)), StampStep::Unchanged);
    let s2 = FileStamp { secs: 102, nanos: 5, len: 4 };
    assert!(w.begin_round(false));
    assert_eq!(w.on_stamp(Some(s2)), StampStep::Read);
    assert_eq!(w.on_content("b{ }".to_string()).as_deref(), Some("b{ }"));
    let big = FileStamp { secs: 103, nanos: 0, len: MAX_FILE_BYTES + 1 };
    assert!(w.begin_round(false));
    assert_eq!(w.on_stamp(Some(big)), StampStep::TooLarge(MAX_FILE_BYTES + 1));
    assert!(w.begin_round(false));
    assert_eq!(w.on_stamp(Some(big)), StampStep::Unchanged);
}

#[test]
fn css_file_watch_steps_outside_a_round_do_nothing() {
    let s0 = FileStamp { secs: 1, nanos: 0, len: 1 };
    let s1 = FileStamp { secs: 2, nanos: 0, len: 1 };
    let mut w = CssFileWatch::new(Some(s0), "a".to_string());
    // no round begun
    assert_eq!(w.on_stamp(Some(s1)), StampStep::Unchanged);
    assert_eq!(w.on_content("b".to_string()), None);
    // content without a changed stamp is not asked for
    assert!(w.begin_round(false));
    assert_eq!(w.on_content("b".to_string()), None);
    // the round still waits for its stamp
    assert_eq!(w.on_stamp(Some(s1)), StampStep::Read);
}

#[test]
fn css_file_watch_stop() {
    let s0 = FileStamp { secs: 1, nanos: 0, len: 1 };
    let s1 = FileStamp { secs: 2, nanos: 0, len: 1 };
    let s2 = FileStamp { secs: 3, nanos: 0, len: 1 };
    let mut w = CssFileWatch::new(Some(s0), "a".to_string());
    assert!(w.begin_round(false));
    assert_eq!(w.on_stamp(Some(s1)), StampStep::Read);
    // the stop flag is set while this round runs: its change still goes out
    assert_eq!(w.on_content("b".to_string()).as_deref(), Some("b"));
    assert!(!w.begin_round(true));
    // and nothing after it, even if the flag were read as clear again
    assert!(!w.begin_round(false));
    assert_eq!(w.on_stamp(Some(s2)), StampStep::Unchanged);
    assert_eq!(w.on_content("c".to_string()), None);
}

#[test]
fn badges() {
    assert_eq!(badge_overlay_index(0), None);
    assert_eq!(badge_overlay_index(1), Some(1));
    assert_eq!(badge_overlay_index(9), Some(9));
    assert_eq!(badge_overlay_index(10), Some(10));
    assert_eq!(badge_overlay_index(4000), Some(10));
    assert_eq!(badge_value(0), None);
    assert_eq!(badge_value(42), Some(42));
    assert_eq!(badge_value(u32::MAX), Some(u32::MAX as i64));
}

#[test]
fn no_proxy() {
    assert_eq!(no_proxy_value("").as_deref(), Some("localhost,127.0.0.1"));
    assert_eq!(no_proxy_value("corp.example").as_deref(), Some("corp.example,localhost,127.0.0.1"));
    assert_eq!(no_proxy_value("localhost"), None);
    assert_eq!(no_proxy_value("a,localhost.corp"), None);
    let once = no_proxy_value("x").unwrap();
    assert_eq!(no_proxy_value(&once), None);
}

#[test]
fn locales() {
    let values = vec!["en_GB.UTF-8:de_DE::C".to_string(), "C".to_string(), "fr_FR".to_string()];
    assert_eq!(spell_check_locales(&values), vec!["en_GB", "de_DE", "fr_FR"]);
    assert!(spell_check_locales(&vec![]).is_empty());
    assert_eq!(spell_check_locales(&vec!["C.UTF-8".to_string()]), vec!["C"]);
}

#[test]
fn minimized_flag() {
    assert!(starts_minimized(&vec!["prinny".to_string(), "--minimized".to_string()]));
    assert!(!starts_minimized(&vec!["prinny".to_string(), "--minimized=1".to_string()]));
    assert!(!starts_minimized(&vec![]));
}

#[test]
fn new_windows() {
    assert_eq!(new_window_action("https"), NewWindowAction::OpenExternally);
    assert_eq!(new_window_action("http"), NewWindowAction::OpenExternally);
    assert_eq!(new_window_action("blob"), NewWindowAction::Ignore);
    assert_eq!(new_window_action("file"), NewWindowAction::Refuse);
    assert_eq!(new_window_action("HTTPS"), NewWindowAction::Refuse);
}

#[test]
fn decimal_versions() {
    assert_eq!(parse_i64("1"), Some(1));
    assert_eq!(parse_i64("+7"), Some(7));
    assert_eq!(parse_i64("-9223372036854775808"), Some(i64::MIN));
    assert_eq!(parse_i64("9223372036854775807"), Some(i64::MAX));
    assert_eq!(parse_i64("9223372036854775808"), None);
    assert_eq!(parse_i64(""), None);
    assert_eq!(parse_i64("-"), None);
    assert_eq!(parse_i64(" 1"), None);
    assert_eq!(parse_i64("1x"), None);
}

fn ico(entries: &[(u8, u32, u32)], payload_len: usize) -> Vec<u8> {
    let mut v = vec![0, 0, 1, 0];
    v.extend_from_slice(&(entries.len() as u16).to_le_bytes());
    for &(w, size, offset) in entries {
        let mut e = [0u8; 16];
        e[0] = w;
        e[1] = w;
        e[8..12].copy_from_slice(&size.to_le_bytes());
        e[12..16].copy_from_slice(&offset.to_le_bytes());
        v.extend_from_slice(&e);
    }
    for i in 0..payload_len {
        v.push(i as u8);
    }
    v
}

#[test]
fn ico_best_image() {
    // three entries: 32px at 54..58, 16px at 58..62, 48px at 62..64
    let data = ico(&[(32, 4, 54), (16, 4, 58), (48, 2, 62)], 10);
    assert_eq!(best_image(&data), Some(&data[58..62]));
    // a tie keeps the earlier entry
    let data = ico(&[(24, 2, 38), (8, 2, 40)], 4);
    assert_eq!(best_image(&data), Some(&data[38..40]));
    // width 0 means 256
    let data = ico(&[(0, 2, 38), (200, 2, 40)], 4);
    assert_eq!(best_image(&data), Some(&data[40..42]));
    // entries pointing outside the data or at nothing are skipped
    let data = ico(&[(16, 100, 38), (16, 0, 38), (64, 2, 38)], 4);
    assert_eq!(best_image(&data), Some(&data[38..40]));
    let data = ico(&[(16, 100, 38)], 4);
    assert_eq!(best_image(&data), None);
    // a directory claiming more entries than the file holds
    let mut data = ico(&[(16, 2, 22)], 2);
    data[4] = 5;
    assert_eq!(best_image(&data), Some(&data[22..24]));
    // not an icon directory
    assert_eq!(best_image(&[0, 0, 2, 0, 1, 0]), None);
    assert_eq!(best_image(&[0, 0, 1, 0, 0, 0]), None);
    assert_eq!(best_image(&[0, 0, 1]), None);
    set_overlay(0, None);
}
