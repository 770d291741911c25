use popalarm::clock::{zone_offset_seconds, zone_time_of_day};
use popalarm::schedule::{
    choose_sound, choose_tips, countdown_frame, countdown_target, find_ringing, hms_to_text,
    time_countdown_text,
};

#[test]
fn countdown_target_is_first_full_time() {
    assert_eq!(countdown_target(":30:,1:2:3,4:5:6"), Some(3723));
    assert_eq!(countdown_target(":30:,::"), None);
    assert_eq!(countdown_target(""), None);
    assert_eq!(countdown_target("23:59:59"), Some(86399));
}

#[test]
fn reminders_ring_on_matching_times() {
    // ":30:" rings at minute 30, second 0 of every hour
    assert_eq!(find_ringing(":30:,:00:", 10, 30, 0), Some(0));
    assert_eq!(find_ringing(":30:,:00:", 10, 0, 0), Some(1));
    assert_eq!(find_ringing(":30:,:00:", 10, 30, 5), None);
    assert_eq!(find_ringing(":30:,:00:", 10, 31, 0), None);
    assert_eq!(find_ringing("", 10, 30, 0), None);
    // a leading zero matches too
    assert_eq!(find_ringing("08:05:", 8, 5, 0), Some(0));
    assert_eq!(find_ringing("8:5:7", 8, 5, 7), Some(0));
    assert_eq!(find_ringing("8:5:07", 8, 5, 7), Some(0));
    // a non-matching hour does not read the rest of the entry
    assert_eq!(find_ringing("9", 8, 5, 7), None);
}

#[test]
fn ten_minute_countdown_without_entries() {
    let f = countdown_frame("", 100, false);
    assert_eq!(f.clock, "00:08:20");
    assert_eq!(f.fire, None);
    assert!(!f.restart);
    let f = countdown_frame("", 601, false);
    assert_eq!(f.clock, "00:00:00");
    assert_eq!(f.fire, Some(0));
    assert!(f.restart);
    let f = countdown_frame("", 601, true);
    assert_eq!(f.fire, None);
    assert!(f.restart);
}

#[test]
fn countdown_entries_run_one_after_the_other() {
    // "::30,::10": thirty seconds, then ten
    let f = countdown_frame("::30,::10", 5, false);
    assert_eq!((f.clock.as_str(), f.fire, f.restart), ("00:00:25", None, false));
    let f = countdown_frame("::30,::10", 30, false);
    assert_eq!((f.clock.as_str(), f.fire, f.restart), ("00:00:10", Some(0), false));
    let f = countdown_frame("::30,::10", 30, true);
    assert_eq!((f.clock.as_str(), f.fire, f.restart), ("00:00:10", None, false));
    let f = countdown_frame("::30,::10", 40, false);
    assert_eq!((f.clock.as_str(), f.fire, f.restart), ("00:00:30", Some(1), true));
    let f = countdown_frame("::30,::10", 50, false);
    assert_eq!((f.clock.as_str(), f.fire, f.restart), ("00:00:30", Some(0), true));
}

#[test]
fn countdown_minutes_are_not_reduced() {
    let f = countdown_frame("1:30:", 0, false);
    assert_eq!(f.clock, "01:90:00");
}

#[test]
fn daily_countdown_counts_to_the_target() {
    assert_eq!(time_countdown_text(3600, 0, 59, 0), "00:01:00");
    // past the target: count into the next day
    assert_eq!(time_countdown_text(60, 23, 59, 30), "00:01:30");
    assert_eq!(time_countdown_text(0, 0, 0, 0), "00:00:00");
}

#[test]
fn clock_texts_are_padded() {
    assert_eq!(hms_to_text(1, 2, 3), "01:02:03");
    assert_eq!(hms_to_text(12, 34, 56), "12:34:56");
}

#[test]
fn sounds_are_chosen_by_index() {
    assert_eq!(choose_sound("d/*a.wav|b.wav", 1, true), "d/b.wav");
    assert_eq!(choose_sound("d/*a.wav|b.wav", 5, false), "d/a.wav");
    assert_eq!(choose_sound("d/*a|b*c|e", 1, false), "d/e");
    assert_eq!(choose_sound("d/*a|b*c|e", 1, true), "d/b");
    assert_eq!(choose_sound("d/*a*c*e", 0, false), "");
}

#[test]
fn tips_are_chosen_by_index() {
    assert_eq!(choose_tips("x|y", 1, true), "y");
    assert_eq!(choose_tips("x|y*z", 0, false), "z");
    assert_eq!(choose_tips("x|y*z", 3, true), "x");
    assert_eq!(choose_tips("x*y*z", 0, false), "");
}

#[test]
fn zone_offsets_come_from_chrono() {
    assert_eq!(zone_offset_seconds(3), 10800);
    // a negative setting is west of UTC
    assert_eq!(zone_offset_seconds(-5), -18000);
    assert_eq!(zone_offset_seconds(0), 0);
}

#[test]
fn time_of_day_in_a_zone() {
    assert_eq!(zone_time_of_day(0, 3600), (1, 0, 0));
    assert_eq!(zone_time_of_day(-1, 0), (23, 59, 59));
    assert_eq!(zone_time_of_day(1_700_000_000, 0), (22, 13, 20));
}
