use popalarm::alarm::{MenuAction, POPAlarm};
use popalarm::clock::ClockReading;
use popalarm::color::Rgba;

fn clock(
    time2show: &str,
    countdown: &str,
    pos_pc: i32,
    timezone: i32,
    custom_timezone: bool,
) -> POPAlarm {
    POPAlarm::new(
        "conf.ini".to_string(),
        1,
        2,
        time2show.to_string(),
        "snd/*a.wav|b.wav*c.wav".to_string(),
        countdown.to_string(),
        3,
        "right".to_string(),
        pos_pc,
        String::new(),
        "1,2,3".to_string(),
        String::new(),
        String::new(),
        String::new(),
        "tip0|tip1*count".to_string(),
        String::new(),
        String::new(),
        1,
        timezone,
        custom_timezone,
        String::new(),
        true,
        false,
        reading(50, 1, 2, 3),
    )
    .unwrap()
}

fn reading(ts: i64, h: u32, m: u32, s: u32) -> ClockReading {
    ClockReading { utc_timestamp: ts, local_hour: h, local_minute: m, local_second: s }
}

fn config_of(ini: &ini::Ini) -> Vec<(String, String)> {
    ini.section(Some("Config"))
        .unwrap()
        .iter()
        .map(|(k, v)| (k.to_string(), v.to_string()))
        .collect()
}

#[test]
fn new_fills_the_inputs() {
    let a = clock(":30:", "", 40, -3, true);
    assert_eq!(a.pos_pc_input, "40");
    assert_eq!(a.timezone_input, "-3");
    assert!(a.visible && !a.tikpop && !a.inited);
    assert_eq!((a.now_timestamp, a.now_hour, a.now_minute, a.now_second), (50, 1, 2, 3));
    let b = clock(":30:", "", -1, 7, false);
    assert_eq!(b.pos_pc_input, "");
    assert_eq!(b.timezone_input, "");
}

#[test]
fn saving_fresh_inputs_keeps_settings() {
    let mut a = clock(":30:", "", 40, -3, true);
    assert!(a.save_settings(None).is_ok());
    assert_eq!((a.pos_pc, a.timezone, a.custom_timezone), (40, -3, true));
    let mut b = clock(":30:", "", -1, 7, false);
    assert!(b.save_settings(None).is_ok());
    assert_eq!((b.pos_pc, b.timezone, b.custom_timezone), (-1, 0, false));
}

#[test]
fn saving_writes_the_config_section() {
    let mut a = clock(":30:", " ", 25, 2, true);
    a.round = false;
    a.time_countdown = true;
    let ini = a.save_settings(Some("3".to_string())).unwrap();
    let expected: Vec<(String, String)> = vec![
        ("time", ":30:"),
        ("pos", "right,25%"),
        ("round", "0"),
        ("show_time", "3"),
        ("timezone", "2"),
        ("tips", "tip0|tip1*count"),
        ("border_color", "1,2,3"),
        ("time_countdown", "1"),
    ]
    .into_iter()
    .map(|(k, v)| (k.to_string(), v.to_string()))
    .collect();
    assert_eq!(config_of(&ini), expected);
}

#[test]
fn saving_refuses_bad_numbers() {
    let mut a = clock(":30:", "", -1, 0, false);
    a.pos_pc_input = "4x".to_string();
    a.timezone_input = "y".to_string();
    assert_eq!(a.save_settings(None).err().unwrap(), "Position percent must be an integer");
    assert_eq!(a.pos_pc, -1);
    a.pos_pc_input = " 12 ".to_string();
    assert_eq!(a.save_settings(None).err().unwrap(), "Timezone must be an integer hour offset");
    assert_eq!(a.pos_pc, -1);
    a.timezone_input = "".to_string();
    assert!(a.save_settings(None).is_ok());
    assert_eq!(a.pos_pc, 12);
}

#[test]
fn first_frame_sets_the_daily_target() {
    let mut a = clock(":30:,1:2:3", "", -1, 0, false);
    a.time_countdown = true;
    a.init_show = 0;
    assert!(a.initialize());
    assert_eq!(a.time_countdown_target, 3723);
    assert!(!a.visible && a.inited);
    assert!(!a.initialize());
}

#[test]
fn clock_follows_the_zone_setting() {
    let mut a = clock("", "", -1, 2, true);
    a.set_clock(reading(3600, 9, 9, 9));
    assert_eq!((a.now_hour, a.now_minute, a.now_second), (3, 0, 0));
    let mut w = clock("", "", -1, -5, true);
    w.set_clock(reading(7200, 9, 9, 9));
    assert_eq!((w.now_hour, w.now_minute, w.now_second), (21, 0, 0));
    let mut b = clock("", "", -1, 0, false);
    b.set_clock(reading(3600, 9, 8, 7));
    assert_eq!((b.now_hour, b.now_minute, b.now_second), (9, 8, 7));
    assert_eq!(b.shown_clock(String::new()), "09:08:07");
    assert_eq!(b.shown_clock("00:01:00".to_string()), "00:01:00");
}

#[test]
fn reminder_pops_up_once() {
    let mut a = clock(":30:,:00:", "", -1, 0, false);
    a.set_clock(reading(100, 10, 0, 0));
    let p = a.check_reminders().unwrap();
    assert_eq!(p.sound, "snd/b.wav");
    assert!(p.save_window_pos);
    assert!(a.tikpop && a.in_time_popup && a.visible);
    assert_eq!(a.show_tips, "tip1");
    // the popup runs its time, and the window is as it was
    assert!(a.popup_frame(true));
    assert!(!a.tikpop && !a.in_time_popup);
    assert_eq!(a.show_tips, "");
    a.set_clock(reading(101, 10, 0, 1));
    assert!(a.check_reminders().is_none());
}

#[test]
fn popup_restores_a_hidden_window() {
    let mut a = clock(":30:", "", -1, 0, false);
    a.visible = false;
    a.set_clock(reading(100, 10, 30, 0));
    let p = a.check_reminders().unwrap();
    assert!(!p.save_window_pos);
    assert!(a.visible);
    assert!(!a.popup_frame(true));
    assert!(!a.visible);
}

#[test]
fn countdown_menu_item_and_steps() {
    let mut a = clock("", "::30,::10", -1, 0, false);
    a.set_clock(reading(1000, 0, 0, 0));
    assert_eq!(a.on_menu_event(3), MenuAction::Countdown(true));
    assert_eq!(a.countdown_start_time, 1000);
    a.set_clock(reading(1010, 0, 0, 10));
    let f = a.clock_step();
    assert_eq!(f.custom_clock, "00:00:20");
    assert!(f.popup.is_none());
    a.set_clock(reading(1030, 0, 0, 30));
    let f = a.clock_step();
    assert_eq!(f.custom_clock, "00:00:10");
    let p = f.popup.unwrap();
    assert_eq!(p.sound, "snd/c.wav");
    assert!(a.tikpop);
    assert_eq!(a.show_tips, "count");
    a.set_clock(reading(1045, 0, 0, 45));
    let f = a.clock_step();
    assert_eq!(f.custom_clock, "00:00:30");
    assert!(f.popup.is_none());
    assert_eq!(a.countdown_start_time, 1045);
    assert_eq!(a.on_menu_event(3), MenuAction::Countdown(false));
    assert!(!a.countdown_start);
}

#[test]
fn countdown_item_twice_restores() {
    let mut a = clock("", "", -1, 0, false);
    let before = a.countdown_start;
    a.on_menu_event(3);
    a.on_menu_event(3);
    assert_eq!(a.countdown_start, before);
}

#[test]
fn daily_countdown_clock() {
    let mut a = clock("1:0:0", "", -1, 0, false);
    a.time_countdown = true;
    a.initialize();
    a.set_clock(reading(0, 0, 59, 0));
    assert_eq!(a.clock_step().custom_clock, "00:01:00");
}

#[test]
fn other_menu_items() {
    let mut a = clock("", "", -1, 0, false);
    a.visible = false;
    a.settings_status = "x".to_string();
    assert_eq!(a.on_menu_event(2), MenuAction::OpenSettings);
    assert!(a.show_settings && a.visible);
    assert_eq!(a.settings_status, "");
    assert_eq!(a.on_menu_event(1), MenuAction::Quit);
    assert_eq!(a.on_menu_event(9), MenuAction::Ignored);
    a.settings_saved(Ok(()));
    assert_eq!(a.settings_status, "Saved to conf.ini");
    a.close_settings();
    assert!(!a.show_settings);
    assert_eq!(a.settings_status, "");
}

#[test]
fn tray_click_twice_restores() {
    let mut a = clock("", "", -1, 0, false);
    a.tikpop = true;
    assert!(!a.on_tray_click());
    assert!(!a.tikpop);
    assert!(a.on_tray_click());
    assert!(a.visible);
}

#[test]
fn palette_uses_defaults_and_settings() {
    let a = clock("", "", -1, 0, false);
    let t = Rgba { r: 5, g: 6, b: 7, a: 8 };
    let p = a.palette(t);
    assert_eq!(p.panel_fill, Rgba { r: 97, g: 122, b: 131, a: 220 });
    assert_eq!(p.border_color, Rgba { r: 1, g: 2, b: 3, a: 255 });
    assert_eq!(p.time_color, t);
}

#[test]
fn unreadable_sounds_matter_only_when_a_popup_starts() {
    let mut a = clock(":30:", "", -1, 0, false);
    a.sound_path = "abc".to_string();
    a.set_clock(reading(1000, 0, 0, 0));
    a.on_menu_event(3);
    a.set_clock(reading(1100, 0, 1, 40));
    assert!(a.can_step_clock());
    assert_eq!(a.clock_step().custom_clock, "00:08:20");
    assert!(a.can_check_reminders());
    assert!(a.check_reminders().is_none());
    a.set_clock(reading(1700, 0, 30, 0));
    assert!(!a.can_check_reminders());
    a.countdown_start_time = 1000;
    a.set_clock(reading(1601, 0, 0, 0));
    assert!(!a.can_step_clock());
}

#[test]
fn close_button_hides_the_window() {
    let mut a = clock("", "", -1, 0, false);
    a.close_window();
    assert!(!a.visible);
}
