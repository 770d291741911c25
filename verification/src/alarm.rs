//! The reminder clock's state and the decisions it takes each frame; the
//! window, the sound and the clock itself stay with the caller, which
//! performs the actions these decisions return.

use vstd::prelude::*;
use crate::text::{int_text, int_to_text, is_blank, parse_i32, parse_i32_spec, trim_seq, trim_str};
use crate::config::{config_section, ini_new, ini_sections, key_rank, lemma_key_ranks, put_config, Props};
use crate::schedule::{
    choose_sound, choose_tips, countdown_frame, countdown_readable, reminder_target_readable,
    reminders_readable, sound_path_readable, countdown_ok, countdown_step, countdown_target,
    find_ringing, hms_text, hms_to_text, ringing_ok, ringing_reminder, sound_for,
    sound_path_ok, target_from, target_ok_from, entries_of, time_countdown_clock,
    time_countdown_text, tips_for,
};
use crate::color::{
    color_of, color_text_ok, color_text_readable, gene_color, premultiplied_color, Rgba,
};
use crate::clock::{ClockReading, time_of_day, zone_offset, zone_offset_seconds, zone_time_of_day};

verus! {

/// The state of the reminder clock.
pub struct POPAlarm {
    /// Where the settings are saved.
    pub config_path: String,
    /// Menu item that quits.
    pub quit_index: u32,
    /// Menu item that opens the settings.
    pub settings_index: u32,
    /// Reminder times, `h:m:s,...`.
    pub time2show: String,
    /// Whether a popup is showing.
    pub tikpop: bool,
    /// Whether the window is shown.
    pub visible: bool,
    /// Whether the window was shown before the popup.
    pub last_visible: bool,
    /// Sounds of the popups; see `sound_for`.
    pub sound_path: String,
    /// Countdown entries, `h:m:s,...`.
    pub countdown: String,
    /// Menu item that starts and stops the countdown.
    pub countdown_index: u32,
    /// Whether the first frame has been prepared.
    pub inited: bool,
    /// Whether the countdown runs.
    pub countdown_start: bool,
    /// When the countdown (re)started, in seconds since the epoch.
    pub countdown_start_time: i64,
    /// Whether the showing popup is a reminder (not a countdown).
    pub in_time_popup: bool,
    /// Height of the popup in percent of the screen, or -1.
    pub pos_pc: i32,
    /// Side of the screen the popup slides in from.
    pub pos_dir: String,
    pub custom_bg_color: String,
    pub custom_border_color: String,
    pub custom_number_bg_color: String,
    pub custom_number_color: String,
    pub custom_clock_bg_color: String,
    /// Tips of the popups; see `tips_for`.
    pub tips_store: String,
    /// The tip showing.
    pub show_tips: String,
    pub font_path: String,
    /// The clock reading of this frame: seconds since the epoch.
    pub now_timestamp: i64,
    /// The clock reading of this frame: the time of day shown.
    pub now_hour: u32,
    pub now_minute: u32,
    pub now_second: u32,
    /// Target of the daily countdown, in seconds since midnight (0: none).
    pub time_countdown_target: u32,
    /// 0: start with the window hidden.
    pub init_show: i32,
    /// Hour offset of the zone shown, when `custom_timezone`.
    pub timezone: i32,
    pub custom_timezone: bool,
    pub time_font: String,
    pub round: bool,
    /// Whether the clock counts down to the first full reminder time.
    pub time_countdown: bool,
    pub show_settings: bool,
    pub settings_status: String,
    pub show_time_input: String,
    pub pos_pc_input: String,
    pub timezone_input: String,
}

/// The text a number setting is edited as: empty when it is unset.
pub open spec fn input_text(set: bool, v: i32) -> Seq<char> {
    if set {
        int_text(v as int)
    } else {
        Seq::<char>::empty()
    }
}

fn input_to_text(set: bool, v: i32) -> (r: String)
    ensures
        r@ == input_text(set, v),
{
    if set {
        int_to_text(v)
    } else {
        String::new()
    }
}

impl POPAlarm {
    /// A clock with these settings, window shown, nothing popping up, the
    /// local clock reading `now` as its time, and the settings inputs filled
    /// from the settings (`show_time_input` is given as the caller writes
    /// the show time). It is always made.
    pub fn new(
        config_path: String,
        quit_index: u32,
        settings_index: u32,
        time2show: String,
        sound_path: String,
        countdown: String,
        countdown_index: u32,
        pos_dir: String,
        pos_pc: i32,
        custom_bg_color: String,
        custom_border_color: String,
        custom_number_bg_color: String,
        custom_number_color: String,
        custom_clock_bg_color: String,
        tips_store: String,
        font_path: String,
        show_time_input: String,
        init_show: i32,
        timezone: i32,
        custom_timezone: bool,
        time_font: String,
        round: bool,
        time_countdown: bool,
        now: ClockReading,
    ) -> (r: Result<POPAlarm, &'static str>)
        ensures
            r matches Ok(a) && a == (POPAlarm {
                config_path,
                quit_index,
                settings_index,
                time2show,
                tikpop: false,
                visible: true,
                last_visible: false,
                sound_path,
                countdown,
                countdown_index,
                inited: false,
                countdown_start: false,
                countdown_start_time: 0,
                in_time_popup: false,
                pos_pc,
                pos_dir,
                custom_bg_color,
                custom_border_color,
                custom_number_bg_color,
                custom_number_color,
                custom_clock_bg_color,
                tips_store,
                show_tips: a.show_tips,
                font_path,
                now_timestamp: now.utc_timestamp,
                now_hour: now.local_hour,
                now_minute: now.local_minute,
                now_second: now.local_second,
                time_countdown_target: 0,
                init_show,
                timezone,
                custom_timezone,
                time_font,
                round,
                time_countdown,
                show_settings: false,
                settings_status: a.settings_status,
                show_time_input,
                pos_pc_input: a.pos_pc_input,
                timezone_input: a.timezone_input,
            }),
            r matches Ok(a) && a.show_tips@.len() == 0 && a.settings_status@.len() == 0
                && a.pos_pc_input@ == input_text(pos_pc != -1, pos_pc) && a.timezone_input@
                == input_text(custom_timezone, timezone),
    {
        let pos_pc_input = input_to_text(pos_pc != -1, pos_pc);
        let timezone_input = input_to_text(custom_timezone, timezone);
        Ok(POPAlarm {
            config_path,
            quit_index,
            settings_index,
            time2show,
            tikpop: false,
            visible: true,
            last_visible: false,
            sound_path,
            countdown,
            countdown_index,
            inited: false,
            countdown_start: false,
            countdown_start_time: 0,
            in_time_popup: false,
            pos_pc,
            pos_dir,
            custom_bg_color,
            custom_border_color,
            custom_number_bg_color,
            custom_number_color,
            custom_clock_bg_color,
            tips_store,
            show_tips: String::new(),
            font_path,
            now_timestamp: now.utc_timestamp,
            now_hour: now.local_hour,
            now_minute: now.local_minute,
            now_second: now.local_second,
            time_countdown_target: 0,
            init_show,
            timezone,
            custom_timezone,
            time_font,
            round,
            time_countdown,
            show_settings: false,
            settings_status: String::new(),
            show_time_input,
            pos_pc_input,
            timezone_input,
        })
    }
}


/// What the caller does to show a popup: note where the window stood when
/// it was shown (before moving it), and play `sound` when it is not empty.
pub struct Popup {
    pub save_window_pos: bool,
    pub sound: String,
}

/// What a menu item asks of the caller.
#[derive(PartialEq, Eq, Structural, Clone, Copy, Debug)]
pub enum MenuAction {
    /// Quit the program.
    Quit,
    /// Show the window with the settings.
    OpenSettings,
    /// The countdown started (`true`: show the window) or stopped.
    Countdown(bool),
    /// Nothing.
    Ignored,
}

/// What a frame's clock step leaves to the caller: the clock text that
/// replaces the time of day when not empty, and a popup to show.
pub struct ClockFrame {
    pub custom_clock: String,
    pub popup: Option<Popup>,
}

/// The state after popping up reminder `index` from `old`: the window's
/// visibility is remembered and the window shown, and the popup's tip,
/// when there is one, is shown.
pub open spec fn shows_popup(old: POPAlarm, new: POPAlarm, index: int, in_time_popup: bool) -> bool {
    let tips = tips_for(old.tips_store@, index, in_time_popup);
    &&& new == (POPAlarm {
        last_visible: old.visible,
        visible: true,
        show_tips: new.show_tips,
        ..old
    })
    &&& new.show_tips@ == (if old.tips_store@.len() > 0 && tips.len() > 0 {
        tips
    } else {
        old.show_tips@
    })
}

/// The popup's actions: save the window position when it was shown, and
/// play the sound chosen for it (none without sounds).
pub open spec fn popup_for(old: POPAlarm, p: Popup, index: int, in_time_popup: bool) -> bool {
    &&& p.save_window_pos == old.visible
    &&& p.sound@ == (if old.sound_path@.len() > 0 {
        sound_for(old.sound_path@, index, in_time_popup)
    } else {
        Seq::<char>::empty()
    })
}

impl POPAlarm {
    /// Whether the sound setting can be read when a popup shows.
    pub open spec fn sounds_ok(self) -> bool {
        self.sound_path@.len() > 0 ==> sound_path_ok(self.sound_path@)
    }

    /// Shows popup `index`; see `shows_popup` and `popup_for`.
    pub fn begin_popup(&mut self, index: usize, in_time_popup: bool) -> (p: Popup)
        requires
            old(self).sounds_ok(),
        ensures
            shows_popup(*old(self), *final(self), index as int, in_time_popup),
            popup_for(*old(self), p, index as int, in_time_popup),
    {
        self.last_visible = self.visible;
        let save_window_pos = self.last_visible;
        self.visible = true;
        let sound = if self.sound_path.as_str().unicode_len() > 0 {
            choose_sound(self.sound_path.as_str(), index, in_time_popup)
        } else {
            String::new()
        };
        if self.tips_store.as_str().unicode_len() > 0 {
            let tips = choose_tips(self.tips_store.as_str(), index, in_time_popup);
            if tips.as_str().unicode_len() > 0 {
                self.show_tips = tips;
            }
        }
        Popup { save_window_pos, sound }
    }
}


impl POPAlarm {
    /// Whether the time of day of this frame is a time of day.
    pub open spec fn clock_valid(self) -> bool {
        self.now_hour < 24 && self.now_minute < 60 && self.now_second < 60
    }

    /// Whether the countdown is running this frame (it waits while a
    /// reminder pops up).
    pub open spec fn countdown_running(self) -> bool {
        self.countdown_start && !self.in_time_popup
    }

    /// Seconds since the countdown (re)started, cut to 32 bits.
    pub open spec fn countdown_over(self) -> i32 {
        (self.now_timestamp - self.countdown_start_time) as i32
    }

    /// Whether preparing the first frame can read the reminder times.
    pub open spec fn first_frame_ok(self) -> bool {
        !self.inited && self.time_countdown && self.time2show@.len() > 0 ==> target_ok_from(
            entries_of(self.time2show@),
            0,
        )
    }

    /// The daily countdown's target after the first frame.
    pub open spec fn first_target(self) -> u32 {
        let t = target_from(entries_of(self.time2show@), 0);
        if self.time_countdown && self.time2show@.len() > 0 && t is Some {
            t->0
        } else {
            self.time_countdown_target
        }
    }

    /// The state after the first frame is prepared.
    pub open spec fn first_frame(self) -> POPAlarm {
        POPAlarm {
            inited: true,
            visible: if self.init_show == 0 {
                false
            } else {
                self.visible
            },
            time_countdown_target: self.first_target(),
            ..self
        }
    }

    /// Prepares the first frame, once: the window starts hidden when
    /// `init_show` is 0 (the result says so), and the daily countdown aims
    /// at the first full reminder time, when it is on and there is one.
    pub fn initialize(&mut self) -> (hidden: bool)
        requires
            old(self).first_frame_ok(),
        ensures
            old(self).inited ==> *final(self) == *old(self) && !hidden,
            !old(self).inited ==> hidden == (old(self).init_show == 0) && *final(self)
                == old(self).first_frame(),
    {
        if self.inited {
            return false;
        }
        self.inited = true;
        let hidden = self.init_show == 0;
        if hidden {
            self.visible = false;
        }
        if self.time_countdown && self.time2show.as_str().unicode_len() > 0 {
            if let Some(t) = countdown_target(self.time2show.as_str()) {
                self.time_countdown_target = t;
            }
        }
        hidden
    }

    /// The state with the clock reading `reading` taken; see `set_clock`.
    pub open spec fn with_clock(self, reading: ClockReading) -> POPAlarm {
        let (h, m, s) = if self.custom_timezone {
            time_of_day(reading.utc_timestamp as int, zone_offset(self.timezone as int))
        } else {
            (reading.local_hour, reading.local_minute, reading.local_second)
        };
        POPAlarm { now_timestamp: reading.utc_timestamp, now_hour: h, now_minute: m, now_second: s, ..self }
    }

    /// The state after a frame's countdown step, before any popup shows: a
    /// running countdown that restarts does so from now, and a popup that
    /// fires is marked as showing.
    pub open spec fn clock_step_base(self) -> POPAlarm {
        let run = self.countdown_running();
        let (clock, fire, restart) = countdown_step(self.countdown@, self.countdown_over(), self.tikpop);
        POPAlarm {
            countdown_start_time: if run && restart {
                self.now_timestamp
            } else {
                self.countdown_start_time
            },
            tikpop: self.tikpop || (run && fire is Some),
            ..self
        }
    }

    /// Takes this frame's clock reading: the time of day is local, or, with
    /// a zone setting, that of UTC moved by `zone_offset`.
    pub fn set_clock(&mut self, reading: ClockReading)
        requires
            reading.valid(),
            old(self).custom_timezone ==> -24 < old(self).timezone < 24,
        ensures
            *final(self) == old(self).with_clock(reading),
            final(self).clock_valid(),
    {
        self.now_timestamp = reading.utc_timestamp;
        if self.custom_timezone {
            let offset = zone_offset_seconds(self.timezone);
            let (h, m, s) = zone_time_of_day(reading.utc_timestamp, offset);
            self.now_hour = h;
            self.now_minute = m;
            self.now_second = s;
        } else {
            self.now_hour = reading.local_hour;
            self.now_minute = reading.local_minute;
            self.now_second = reading.local_second;
        }
    }

    /// Whether this frame's countdown step can read its settings (the sound
    /// setting only when a reminder pops up).
    pub open spec fn clock_step_ok(self) -> bool {
        &&& self.clock_valid()
        &&& self.countdown_running() ==> {
            &&& i64::MIN <= self.now_timestamp - self.countdown_start_time <= i64::MAX
            &&& countdown_ok(self.countdown@, self.countdown_over())
            &&& countdown_step(self.countdown@, self.countdown_over(), self.tikpop).1 is Some
                ==> self.sounds_ok()
        }
    }

    /// The countdowns of a frame. A running countdown takes a step (see
    /// `countdown_step`): it may restart from now and pop up a reminder
    /// (which then shows), and its clock text is shown. When the countdown
    /// is stopped and the daily countdown is on with a target, the clock
    /// shows the time left until the target instead.
    pub fn clock_step(&mut self) -> (r: ClockFrame)
        requires
            old(self).clock_step_ok(),
        ensures
            ({
                let o = *old(self);
                let run = o.countdown_running();
                let (clock, fire, restart) = countdown_step(o.countdown@, o.countdown_over(), o.tikpop);
                let base = o.clock_step_base();
                &&& r.custom_clock@ == (if !o.countdown_start && o.time_countdown
                    && o.time_countdown_target != 0 {
                    time_countdown_clock(
                        o.time_countdown_target as nat,
                        o.now_hour as nat,
                        o.now_minute as nat,
                        o.now_second as nat,
                    )
                } else if run {
                    clock
                } else {
                    Seq::<char>::empty()
                })
                &&& run && fire is Some ==> (r.popup matches Some(p) && popup_for(
                    o,
                    p,
                    fire->0 as int,
                    false,
                ) && shows_popup(base, *final(self), fire->0 as int, false))
                &&& !(run && fire is Some) ==> r.popup is None && *final(self) == base
            }),
    {
        let mut custom_clock = String::new();
        let mut popup: Option<Popup> = None;
        if self.countdown_start && !self.in_time_popup {
            let over = (self.now_timestamp - self.countdown_start_time) as i32;
            let frame = countdown_frame(self.countdown.as_str(), over, self.tikpop);
            if frame.restart {
                self.countdown_start_time = self.now_timestamp;
            }
            if let Some(i) = frame.fire {
                popup = Some(self.begin_popup(i, false));
                self.tikpop = true;
            }
            custom_clock = frame.clock;
        }
        if !self.countdown_start && self.time_countdown && self.time_countdown_target != 0 {
            custom_clock = time_countdown_text(
                self.time_countdown_target,
                self.now_hour,
                self.now_minute,
                self.now_second,
            );
        }
        ClockFrame { custom_clock, popup }
    }
}


impl POPAlarm {
    /// The state after a popup frame: when the popup's time is up
    /// (`ended`), it closes, its tip goes, and the window goes back to how
    /// it was before; a hidden window shows no popup.
    pub open spec fn after_popup_frame(self, ended: bool, tips: String) -> POPAlarm {
        let visible = if ended {
            self.last_visible
        } else {
            self.visible
        };
        POPAlarm {
            tikpop: self.tikpop && !ended && visible,
            show_tips: if ended {
                tips
            } else {
                self.show_tips
            },
            in_time_popup: self.in_time_popup && !ended,
            visible,
            ..self
        }
    }

    /// Ends a popup frame; see `after_popup_frame`. Returns whether the
    /// window is shown afterwards.
    pub fn popup_frame(&mut self, ended: bool) -> (shown: bool)
        ensures
            *final(self) == old(self).after_popup_frame(ended, final(self).show_tips),
            ended ==> final(self).show_tips@.len() == 0,
            shown == final(self).visible,
    {
        if ended {
            self.tikpop = false;
            self.show_tips = String::new();
            self.in_time_popup = false;
            self.visible = self.last_visible;
        }
        if !self.visible {
            self.tikpop = false;
        }
        self.visible
    }

    /// Whether looking for a ringing reminder can read its settings (the
    /// sound setting only when a reminder pops up).
    pub open spec fn reminders_ok(self) -> bool {
        &&& ringing_ok(
            self.time2show@,
            self.now_hour as nat,
            self.now_minute as nat,
            self.now_second as nat,
        )
        &&& ringing_reminder(
            self.time2show@,
            self.now_hour as nat,
            self.now_minute as nat,
            self.now_second as nat,
        ) is Some && !self.tikpop ==> self.sounds_ok()
    }

    /// A frame without a popup: the reminder that rings at this frame's time
    /// of day (see `ringing_reminder`) pops up, as a reminder popup.
    pub fn check_reminders(&mut self) -> (r: Option<Popup>)
        requires
            old(self).reminders_ok(),
        ensures
            ({
                let o = *old(self);
                let ring = ringing_reminder(
                    o.time2show@,
                    o.now_hour as nat,
                    o.now_minute as nat,
                    o.now_second as nat,
                );
                &&& ring is Some && !o.tikpop ==> (r matches Some(p) && popup_for(
                    o,
                    p,
                    ring->0 as int,
                    true,
                ) && shows_popup(
                    POPAlarm { in_time_popup: true, tikpop: true, ..o },
                    *final(self),
                    ring->0 as int,
                    true,
                ))
                &&& !(ring is Some && !o.tikpop) ==> r is None && *final(self) == (POPAlarm {
                    in_time_popup: false,
                    ..o
                })
            }),
    {
        self.in_time_popup = false;
        let ring = find_ringing(self.time2show.as_str(), self.now_hour, self.now_minute, self.now_second);
        if let Some(i) = ring {
            if !self.tikpop {
                self.in_time_popup = true;
                let p = self.begin_popup(i, true);
                self.tikpop = true;
                return Some(p);
            }
        }
        None
    }

    /// The state after a click on the tray icon.
    pub open spec fn after_tray_click(self) -> POPAlarm {
        POPAlarm { visible: !self.visible, tikpop: false, ..self }
    }

    /// A click on the tray icon shows or hides the window and ends any
    /// popup; returns whether the window is shown now.
    pub fn on_tray_click(&mut self) -> (shown: bool)
        ensures
            *final(self) == old(self).after_tray_click(),
            shown == final(self).visible,
    {
        self.visible = !self.visible;
        self.tikpop = false;
        self.visible
    }

    /// The state after choosing menu item `id`.
    pub open spec fn after_menu(self, id: u32, status: String) -> POPAlarm {
        if id == self.quit_index {
            self
        } else if id == self.settings_index {
            POPAlarm { show_settings: true, settings_status: status, visible: true, ..self }
        } else if id == self.countdown_index {
            POPAlarm {
                countdown_start: !self.countdown_start,
                visible: if !self.countdown_start {
                    true
                } else {
                    self.visible
                },
                countdown_start_time: if !self.countdown_start {
                    self.now_timestamp
                } else {
                    self.countdown_start_time
                },
                ..self
            }
        } else {
            self
        }
    }

    /// What menu item `id` asks of the caller.
    pub open spec fn menu_action(self, id: u32) -> MenuAction {
        if id == self.quit_index {
            MenuAction::Quit
        } else if id == self.settings_index {
            MenuAction::OpenSettings
        } else if id == self.countdown_index {
            MenuAction::Countdown(!self.countdown_start)
        } else {
            MenuAction::Ignored
        }
    }

    /// Menu item `id` was chosen: quit; open the settings with an empty
    /// status, showing the window; or start the countdown from this frame
    /// (showing the window) or stop it.
    pub fn on_menu_event(&mut self, id: u32) -> (r: MenuAction)
        ensures
            *final(self) == old(self).after_menu(id, final(self).settings_status),
            id != old(self).quit_index && id == old(self).settings_index
                ==> final(self).settings_status@.len() == 0,
            r == old(self).menu_action(id),
    {
        if id == self.quit_index {
            MenuAction::Quit
        } else if id == self.settings_index {
            self.show_settings = true;
            self.settings_status = String::new();
            self.visible = true;
            MenuAction::OpenSettings
        } else if id == self.countdown_index {
            self.countdown_start = !self.countdown_start;
            if self.countdown_start {
                self.visible = true;
                self.countdown_start_time = self.now_timestamp;
            }
            MenuAction::Countdown(self.countdown_start)
        } else {
            MenuAction::Ignored
        }
    }

    /// The window's close button hides the window.
    pub fn close_window(&mut self)
        ensures
            *final(self) == (POPAlarm { visible: false, ..*old(self) }),
    {
        self.visible = false;
    }

    /// Closes the settings and clears their status.
    pub fn close_settings(&mut self)
        ensures
            *final(self) == (POPAlarm {
                show_settings: false,
                settings_status: final(self).settings_status,
                ..*old(self)
            }),
            final(self).settings_status@.len() == 0,
    {
        self.show_settings = false;
        self.settings_status = String::new();
    }

    /// The clock text of a frame: the countdown text when there is one,
    /// otherwise this frame's time of day.
    pub fn shown_clock(&self, custom_clock: String) -> (r: String)
        ensures
            r@ == (if custom_clock@.len() == 0 {
                hms_text(self.now_hour as nat, self.now_minute as nat, self.now_second as nat)
            } else {
                custom_clock@
            }),
    {
        if custom_clock.as_str().unicode_len() == 0 {
            hms_to_text(self.now_hour as u64, self.now_minute as u64, self.now_second as u64)
        } else {
            custom_clock
        }
    }
}


/// The text of an optional string.
pub open spec fn option_view(s: Option<String>) -> Option<Seq<char>> {
    match s {
        Some(t) => Some(t@),
        None => None,
    }
}

/// Whether `s` is empty but for white space.
pub open spec fn blank(s: Seq<char>) -> bool {
    trim_seq(s).len() == 0
}

/// The property `key = value` when `cond` holds, otherwise nothing.
pub open spec fn optional(cond: bool, key: Seq<char>, value: Seq<char>) -> Props {
    if cond {
        seq![(key, value)]
    } else {
        Seq::<(Seq<char>, Seq<char>)>::empty()
    }
}

/// The saved position: the side, and the height in percent when it is set.
pub open spec fn pos_value(pos_dir: Seq<char>, pos_pc: i32) -> Seq<char> {
    if pos_pc == -1 {
        pos_dir
    } else {
        pos_dir + seq![','] + int_text(pos_pc as int) + seq!['%']
    }
}

/// The outcome of reading a number input: `None` when it is blank, the
/// number when it parses, and an error otherwise.
pub open spec fn read_input(s: Seq<char>) -> Option<Option<i32>> {
    if blank(s) {
        Some(None)
    } else {
        match parse_i32_spec(trim_seq(s)) {
            Some(v) => Some(Some(v)),
            None => None,
        }
    }
}

impl POPAlarm {
    /// The properties of the `Config` section that saving writes, in
    /// order: the reminder times always; the countdown when not blank; the
    /// position always; `round = 0` when corners are square; the show time
    /// as the caller wrote it, when given; the zone when set; the tips, the
    /// fonts and the colours when not blank (each as it stands); and
    /// `time_countdown = 1` when the daily countdown is on.
    pub open spec fn config_entries(self, show_time: Option<Seq<char>>) -> Props {
        self.config_head(show_time) + self.config_tail()
    }

    /// The first properties saving writes: the reminder times, countdown,
    /// position, corners, show time and zone.
    pub open spec fn config_head(self, show_time: Option<Seq<char>>) -> Props {
        optional(true, "time"@, self.time2show@)
        + optional(!blank(self.countdown@), "countdown"@, self.countdown@)
        + optional(true, "pos"@, pos_value(self.pos_dir@, self.pos_pc))
        + optional(!self.round, "round"@, "0"@)
        + optional(show_time is Some, "show_time"@, show_time->0)
        + optional(self.custom_timezone, "timezone"@, int_text(self.timezone as int))
    }

    /// The last properties saving writes: the tips, fonts, colours and the
    /// daily countdown.
    pub open spec fn config_tail(self) -> Props {
        self.config_texts() + self.config_colors()
    }

    /// The tips, fonts and background colour, when not blank.
    pub open spec fn config_texts(self) -> Props {
        optional(!blank(self.tips_store@), "tips"@, self.tips_store@)
        + optional(!blank(self.font_path@), "font_path"@, self.font_path@)
        + optional(!blank(self.time_font@), "time_font"@, self.time_font@)
        + optional(!blank(self.custom_bg_color@), "bg_color"@, self.custom_bg_color@)
    }

    /// The other colours, when not blank, and the daily countdown.
    pub open spec fn config_colors(self) -> Props {
        optional(!blank(self.custom_border_color@), "border_color"@, self.custom_border_color@)
        + optional(!blank(self.custom_number_bg_color@), "number_bg_color"@, self.custom_number_bg_color@)
        + optional(!blank(self.custom_number_color@), "number_color"@, self.custom_number_color@)
        + optional(!blank(self.custom_clock_bg_color@), "clock_bg_color"@, self.custom_clock_bg_color@)
        + optional(self.time_countdown, "time_countdown"@, "1"@)
    }
}

/// Sets `key` to `value` in the `Config` section when `cond` holds; `key`
/// comes after every key already set.
fn put_optional(
    ini: &mut ini::Ini,
    cond: bool,
    key: &str,
    value: &str,
    Ghost(props): Ghost<Props>,
    Ghost(rank): Ghost<int>,
)
    requires
        ini_sections(*old(ini)) == config_section(props),
        key_rank(key@) == rank,
        forall|i: int| 0 <= i < props.len() ==> key_rank(#[trigger] props[i].0) < rank,
    ensures
        ini_sections(*final(ini)) == config_section(props + optional(cond, key@, value@)),
        forall|i: int|
            0 <= i < (props + optional(cond, key@, value@)).len() ==> key_rank(
                #[trigger] (props + optional(cond, key@, value@))[i].0,
            ) < rank + 1,
{
    let ghost after = props + optional(cond, key@, value@);
    if cond {
        put_config(ini, key, value, Ghost(props), Ghost(rank));
        assert(after =~= props.push((key@, value@)));
    } else {
        assert(after =~= props);
    }
    assert forall|i: int| 0 <= i < after.len() implies key_rank(#[trigger] after[i].0) < rank + 1 by {
        if i < props.len() {
            assert(after[i] == props[i]);
        }
    }
}

fn read_number(s: &String) -> (r: Option<Option<i32>>)
    ensures
        r == read_input(s@),
{
    let t = trim_str(s.as_str());
    if t.as_str().unicode_len() == 0 {
        Some(None)
    } else {
        match parse_i32(t.as_str()) {
            Some(v) => Some(Some(v)),
            None => None,
        }
    }
}

impl POPAlarm {
    /// The state after saving the settings inputs: the position's percent
    /// (-1 when blank) and the zone (unset when blank).
    pub open spec fn saved(self) -> POPAlarm {
        let pos = read_input(self.pos_pc_input@)->0;
        let zone = read_input(self.timezone_input@)->0;
        POPAlarm {
            pos_pc: if pos is Some {
                pos->0
            } else {
                -1i32
            },
            timezone: if zone is Some {
                zone->0
            } else {
                0i32
            },
            custom_timezone: zone is Some,
            ..self
        }
    }

    /// Saves the settings inputs (the show time comes written by the caller,
    /// which reads it). A position that is neither blank nor an integer is
    /// refused first, then such a zone, each with its message and nothing
    /// changed. Otherwise the inputs take effect (see `saved`) and the
    /// configuration to write is returned: one `Config` section holding
    /// `config_entries`.
    pub fn save_settings(&mut self, show_time: Option<String>) -> (r: Result<ini::Ini, String>)
        ensures
            read_input(old(self).pos_pc_input@) is None ==> (r matches Err(e) && e@
                == "Position percent must be an integer"@ && *final(self) == *old(self)),
            read_input(old(self).pos_pc_input@) is Some && read_input(old(self).timezone_input@) is None
                ==> (r matches Err(e) && e@ == "Timezone must be an integer hour offset"@
                && *final(self) == *old(self)),
            read_input(old(self).pos_pc_input@) is Some && read_input(old(self).timezone_input@) is Some
                ==> (r matches Ok(ini) && ini_sections(ini) == config_section(
                final(self).config_entries(option_view(show_time)),
            ) && *final(self) == old(self).saved()),
    {
        let pos = match read_number(&self.pos_pc_input) {
            Some(p) => p,
            None => {
                return Err("Position percent must be an integer".to_string());
            },
        };
        let zone = match read_number(&self.timezone_input) {
            Some(z) => z,
            None => {
                return Err("Timezone must be an integer hour offset".to_string());
            },
        };
        self.pos_pc = match pos {
            Some(p) => p,
            None => -1,
        };
        match zone {
            Some(z) => {
                self.timezone = z;
                self.custom_timezone = true;
            },
            None => {
                self.timezone = 0;
                self.custom_timezone = false;
            },
        }
        let ini = self.build_config(&show_time);
        Ok(ini)
    }
}


impl POPAlarm {
    /// The configuration that saving writes; see `config_entries`.
    fn build_config(&self, show_time: &Option<String>) -> (ini: ini::Ini)
        ensures
            ini_sections(ini) == config_section(self.config_entries(option_view(*show_time))),
    {
        proof {
            lemma_key_ranks();
        }
        let mut ini = ini_new();
        self.put_head(&mut ini, show_time);
        let ghost head = self.config_head(option_view(*show_time));
        self.put_tail(&mut ini, Ghost(head));
        ini
    }

    fn put_head(&self, ini: &mut ini::Ini, show_time: &Option<String>)
        requires
            ini_sections(*old(ini)) == config_section(Seq::<(Seq<char>, Seq<char>)>::empty()),
        ensures
            ini_sections(*final(ini)) == config_section(self.config_head(option_view(*show_time))),
            forall|i: int|
                0 <= i < self.config_head(option_view(*show_time)).len() ==> key_rank(
                    #[trigger] self.config_head(option_view(*show_time))[i].0,
                ) < 6,
    {
        proof {
            lemma_key_ranks();
        }
        let ghost st = option_view(*show_time);
        let ghost p0 = Seq::<(Seq<char>, Seq<char>)>::empty();
        put_optional(ini, true, "time", self.time2show.as_str(), Ghost(p0), Ghost(0));
        let ghost p1 = p0 + optional(true, "time"@, self.time2show@);
        let countdown_set = !is_blank(self.countdown.as_str());
        put_optional(ini, countdown_set, "countdown", self.countdown.as_str(), Ghost(p1), Ghost(1));
        let ghost p2 = p1 + optional(countdown_set, "countdown"@, self.countdown@);
        let pos_text = if self.pos_pc == -1 {
            self.pos_dir.clone()
        } else {
            proof {
                reveal_strlit(",");
                reveal_strlit("%");
            }
            let mut t = self.pos_dir.clone();
            t.append(",");
            let n = int_to_text(self.pos_pc);
            t.append(n.as_str());
            t.append("%");
            t
        };
        assert(pos_text@ =~= pos_value(self.pos_dir@, self.pos_pc));
        put_optional(ini, true, "pos", pos_text.as_str(), Ghost(p2), Ghost(2));
        let ghost p3 = p2 + optional(true, "pos"@, pos_text@);
        put_optional(ini, !self.round, "round", "0", Ghost(p3), Ghost(3));
        let ghost p4 = p3 + optional(!self.round, "round"@, "0"@);
        let ghost p5;
        match show_time {
            Some(t) => {
                put_optional(ini, true, "show_time", t.as_str(), Ghost(p4), Ghost(4));
                proof {
                    p5 = p4 + optional(true, "show_time"@, t@);
                }
            },
            None => {
                put_optional(ini, false, "show_time", "", Ghost(p4), Ghost(4));
                proof {
                    p5 = p4 + optional(false, "show_time"@, ""@);
                    assert(p5 =~= p4 + optional(false, "show_time"@, st->0));
                }
            },
        }
        let zone_text = int_to_text(self.timezone);
        put_optional(ini, self.custom_timezone, "timezone", zone_text.as_str(), Ghost(p5), Ghost(5));
        assert(p0 + optional(true, "time"@, self.time2show@) =~= optional(true, "time"@, self.time2show@));
    }

    fn put_tail(&self, ini: &mut ini::Ini, Ghost(head): Ghost<Props>)
        requires
            ini_sections(*old(ini)) == config_section(head),
            forall|i: int| 0 <= i < head.len() ==> key_rank(#[trigger] head[i].0) < 6,
        ensures
            ini_sections(*final(ini)) == config_section(head + self.config_tail()),
    {
        self.put_texts(ini, Ghost(head));
        self.put_colors(ini, Ghost(head + self.config_texts()));
        assert(head + self.config_texts() + self.config_colors() =~= head + self.config_tail());
    }

    fn put_texts(&self, ini: &mut ini::Ini, Ghost(head): Ghost<Props>)
        requires
            ini_sections(*old(ini)) == config_section(head),
            forall|i: int| 0 <= i < head.len() ==> key_rank(#[trigger] head[i].0) < 6,
        ensures
            ini_sections(*final(ini)) == config_section(head + self.config_texts()),
            forall|i: int|
                0 <= i < (head + self.config_texts()).len() ==> key_rank(
                    #[trigger] (head + self.config_texts())[i].0,
                ) < 10,
    {
        proof {
            lemma_key_ranks();
        }
        let set_1 = !is_blank(self.tips_store.as_str());
        put_optional(ini, set_1, "tips", self.tips_store.as_str(), Ghost(head), Ghost(6));
        let ghost q1 = head + optional(set_1, "tips"@, self.tips_store@);
        let set_2 = !is_blank(self.font_path.as_str());
        put_optional(ini, set_2, "font_path", self.font_path.as_str(), Ghost(q1), Ghost(7));
        let ghost q2 = q1 + optional(set_2, "font_path"@, self.font_path@);
        let set_3 = !is_blank(self.time_font.as_str());
        put_optional(ini, set_3, "time_font", self.time_font.as_str(), Ghost(q2), Ghost(8));
        let ghost q3 = q2 + optional(set_3, "time_font"@, self.time_font@);
        let set_4 = !is_blank(self.custom_bg_color.as_str());
        put_optional(ini, set_4, "bg_color", self.custom_bg_color.as_str(), Ghost(q3), Ghost(9));
        let ghost q4 = q3 + optional(set_4, "bg_color"@, self.custom_bg_color@);
        assert(q4 =~= head + self.config_texts());
    }

    fn put_colors(&self, ini: &mut ini::Ini, Ghost(head): Ghost<Props>)
        requires
            ini_sections(*old(ini)) == config_section(head),
            forall|i: int| 0 <= i < head.len() ==> key_rank(#[trigger] head[i].0) < 10,
        ensures
            ini_sections(*final(ini)) == config_section(head + self.config_colors()),
    {
        proof {
            lemma_key_ranks();
        }
        let set_5 = !is_blank(self.custom_border_color.as_str());
        put_optional(ini, set_5, "border_color", self.custom_border_color.as_str(), Ghost(head), Ghost(10));
        let ghost q5 = head + optional(set_5, "border_color"@, self.custom_border_color@);
        let set_6 = !is_blank(self.custom_number_bg_color.as_str());
        put_optional(ini, set_6, "number_bg_color", self.custom_number_bg_color.as_str(), Ghost(q5), Ghost(11));
        let ghost q6 = q5 + optional(set_6, "number_bg_color"@, self.custom_number_bg_color@);
        let set_7 = !is_blank(self.custom_number_color.as_str());
        put_optional(ini, set_7, "number_color", self.custom_number_color.as_str(), Ghost(q6), Ghost(12));
        let ghost q7 = q6 + optional(set_7, "number_color"@, self.custom_number_color@);
        let set_8 = !is_blank(self.custom_clock_bg_color.as_str());
        put_optional(ini, set_8, "clock_bg_color", self.custom_clock_bg_color.as_str(), Ghost(q7), Ghost(13));
        let ghost q8 = q7 + optional(set_8, "clock_bg_color"@, self.custom_clock_bg_color@);
        put_optional(ini, self.time_countdown, "time_countdown", "1", Ghost(q8), Ghost(14));
        let ghost q_end = q8 + optional(self.time_countdown, "time_countdown"@, "1"@);
        assert(q_end =~= head + self.config_colors());
    }
}

/// The colours of the clock window.
pub struct Palette {
    pub panel_fill: Rgba,
    pub border_color: Rgba,
    pub accent_fill: Rgba,
    pub time_fill: Rgba,
    pub time_color: Rgba,
}

impl POPAlarm {
    /// Whether the colour settings can be read.
    pub open spec fn colors_ok(self) -> bool {
        &&& color_text_ok(self.custom_bg_color@)
        &&& color_text_ok(self.custom_border_color@)
        &&& color_text_ok(self.custom_clock_bg_color@)
        &&& color_text_ok(self.custom_number_bg_color@)
        &&& color_text_ok(self.custom_number_color@)
    }

    /// The window's colours: each setting read by `color_of`, with the
    /// built-in colours (and the theme's text colour for the digits) where a
    /// setting is empty.
    pub fn palette(&self, text_color: Rgba) -> (p: Palette)
        requires
            self.colors_ok(),
        ensures
            color_of(self.custom_bg_color@, Rgba { r: 97, g: 122, b: 131, a: 220 }, p.panel_fill),
            color_of(
                self.custom_border_color@,
                Rgba { r: 222, g: 231, b: 236, a: 190 },
                p.border_color,
            ),
            color_of(
                self.custom_clock_bg_color@,
                Rgba { r: 232, g: 233, b: 236, a: 240 },
                p.accent_fill,
            ),
            color_of(
                self.custom_number_bg_color@,
                Rgba { r: 40, g: 49, b: 58, a: 225 },
                p.time_fill,
            ),
            color_of(self.custom_number_color@, text_color, p.time_color),
    {
        Palette {
            panel_fill: gene_color(
                self.custom_bg_color.clone(),
                premultiplied_color(97, 122, 131, 220),
            ),
            border_color: gene_color(
                self.custom_border_color.clone(),
                premultiplied_color(222, 231, 236, 190),
            ),
            accent_fill: gene_color(
                self.custom_clock_bg_color.clone(),
                premultiplied_color(232, 233, 236, 240),
            ),
            time_fill: gene_color(
                self.custom_number_bg_color.clone(),
                premultiplied_color(40, 49, 58, 225),
            ),
            time_color: gene_color(self.custom_number_color.clone(), text_color),
        }
    }

    /// Shows how saving went: a fixed message, or the error.
    pub fn settings_saved(&mut self, outcome: Result<(), String>)
        ensures
            *final(self) == (POPAlarm { settings_status: final(self).settings_status, ..*old(self) }),
            final(self).settings_status@ == (match outcome {
                Ok(()) => "Saved to conf.ini"@,
                Err(e) => e@,
            }),
    {
        self.settings_status = match outcome {
            Ok(()) => "Saved to conf.ini".to_string(),
            Err(e) => e,
        };
    }
}

impl POPAlarm {
    /// Whether a popup can read the sound setting; see `sounds_ok`.
    pub fn can_show_popup(&self) -> (r: bool)
        ensures
            r == self.sounds_ok(),
    {
        self.sound_path.as_str().unicode_len() == 0 || sound_path_readable(self.sound_path.as_str())
    }

    /// Whether `initialize` can read its settings; see `first_frame_ok`.
    pub fn can_initialize(&self) -> (r: bool)
        ensures
            r == self.first_frame_ok(),
    {
        self.inited || !self.time_countdown || self.time2show.as_str().unicode_len() == 0
            || reminder_target_readable(self.time2show.as_str())
    }

    /// Whether `clock_step` can read its settings; see `clock_step_ok`.
    pub fn can_step_clock(&self) -> (r: bool)
        ensures
            r == self.clock_step_ok(),
    {
        if !(self.now_hour < 24 && self.now_minute < 60 && self.now_second < 60) {
            return false;
        }
        if !(self.countdown_start && !self.in_time_popup) {
            return true;
        }
        let over = match self.now_timestamp.checked_sub(self.countdown_start_time) {
            Some(d) => d as i32,
            None => {
                return false;
            },
        };
        if !countdown_readable(self.countdown.as_str(), over) {
            return false;
        }
        let f = countdown_frame(self.countdown.as_str(), over, self.tikpop);
        f.fire.is_none() || self.can_show_popup()
    }

    /// Whether `check_reminders` can read its settings; see `reminders_ok`.
    pub fn can_check_reminders(&self) -> (r: bool)
        ensures
            r == self.reminders_ok(),
    {
        if !reminders_readable(
            self.time2show.as_str(),
            self.now_hour,
            self.now_minute,
            self.now_second,
        ) {
            return false;
        }
        let ring = find_ringing(
            self.time2show.as_str(),
            self.now_hour,
            self.now_minute,
            self.now_second,
        );
        ring.is_none() || self.tikpop || self.can_show_popup()
    }

    /// Whether `palette` can read the colour settings; see `colors_ok`.
    pub fn colors_readable(&self) -> (r: bool)
        ensures
            r == self.colors_ok(),
    {
        color_text_readable(self.custom_bg_color.as_str()) && color_text_readable(
            self.custom_border_color.as_str(),
        ) && color_text_readable(self.custom_clock_bg_color.as_str()) && color_text_readable(
            self.custom_number_bg_color.as_str(),
        ) && color_text_readable(self.custom_number_color.as_str())
    }
}

} // verus!
