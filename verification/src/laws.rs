//! Properties of the reminder clock that span several of its operations.

use vstd::prelude::*;
use crate::alarm::{blank, input_text, optional, pos_value, read_input, shows_popup, POPAlarm};
use crate::config::Props;
use crate::clock::ClockReading;
use crate::schedule::{
    clock3, countdown_step, entries_of, entry_rings, field_matches, first_hit, first_stop, hms_text,
    lemma_first_stop_settles, prefix_total, first_span, target_from, ringing_from, ringing_reminder, second_matches, span,
    time_countdown_clock,
};
use crate::text::{
    parse_u32_spec, split_seq, digit_char, digits, int_text, is_digit, is_space, lemma_digits_read_back,
    lemma_i32_text_parses_back, trim_seq,
};

verus! {

/// A text that neither starts nor ends with white space is its own trim.
pub proof fn lemma_trim_unpadded(s: Seq<char>)
    requires
        s.len() > 0,
        !is_space(s[0]),
        !is_space(s.last()),
    ensures
        trim_seq(s) == s,
{
}

/// The decimal text of an `i32` starts with a minus sign or a digit and
/// ends with a digit.
pub proof fn lemma_int_text_unpadded(i: i32)
    ensures
        int_text(i as int).len() > 0,
        !is_space(int_text(i as int)[0]),
        !is_space(int_text(i as int).last()),
{
    if i < 0 {
        lemma_digits_read_back((-i) as nat);
        let d = digits((-i) as nat);
        assert(is_digit(d[d.len() - 1]));
        assert(int_text(i as int).last() == d.last());
    } else {
        lemma_digits_read_back(i as nat);
        let d = digits(i as nat);
        assert(is_digit(d[0]));
        assert(is_digit(d[d.len() - 1]));
    }
}

/// Saving the settings inputs as a new clock fills them gives its
/// settings back: saving succeeds, the position's percent is kept, whether
/// a zone is set is kept, and a set zone is kept.
pub proof fn law_saving_fresh_inputs_keeps_settings(a: POPAlarm)
    requires
        a.pos_pc_input@ == input_text(a.pos_pc != -1, a.pos_pc),
        a.timezone_input@ == input_text(a.custom_timezone, a.timezone),
    ensures
        read_input(a.pos_pc_input@) is Some,
        read_input(a.timezone_input@) is Some,
        a.saved().pos_pc == a.pos_pc,
        a.saved().custom_timezone == a.custom_timezone,
        a.custom_timezone ==> a.saved().timezone == a.timezone,
{
    if a.pos_pc != -1 {
        lemma_int_text_unpadded(a.pos_pc);
        lemma_trim_unpadded(int_text(a.pos_pc as int));
        lemma_i32_text_parses_back(a.pos_pc);
    } else {
        assert(trim_seq(a.pos_pc_input@) =~= Seq::<char>::empty());
    }
    if a.custom_timezone {
        lemma_int_text_unpadded(a.timezone);
        lemma_trim_unpadded(int_text(a.timezone as int));
        lemma_i32_text_parses_back(a.timezone);
    } else {
        assert(trim_seq(a.timezone_input@) =~= Seq::<char>::empty());
    }
}

/// Clicking the tray icon twice leaves the window as it was, with no popup.
pub proof fn law_tray_click_twice(a: POPAlarm)
    ensures
        a.after_tray_click().after_tray_click() == (POPAlarm { tikpop: false, ..a }),
{
}

/// Choosing the countdown's menu item twice leaves the countdown running
/// or stopped as it was.
pub proof fn law_countdown_item_twice(a: POPAlarm, s1: String, s2: String)
    requires
        a.countdown_index != a.quit_index,
        a.countdown_index != a.settings_index,
    ensures
        a.after_menu(a.countdown_index, s1).after_menu(a.countdown_index, s2).countdown_start
            == a.countdown_start,
{
}

/// The state after frames in which a popup shows and its time is not yet
/// up: each takes its clock reading, takes its countdown step and ends its
/// popup frame.
pub open spec fn popup_frames(s: POPAlarm, readings: Seq<ClockReading>) -> POPAlarm
    decreases readings.len(),
{
    if readings.len() == 0 {
        s
    } else {
        let p = popup_frames(s, readings.drop_last());
        p.with_clock(readings.last()).clock_step_base().after_popup_frame(false, p.show_tips)
    }
}

proof fn lemma_popup_frames_keep_window(s: POPAlarm, readings: Seq<ClockReading>)
    requires
        s.tikpop,
        s.visible,
    ensures
        popup_frames(s, readings).tikpop,
        popup_frames(s, readings).visible,
        popup_frames(s, readings).last_visible == s.last_visible,
    decreases readings.len(),
{
    if readings.len() > 0 {
        lemma_popup_frames_keep_window(s, readings.drop_last());
    }
}

/// A popup leaves the window shown or hidden as it found it: after the
/// frame that shows it, any number of frames while its time is not up,
/// and the frame in which its time is up, the window's visibility is what
/// it was before, no popup shows, and the tip given to the last frame is
/// shown.
pub proof fn law_popup_restores_window(
    a: POPAlarm,
    b: POPAlarm,
    index: int,
    in_time_popup: bool,
    readings: Seq<ClockReading>,
    last: ClockReading,
    tips: String,
)
    requires
        shows_popup(a, b, index, in_time_popup),
        b.tikpop,
    ensures
        ({
            let e = popup_frames(b, readings).with_clock(last).clock_step_base().after_popup_frame(
                true,
                tips,
            );
            &&& e.visible == a.visible
            &&& !e.tikpop
            &&& !e.in_time_popup
            &&& e.show_tips == tips
        }),
{
    lemma_popup_frames_keep_window(b, readings);
}

/// Only zero's decimal text starts with a zero.
pub proof fn lemma_digits_lead(n: nat)
    ensures
        digits(n)[0] == '0' <==> n == 0,
    decreases n,
{
    if n >= 10 {
        lemma_digits_lead(n / 10);
        assert(digits(n)[0] == digits(n / 10)[0]);
    } else {
        assert(digit_char(n) as int == 48 + n);
    }
}

/// Different numbers have different decimal texts, and no decimal text is
/// another one after a zero.
pub proof fn lemma_digits_distinct(a: nat, b: nat)
    ensures
        digits(a) == digits(b) <==> a == b,
        digits(a) != seq!['0'] + digits(b),
{
    lemma_digits_read_back(a);
    lemma_digits_read_back(b);
    lemma_digits_lead(a);
    lemma_digits_read_back(0);
    if digits(a) == seq!['0'] + digits(b) {
        assert(digits(a)[0] == '0');
        assert(digits(a).len() >= 2);
        assert(digits(0) =~= seq!['0']);
    }
}

/// A reminder written `:m:` (hours and seconds left empty) rings at
/// minute `m` of every hour, at second zero, and at no other time.
pub proof fn law_minute_reminder_rings_on_the_minute(m: nat, hour: nat, minute: nat, second: nat)
    ensures
        entry_rings(
            seq![Seq::<char>::empty(), digits(m), Seq::<char>::empty()],
            hour,
            minute,
            second,
        ) == Some(minute == m && second == 0),
{
    lemma_digits_distinct(m, minute);
    lemma_digits_distinct(second, 0);
    lemma_digits_read_back(0);
    assert(digits(0) =~= seq!['0']);
    let f = seq![Seq::<char>::empty(), digits(m), Seq::<char>::empty()];
    assert(field_matches(f[1], digits(minute)) == (m == minute));
    assert(second_matches(f[2], digits(second)) == (second == 0)) by {
        if digits(second) == seq!['0'] {
            assert(digits(second) == digits(0));
        }
    }
}


/// With a zone set, the time of day a frame takes is UTC moved by the zone's
/// hours, whatever the local reading says (a zone of 0 shows UTC); without
/// one, it is the local reading.
pub proof fn law_zone_time_of_day(a: POPAlarm, reading: ClockReading)
    ensures
        ({
            let b = a.with_clock(reading);
            let d = (reading.utc_timestamp + 3600 * a.timezone) % 86400;
            &&& b.now_timestamp == reading.utc_timestamp
            &&& a.custom_timezone ==> b.now_hour == d / 3600 && b.now_minute == d % 3600 / 60
                && b.now_second == d % 60
            &&& !a.custom_timezone ==> b.now_hour == reading.local_hour && b.now_minute
                == reading.local_minute && b.now_second == reading.local_second
        }),
{
}

/// The daily countdown shows hours, minutes below 60 and seconds below 60
/// that add up to the time left until the target: exactly the target
/// minus the time now, or, once the target has passed today, that plus a
/// day.
pub proof fn law_daily_countdown_text(target: nat, h: nat, m: nat, s: nat)
    requires
        h < 24,
        m < 60,
        s < 60,
    ensures
        ({
            let now = h * 3600 + m * 60 + s;
            let left = if now > target {
                target + 86400 - now
            } else {
                target - now
            };
            exists|hh: nat, mm: nat, ss: nat|
                #![trigger hms_text(hh, mm, ss)]
                time_countdown_clock(target, h, m, s) == hms_text(hh, mm, ss) && mm < 60 && ss < 60
                    && hh * 3600 + mm * 60 + ss == left
        }),
{
    let now = h * 3600 + m * 60 + s;
    let left: nat = if now > target {
        (target + 86400 - now) as nat
    } else {
        (target - now) as nat
    };
    let hh = left / 3600;
    let mm = left % 3600 / 60;
    let ss = left % 60;
    assert(hh * 3600 + mm * 60 + ss == left);
    assert(time_countdown_clock(target, h, m, s) == hms_text(hh, mm, ss));
}

proof fn lemma_in_concat(a: Props, b: Props, x: (Seq<char>, Seq<char>))
    ensures
        a.contains(x) ==> (a + b).contains(x),
        b.contains(x) ==> (a + b).contains(x),
{
    if a.contains(x) {
        let i = choose|i: int| 0 <= i < a.len() && a[i] == x;
        assert((a + b)[i] == x);
    }
    if b.contains(x) {
        let i = choose|i: int| 0 <= i < b.len() && b[i] == x;
        assert((a + b)[a.len() + i] == x);
    }
}

proof fn lemma_in_optional(cond: bool, k: Seq<char>, v: Seq<char>)
    ensures
        cond ==> optional(cond, k, v).contains((k, v)),
{
    if cond {
        assert(optional(cond, k, v)[0] == (k, v));
    }
}

proof fn lemma_head_holds(a: POPAlarm, st: Option<Seq<char>>)
    ensures
        a.config_head(st).len() >= 1,
        a.config_head(st)[0] == ("time"@, a.time2show@),
        !blank(a.countdown@) ==> a.config_head(st).len() >= 2 && a.config_head(st)[1] == (
            "countdown"@,
            a.countdown@,
        ),
        a.config_head(st).contains(("time"@, a.time2show@)),
        !blank(a.countdown@) ==> a.config_head(st).contains(("countdown"@, a.countdown@)),
        a.config_head(st).contains(("pos"@, pos_value(a.pos_dir@, a.pos_pc))),
        !a.round ==> a.config_head(st).contains(("round"@, "0"@)),
        st is Some ==> a.config_head(st).contains(("show_time"@, st->0)),
        a.custom_timezone ==> a.config_head(st).contains(("timezone"@, int_text(a.timezone as int))),
{
    let o0 = optional(true, "time"@, a.time2show@);
    let p0 = o0;
    let o1 = optional(!blank(a.countdown@), "countdown"@, a.countdown@);
    let p1 = p0 + o1;
    let o2 = optional(true, "pos"@, pos_value(a.pos_dir@, a.pos_pc));
    let p2 = p1 + o2;
    let o3 = optional(!a.round, "round"@, "0"@);
    let p3 = p2 + o3;
    let o4 = optional(st is Some, "show_time"@, st->0);
    let p4 = p3 + o4;
    let o5 = optional(a.custom_timezone, "timezone"@, int_text(a.timezone as int));
    let p5 = p4 + o5;
    lemma_in_optional(true, "time"@, a.time2show@);
    lemma_in_concat(p0, o1, ("time"@, a.time2show@));
    lemma_in_concat(p1, o2, ("time"@, a.time2show@));
    lemma_in_concat(p2, o3, ("time"@, a.time2show@));
    lemma_in_concat(p3, o4, ("time"@, a.time2show@));
    lemma_in_concat(p4, o5, ("time"@, a.time2show@));
    lemma_in_optional(!blank(a.countdown@), "countdown"@, a.countdown@);
    lemma_in_concat(p0, o1, ("countdown"@, a.countdown@));
    lemma_in_concat(p1, o2, ("countdown"@, a.countdown@));
    lemma_in_concat(p2, o3, ("countdown"@, a.countdown@));
    lemma_in_concat(p3, o4, ("countdown"@, a.countdown@));
    lemma_in_concat(p4, o5, ("countdown"@, a.countdown@));
    lemma_in_optional(true, "pos"@, pos_value(a.pos_dir@, a.pos_pc));
    lemma_in_concat(p1, o2, ("pos"@, pos_value(a.pos_dir@, a.pos_pc)));
    lemma_in_concat(p2, o3, ("pos"@, pos_value(a.pos_dir@, a.pos_pc)));
    lemma_in_concat(p3, o4, ("pos"@, pos_value(a.pos_dir@, a.pos_pc)));
    lemma_in_concat(p4, o5, ("pos"@, pos_value(a.pos_dir@, a.pos_pc)));
    lemma_in_optional(!a.round, "round"@, "0"@);
    lemma_in_concat(p2, o3, ("round"@, "0"@));
    lemma_in_concat(p3, o4, ("round"@, "0"@));
    lemma_in_concat(p4, o5, ("round"@, "0"@));
    lemma_in_optional(st is Some, "show_time"@, st->0);
    lemma_in_concat(p3, o4, ("show_time"@, st->0));
    lemma_in_concat(p4, o5, ("show_time"@, st->0));
    lemma_in_optional(a.custom_timezone, "timezone"@, int_text(a.timezone as int));
    lemma_in_concat(p4, o5, ("timezone"@, int_text(a.timezone as int)));
    assert(a.config_head(st) == p5);
    assert(p1 == o0 + o1);
    if !blank(a.countdown@) {
        assert(p1 =~= seq![("time"@, a.time2show@), ("countdown"@, a.countdown@)]);
    }
    assert(p1.len() >= 1 && p1[0] == ("time"@, a.time2show@));
    assert(p5 == p1 + o2 + o3 + o4 + o5);
    assert(p2 == p1 + o2);
    assert(p2.len() >= p1.len() && p2[0] == p1[0]);
    assert(p3.len() >= p1.len() && p3[0] == p1[0] && (p1.len() >= 2 ==> p3[1] == p1[1]));
    assert(p4.len() >= p1.len() && p4[0] == p1[0] && (p1.len() >= 2 ==> p4[1] == p1[1]));
    assert(p5.len() >= p1.len() && p5[0] == p1[0] && (p1.len() >= 2 ==> p5[1] == p1[1]));
}

proof fn lemma_texts_hold(a: POPAlarm)
    ensures
        !blank(a.tips_store@) ==> a.config_texts().contains(("tips"@, a.tips_store@)),
        !blank(a.font_path@) ==> a.config_texts().contains(("font_path"@, a.font_path@)),
        !blank(a.time_font@) ==> a.config_texts().contains(("time_font"@, a.time_font@)),
        !blank(a.custom_bg_color@) ==> a.config_texts().contains(("bg_color"@, a.custom_bg_color@)),
{
    let o0 = optional(!blank(a.tips_store@), "tips"@, a.tips_store@);
    let p0 = o0;
    let o1 = optional(!blank(a.font_path@), "font_path"@, a.font_path@);
    let p1 = p0 + o1;
    let o2 = optional(!blank(a.time_font@), "time_font"@, a.time_font@);
    let p2 = p1 + o2;
    let o3 = optional(!blank(a.custom_bg_color@), "bg_color"@, a.custom_bg_color@);
    let p3 = p2 + o3;
    lemma_in_optional(!blank(a.tips_store@), "tips"@, a.tips_store@);
    lemma_in_concat(p0, o1, ("tips"@, a.tips_store@));
    lemma_in_concat(p1, o2, ("tips"@, a.tips_store@));
    lemma_in_concat(p2, o3, ("tips"@, a.tips_store@));
    lemma_in_optional(!blank(a.font_path@), "font_path"@, a.font_path@);
    lemma_in_concat(p0, o1, ("font_path"@, a.font_path@));
    lemma_in_concat(p1, o2, ("font_path"@, a.font_path@));
    lemma_in_concat(p2, o3, ("font_path"@, a.font_path@));
    lemma_in_optional(!blank(a.time_font@), "time_font"@, a.time_font@);
    lemma_in_concat(p1, o2, ("time_font"@, a.time_font@));
    lemma_in_concat(p2, o3, ("time_font"@, a.time_font@));
    lemma_in_optional(!blank(a.custom_bg_color@), "bg_color"@, a.custom_bg_color@);
    lemma_in_concat(p2, o3, ("bg_color"@, a.custom_bg_color@));
    assert(a.config_texts() == p3);
}

proof fn lemma_colors_hold(a: POPAlarm)
    ensures
        !blank(a.custom_border_color@) ==> a.config_colors().contains(("border_color"@, a.custom_border_color@)),
        !blank(a.custom_number_bg_color@) ==> a.config_colors().contains(("number_bg_color"@, a.custom_number_bg_color@)),
        !blank(a.custom_number_color@) ==> a.config_colors().contains(("number_color"@, a.custom_number_color@)),
        !blank(a.custom_clock_bg_color@) ==> a.config_colors().contains(("clock_bg_color"@, a.custom_clock_bg_color@)),
        a.time_countdown ==> a.config_colors().contains(("time_countdown"@, "1"@)),
{
    let o0 = optional(!blank(a.custom_border_color@), "border_color"@, a.custom_border_color@);
    let p0 = o0;
    let o1 = optional(!blank(a.custom_number_bg_color@), "number_bg_color"@, a.custom_number_bg_color@);
    let p1 = p0 + o1;
    let o2 = optional(!blank(a.custom_number_color@), "number_color"@, a.custom_number_color@);
    let p2 = p1 + o2;
    let o3 = optional(!blank(a.custom_clock_bg_color@), "clock_bg_color"@, a.custom_clock_bg_color@);
    let p3 = p2 + o3;
    let o4 = optional(a.time_countdown, "time_countdown"@, "1"@);
    let p4 = p3 + o4;
    lemma_in_optional(!blank(a.custom_border_color@), "border_color"@, a.custom_border_color@);
    lemma_in_concat(p0, o1, ("border_color"@, a.custom_border_color@));
    lemma_in_concat(p1, o2, ("border_color"@, a.custom_border_color@));
    lemma_in_concat(p2, o3, ("border_color"@, a.custom_border_color@));
    lemma_in_concat(p3, o4, ("border_color"@, a.custom_border_color@));
    lemma_in_optional(!blank(a.custom_number_bg_color@), "number_bg_color"@, a.custom_number_bg_color@);
    lemma_in_concat(p0, o1, ("number_bg_color"@, a.custom_number_bg_color@));
    lemma_in_concat(p1, o2, ("number_bg_color"@, a.custom_number_bg_color@));
    lemma_in_concat(p2, o3, ("number_bg_color"@, a.custom_number_bg_color@));
    lemma_in_concat(p3, o4, ("number_bg_color"@, a.custom_number_bg_color@));
    lemma_in_optional(!blank(a.custom_number_color@), "number_color"@, a.custom_number_color@);
    lemma_in_concat(p1, o2, ("number_color"@, a.custom_number_color@));
    lemma_in_concat(p2, o3, ("number_color"@, a.custom_number_color@));
    lemma_in_concat(p3, o4, ("number_color"@, a.custom_number_color@));
    lemma_in_optional(!blank(a.custom_clock_bg_color@), "clock_bg_color"@, a.custom_clock_bg_color@);
    lemma_in_concat(p2, o3, ("clock_bg_color"@, a.custom_clock_bg_color@));
    lemma_in_concat(p3, o4, ("clock_bg_color"@, a.custom_clock_bg_color@));
    lemma_in_optional(a.time_countdown, "time_countdown"@, "1"@);
    lemma_in_concat(p3, o4, ("time_countdown"@, "1"@));
    assert(a.config_colors() == p4);
}

/// Saving writes every setting that is set: the reminder times first,
/// then the countdown right after them when it is not blank, and the
/// position, square corners, show time, zone, tips, fonts, colours and the
/// daily countdown whenever they are set (text settings when not blank).
pub proof fn law_saved_config_holds_settings(a: POPAlarm, st: Option<Seq<char>>)
    ensures
        a.config_entries(st)[0] == ("time"@, a.time2show@),
        !blank(a.countdown@) ==> a.config_entries(st)[1] == ("countdown"@, a.countdown@),
        !blank(a.countdown@) ==> a.config_entries(st).contains(("countdown"@, a.countdown@)),
        a.config_entries(st).contains(("pos"@, pos_value(a.pos_dir@, a.pos_pc))),
        !a.round ==> a.config_entries(st).contains(("round"@, "0"@)),
        st is Some ==> a.config_entries(st).contains(("show_time"@, st->0)),
        a.custom_timezone ==> a.config_entries(st).contains(("timezone"@, int_text(a.timezone as int))),
        !blank(a.tips_store@) ==> a.config_entries(st).contains(("tips"@, a.tips_store@)),
        !blank(a.font_path@) ==> a.config_entries(st).contains(("font_path"@, a.font_path@)),
        !blank(a.time_font@) ==> a.config_entries(st).contains(("time_font"@, a.time_font@)),
        !blank(a.custom_bg_color@) ==> a.config_entries(st).contains(("bg_color"@, a.custom_bg_color@)),
        !blank(a.custom_border_color@) ==> a.config_entries(st).contains(("border_color"@, a.custom_border_color@)),
        !blank(a.custom_number_bg_color@) ==> a.config_entries(st).contains(("number_bg_color"@, a.custom_number_bg_color@)),
        !blank(a.custom_number_color@) ==> a.config_entries(st).contains(("number_color"@, a.custom_number_color@)),
        !blank(a.custom_clock_bg_color@) ==> a.config_entries(st).contains(("clock_bg_color"@, a.custom_clock_bg_color@)),
        a.time_countdown ==> a.config_entries(st).contains(("time_countdown"@, "1"@)),
{
    let head = a.config_head(st);
    let texts = a.config_texts();
    let colors = a.config_colors();
    lemma_head_holds(a, st);
    lemma_texts_hold(a);
    lemma_colors_hold(a);
    assert(a.config_entries(st) =~= head + (texts + colors));
    assert(a.config_entries(st)[0] == head[0]);
    if !blank(a.countdown@) {
        assert(a.config_entries(st)[1] == head[1]);
    }
    assert forall|x: (Seq<char>, Seq<char>)| head.contains(x) implies #[trigger] a.config_entries(
        st,
    ).contains(x) by {
        lemma_in_concat(head, texts + colors, x);
    }
    assert forall|x: (Seq<char>, Seq<char>)| texts.contains(x) implies #[trigger] a.config_entries(
        st,
    ).contains(x) by {
        lemma_in_concat(texts, colors, x);
        lemma_in_concat(head, texts + colors, x);
    }
    assert forall|x: (Seq<char>, Seq<char>)| colors.contains(x) implies #[trigger] a.config_entries(
        st,
    ).contains(x) by {
        lemma_in_concat(texts, colors, x);
        lemma_in_concat(head, texts + colors, x);
    }
}


/// Summed lengths grow with each entry of positive length.
proof fn lemma_prefix_grows(es: Seq<Seq<Seq<char>>>, i: int, k: int)
    requires
        0 <= i <= k <= es.len(),
        forall|x: int| 0 <= x < k ==> span(#[trigger] es[x]) > 0,
    ensures
        i < k ==> prefix_total(es, i) < prefix_total(es, k),
        prefix_total(es, i) <= prefix_total(es, k),
    decreases k - i,
{
    if i < k {
        lemma_prefix_grows(es, i, k - 1);
    }
}

proof fn lemma_no_stop_before(es: Seq<Seq<Seq<char>>>, over: int, j: int, k: int)
    requires
        0 <= k <= j + 1 <= es.len(),
        forall|x: int| 0 <= x <= j ==> span(#[trigger] es[x]) > 0,
        over == prefix_total(es, j + 1),
    ensures
        first_stop(es, over, k) == k,
        k <= j ==> first_hit(es, over, k) == k,
    decreases k,
{
    if k > 0 {
        lemma_no_stop_before(es, over, j, k - 1);
        lemma_prefix_grows(es, k, j + 1);
    }
}

/// When a countdown entry that is not the last ends exactly now (all
/// entries so far of positive length) and no popup shows, the step pops up
/// that entry's reminder, does not restart, and shows the next entry in
/// full.
pub proof fn law_countdown_entry_end_pops_its_reminder(countdown: Seq<char>, j: int, over: i32)
    requires
        countdown.len() > 0,
        0 <= j,
        j + 1 < entries_of(countdown).len(),
        forall|x: int| 0 <= x <= j + 1 ==> span(#[trigger] entries_of(countdown)[x]) > 0,
        over == prefix_total(entries_of(countdown), j + 1),
    ensures
        countdown_step(countdown, over, false) == (
            clock3(span(entries_of(countdown)[j + 1])),
            Some(j as usize),
            false,
        ),
{
    let es = entries_of(countdown);
    let n = es.len() as int;
    lemma_no_stop_before(es, over as int, j, j + 1);
    lemma_no_stop_before(es, over as int, j, j);
    assert(first_hit(es, over as int, j + 1) == j);
    assert(first_stop(es, over as int, j + 2) == j + 1);
    lemma_first_stop_settles(es, over as int, j + 2, n);
}

/// A text without the separator is one piece.
proof fn lemma_split_whole(s: Seq<char>, sep: char)
    requires
        forall|i: int| 0 <= i < s.len() ==> s[i] != sep,
    ensures
        split_seq(s, sep) == seq![s],
    decreases s.len(),
{
    if s.len() > 0 {
        lemma_split_whole(s.drop_last(), sep);
        assert(s.drop_last().push(s.last()) =~= s);
    } else {
        assert(s =~= Seq::<char>::empty());
    }
}

/// A first piece without the separator comes off whole.
proof fn lemma_split_first(a: Seq<char>, sep: char, b: Seq<char>)
    requires
        forall|i: int| 0 <= i < a.len() ==> a[i] != sep,
    ensures
        split_seq(a + seq![sep] + b, sep) == seq![a] + split_seq(b, sep),
    decreases b.len(),
{
    let t = a + seq![sep] + b;
    if b.len() == 0 {
        lemma_split_whole(a, sep);
        assert(t.drop_last() =~= a);
        assert(split_seq(b, sep) =~= seq![Seq::<char>::empty()]);
        assert(split_seq(t, sep) =~= seq![a] + split_seq(b, sep));
    } else {
        lemma_split_first(a, sep, b.drop_last());
        crate::text::lemma_split_nonempty(b.drop_last(), sep);
        assert(t.drop_last() =~= a + seq![sep] + b.drop_last());
        assert(split_seq(t, sep) =~= seq![a] + split_seq(b, sep));
    }
}

/// No decimal text holds a separator.
proof fn lemma_digits_no_sep(n: nat, sep: char)
    requires
        sep == ':' || sep == ',',
    ensures
        forall|i: int| 0 <= i < digits(n).len() ==> digits(n)[i] != sep,
{
    lemma_digits_read_back(n);
    assert forall|i: int| 0 <= i < digits(n).len() implies digits(n)[i] != sep by {
        assert(is_digit(digits(n)[i]));
    }
}

/// A reminder `h:m:` rings at `h:m:00`, and a reminder whose hour field is
/// the hour `h` never rings in another hour (hours run 0 to 23, not modulo
/// twelve).
pub proof fn law_reminder_rings_at_its_time(h: nat, m: nat, f: Seq<Seq<char>>, hour: nat, minute: nat, second: nat)
    requires
        f.len() >= 1,
        f[0] == digits(h),
        hour != h,
    ensures
        entry_rings(seq![digits(h), digits(m), Seq::<char>::empty()], h, m, 0) == Some(true),
        ringing_reminder(digits(h) + seq![':'] + digits(m) + seq![':'], h, m, 0) == Some(0usize),
        entry_rings(f, hour, minute, second) == Some(false),
{
    lemma_digits_distinct(h, hour);
    lemma_digits_read_back(0);
    assert(digits(0) =~= seq!['0']);
    let dh = digits(h);
    let dm = digits(m);
    let text = dh + seq![':'] + dm + seq![':'];
    lemma_digits_no_sep(h, ':');
    lemma_digits_no_sep(m, ':');
    lemma_digits_no_sep(h, ',');
    lemma_digits_no_sep(m, ',');
    assert forall|i: int| 0 <= i < text.len() implies text[i] != ',' by {
        if i < dh.len() {
            assert(text[i] == dh[i]);
        } else if dh.len() < i < dh.len() + 1 + dm.len() {
            assert(text[i] == dm[i - dh.len() - 1]);
        }
    }
    lemma_split_whole(text, ',');
    lemma_split_first(dh, ':', dm + seq![':']);
    assert(text =~= dh + seq![':'] + (dm + seq![':']));
    lemma_split_first(dm, ':', Seq::<char>::empty());
    assert(dm + seq![':'] =~= dm + seq![':'] + Seq::<char>::empty());
    assert(split_seq(Seq::<char>::empty(), ':') =~= seq![Seq::<char>::empty()]);
    let fields = seq![dh, dm, Seq::<char>::empty()];
    assert(split_seq(text, ':') =~= fields);
    assert(entries_of(text) =~= seq![fields]);
    assert(entry_rings(fields, h, m, 0) == Some(true));
    assert(text.len() > 0);
    assert(ringing_from(entries_of(text), 0, h, m, 0) == Some(0usize));
}


proof fn lemma_ran_out(es: Seq<Seq<Seq<char>>>, over: int, k: int)
    requires
        0 <= k <= es.len(),
        forall|x: int| 0 <= x < es.len() ==> span(#[trigger] es[x]) > 0,
        over > prefix_total(es, es.len() as int),
    ensures
        first_stop(es, over, k) == k,
        first_hit(es, over, k) == k,
        k >= 1 ==> first_span(es, k) == span(es[0]),
    decreases k,
{
    if k > 0 {
        lemma_ran_out(es, over, k - 1);
        lemma_prefix_grows(es, k, es.len() as int);
    }
}

/// When every entry of a countdown has run out, none ending exactly now,
/// the countdown restarts, shows the first entry in full, and pops up the
/// first reminder unless a popup is showing.
pub proof fn law_countdown_restarts_when_run_out(countdown: Seq<char>, over: i32, tikpop: bool)
    requires
        countdown.len() > 0,
        forall|x: int|
            0 <= x < entries_of(countdown).len() ==> span(#[trigger] entries_of(countdown)[x]) > 0,
        over > prefix_total(entries_of(countdown), entries_of(countdown).len() as int),
    ensures
        countdown_step(countdown, over, tikpop) == (
            clock3(span(entries_of(countdown)[0])),
            if tikpop {
                None
            } else {
                Some(0usize)
            },
            true,
        ),
{
    let es = entries_of(countdown);
    crate::text::lemma_split_nonempty(countdown, ',');
    lemma_ran_out(es, over as int, es.len() as int);
}

/// The decimal text of a number parses back as that number.
proof fn lemma_digits_parse(n: nat)
    requires
        n <= u32::MAX,
    ensures
        parse_u32_spec(digits(n)) == Some(n as u32),
{
    lemma_digits_read_back(n);
    assert(is_digit(digits(n)[0]));
}

/// The daily countdown aims at a reminder `h:m:s`: its target is
/// `h * 3600 + m * 60 + s` seconds after midnight.
pub proof fn law_daily_target_of_a_full_time(h: nat, m: nat, s: nat)
    requires
        h * 3600 + m * 60 + s <= u32::MAX,
    ensures
        target_from(
            entries_of(digits(h) + seq![':'] + digits(m) + seq![':'] + digits(s)),
            0,
        ) == Some((h * 3600 + m * 60 + s) as u32),
{
    let dh = digits(h);
    let dm = digits(m);
    let ds = digits(s);
    let text = dh + seq![':'] + dm + seq![':'] + ds;
    lemma_digits_no_sep(h, ':');
    lemma_digits_no_sep(m, ':');
    lemma_digits_no_sep(s, ':');
    lemma_digits_no_sep(h, ',');
    lemma_digits_no_sep(m, ',');
    lemma_digits_no_sep(s, ',');
    assert forall|i: int| 0 <= i < text.len() implies text[i] != ',' by {
        if i < dh.len() {
            assert(text[i] == dh[i]);
        } else if dh.len() < i < dh.len() + 1 + dm.len() {
            assert(text[i] == dm[i - dh.len() - 1]);
        } else if dh.len() + 1 + dm.len() < i {
            assert(text[i] == ds[i - dh.len() - dm.len() - 2]);
        }
    }
    lemma_split_whole(text, ',');
    assert(text =~= dh + seq![':'] + (dm + seq![':'] + ds));
    lemma_split_first(dh, ':', dm + seq![':'] + ds);
    lemma_split_first(dm, ':', ds);
    lemma_split_whole(ds, ':');
    let fields = seq![dh, dm, ds];
    assert(split_seq(text, ':') =~= fields);
    assert(entries_of(text) =~= seq![fields]);
    lemma_digits_read_back(h);
    lemma_digits_read_back(m);
    lemma_digits_read_back(s);
    assert(h <= u32::MAX && m <= u32::MAX);
    lemma_digits_parse(h);
    lemma_digits_parse(m);
    lemma_digits_parse(s);
}

} // verus!
