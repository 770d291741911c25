//! The reminder schedule: which reminder time matches the clock, how far a
//! countdown has run, and the clock texts shown meanwhile.
//!
//! Reminder times are written `h:m:s,h:m:s,...`; an empty field matches
//! every value. Countdowns are written the same way and run one after the
//! other.

use vstd::prelude::*;
use crate::text::{
    digits, lemma_split_nonempty, nat_text, pad2, pad2_text, parse_i32, parse_i32_spec, parse_u32,
    parse_u32_spec, split_seq, split_str, views,
};

verus! {

/// The comma-separated entries of `s`, each split at its colons.
pub open spec fn entries_of(s: Seq<char>) -> Seq<Seq<Seq<char>>> {
    split_seq(s, ',').map_values(|e: Seq<char>| split_seq(e, ':'))
}

/// The entries of `s` split into their fields; see `entries_of`.
pub fn entry_fields(s: &str) -> (r: Vec<Vec<String>>)
    ensures
        r@.len() == entries_of(s@).len(),
        forall|i: int| 0 <= i < r@.len() ==> views(#[trigger] r@[i]@) == entries_of(s@)[i],
{
    let entries = split_str(s, ',');
    let mut r: Vec<Vec<String>> = Vec::new();
    let mut i: usize = 0;
    while i < entries.len()
        invariant
            i <= entries@.len(),
            views(entries@) == split_seq(s@, ','),
            r@.len() == i,
            forall|j: int| 0 <= j < i ==> views(#[trigger] r@[j]@) == entries_of(s@)[j],
        decreases entries@.len() - i,
    {
        assert(entries@[i as int]@ == views(entries@)[i as int]);
        let f = split_str(entries[i].as_str(), ':');
        r.push(f);
        i = i + 1;
    }
    r
}


fn is_empty_text(s: &String) -> (r: bool)
    ensures
        r == (s@.len() == 0),
{
    s.as_str().unicode_len() == 0
}

/// Every entry of a split has at least one field.
pub proof fn lemma_entries_have_fields(s: Seq<char>, i: int)
    requires
        0 <= i < entries_of(s).len(),
    ensures
        entries_of(s)[i].len() >= 1,
{
    lemma_split_nonempty(split_seq(s, ',')[i], ':');
}

/// Whether testing an entry for a full `h:m:s` time reads only fields that
/// it has: the second field is read when the first is not empty, the third
/// when the first two are not.
pub open spec fn target_entry_readable(f: Seq<Seq<char>>) -> bool {
    f[0].len() == 0 || (f.len() >= 2 && (f[1].len() == 0 || f.len() >= 3))
}

/// Whether an entry gives hours, minutes and seconds, none of them empty.
pub open spec fn full_entry(f: Seq<Seq<char>>) -> bool {
    f.len() >= 3 && f[0].len() > 0 && f[1].len() > 0 && f[2].len() > 0
}

/// Whether the three fields of a full entry parse as `u32` and
/// `h * 3600 + m * 60 + s`, computed step by step, stays within `u32`.
pub open spec fn hms_fits(f: Seq<Seq<char>>) -> bool {
    let h = parse_u32_spec(f[0]);
    let m = parse_u32_spec(f[1]);
    let s = parse_u32_spec(f[2]);
    &&& h is Some
    &&& m is Some
    &&& s is Some
    &&& h->0 * 3600 <= u32::MAX
    &&& m->0 * 60 <= u32::MAX
    &&& h->0 * 3600 + m->0 * 60 <= u32::MAX
    &&& h->0 * 3600 + m->0 * 60 + s->0 <= u32::MAX
}

/// The seconds since midnight that a full entry writes.
pub open spec fn hms_seconds(f: Seq<Seq<char>>) -> int {
    parse_u32_spec(f[0])->0 * 3600 + parse_u32_spec(f[1])->0 * 60 + parse_u32_spec(f[2])->0
}

/// The time of the first full entry from the `i`-th on, in seconds since
/// midnight, or `None` when there is none.
pub open spec fn target_from(es: Seq<Seq<Seq<char>>>, i: int) -> Option<u32>
    decreases es.len() - i,
{
    if i < 0 || i >= es.len() {
        None
    } else if full_entry(es[i]) {
        Some(hms_seconds(es[i]) as u32)
    } else {
        target_from(es, i + 1)
    }
}

/// The inputs on which the search of `target_from` does not panic: each
/// entry it reads is readable, and the full entry it stops at fits `u32`.
pub open spec fn target_ok_from(es: Seq<Seq<Seq<char>>>, i: int) -> bool
    decreases es.len() - i,
{
    if i < 0 || i >= es.len() {
        true
    } else if !target_entry_readable(es[i]) {
        false
    } else if full_entry(es[i]) {
        hms_fits(es[i])
    } else {
        target_ok_from(es, i + 1)
    }
}

fn scan_target(time2show: &str) -> (r: Option<Option<u32>>)
    ensures
        (r is Some) == target_ok_from(entries_of(time2show@), 0),
        r matches Some(t) ==> t == target_from(entries_of(time2show@), 0),
{
    let es = entry_fields(time2show);
    let ghost e = entries_of(time2show@);
    let mut i: usize = 0;
    while i < es.len()
        invariant
            e == entries_of(time2show@),
            i <= es@.len(),
            es@.len() == e.len(),
            forall|j: int| 0 <= j < es@.len() ==> views(#[trigger] es@[j]@) == e[j],
            target_from(e, 0) == target_from(e, i as int),
            target_ok_from(e, 0) == target_ok_from(e, i as int),
        decreases es@.len() - i,
    {
        let f = &es[i];
        proof {
            lemma_entries_have_fields(time2show@, i as int);
            assert(views(f@) == e[i as int]);
            assert forall|k: int| 0 <= k < f@.len() implies #[trigger] f@[k]@ == e[i as int][k] by {
                assert(views(f@)[k] == f@[k]@);
            }
        }
        if !is_empty_text(&f[0]) {
            if f.len() < 2 {
                return None;
            }
            if !is_empty_text(&f[1]) {
                if f.len() < 3 {
                    return None;
                }
                if !is_empty_text(&f[2]) {
                    let h = match parse_u32(f[0].as_str()) {
                        Some(v) => v,
                        None => {
                            return None;
                        },
                    };
                    let m = match parse_u32(f[1].as_str()) {
                        Some(v) => v,
                        None => {
                            return None;
                        },
                    };
                    let s = match parse_u32(f[2].as_str()) {
                        Some(v) => v,
                        None => {
                            return None;
                        },
                    };
                    let hs = match h.checked_mul(3600) {
                        Some(v) => v,
                        None => {
                            return None;
                        },
                    };
                    let ms = match m.checked_mul(60) {
                        Some(v) => v,
                        None => {
                            return None;
                        },
                    };
                    let hm = match hs.checked_add(ms) {
                        Some(v) => v,
                        None => {
                            return None;
                        },
                    };
                    return match hm.checked_add(s) {
                        Some(v) => Some(Some(v)),
                        None => None,
                    };
                }
            }
        }
        i = i + 1;
    }
    Some(None)
}

/// Whether the first full reminder time can be read; see `target_ok_from`.
pub fn reminder_target_readable(time2show: &str) -> (r: bool)
    ensures
        r == target_ok_from(entries_of(time2show@), 0),
{
    scan_target(time2show).is_some()
}

/// The target of the daily countdown: the first reminder time of
/// `time2show` that names hours, minutes and seconds, in seconds since
/// midnight.
pub fn countdown_target(time2show: &str) -> (r: Option<u32>)
    requires
        target_ok_from(entries_of(time2show@), 0),
    ensures
        r == target_from(entries_of(time2show@), 0),
{
    scan_target(time2show).unwrap()
}

fn same_text(a: &String, b: &String) -> (r: bool)
    ensures
        r == (a@ == b@),
{
    a.eq(b)
}

/// Whether a reminder field matches a clock value whose decimal text is
/// `t`: it is empty, or `t`, or `t` after one zero.
pub open spec fn field_matches(f: Seq<char>, t: Seq<char>) -> bool {
    f.len() == 0 || f == t || f == seq!['0'] + t
}

/// Whether a reminder's seconds field matches: as `field_matches`, except
/// that an empty field matches only the second zero.
pub open spec fn second_matches(f: Seq<char>, t: Seq<char>) -> bool {
    (f.len() == 0 && t == seq!['0']) || f == t || f == seq!['0'] + t
}

/// Whether the reminder entry `f` rings at `h:m:s`, or `None` when testing
/// it reads a field that it lacks (the minutes are read only when the hours
/// match, the seconds only when the minutes match too).
pub open spec fn entry_rings(f: Seq<Seq<char>>, h: nat, m: nat, s: nat) -> Option<bool> {
    if !field_matches(f[0], digits(h)) {
        Some(false)
    } else if f.len() < 2 {
        None
    } else if !field_matches(f[1], digits(m)) {
        Some(false)
    } else if f.len() < 3 {
        None
    } else {
        Some(second_matches(f[2], digits(s)))
    }
}

/// The index of the first entry from the `i`-th on that rings at `h:m:s`.
pub open spec fn ringing_from(es: Seq<Seq<Seq<char>>>, i: int, h: nat, m: nat, s: nat) -> Option<
    usize,
>
    decreases es.len() - i,
{
    if i < 0 || i >= es.len() {
        None
    } else if entry_rings(es[i], h, m, s) == Some(true) {
        Some(i as usize)
    } else {
        ringing_from(es, i + 1, h, m, s)
    }
}

/// Whether the search of `ringing_from` reads only fields that exist.
pub open spec fn ringing_ok_from(es: Seq<Seq<Seq<char>>>, i: int, h: nat, m: nat, s: nat) -> bool
    decreases es.len() - i,
{
    if i < 0 || i >= es.len() {
        true
    } else {
        match entry_rings(es[i], h, m, s) {
            None => false,
            Some(true) => true,
            Some(false) => ringing_ok_from(es, i + 1, h, m, s),
        }
    }
}

/// The reminder of `time2show` that rings at `h:m:s`: the index of the
/// first matching entry; none when `time2show` is empty.
pub open spec fn ringing_reminder(time2show: Seq<char>, h: nat, m: nat, s: nat) -> Option<usize> {
    if time2show.len() == 0 {
        None
    } else {
        ringing_from(entries_of(time2show), 0, h, m, s)
    }
}

/// The inputs on which looking for a ringing reminder does not panic.
pub open spec fn ringing_ok(time2show: Seq<char>, h: nat, m: nat, s: nat) -> bool {
    time2show.len() == 0 || ringing_ok_from(entries_of(time2show), 0, h, m, s)
}

fn clock_field_matches(f: &String, t: &String, zt: &String) -> (r: bool)
    requires
        zt@ == seq!['0'] + t@,
    ensures
        r == field_matches(f@, t@),
{
    is_empty_text(f) || same_text(f, t) || same_text(f, zt)
}

fn zero_then(t: &String) -> (r: String)
    ensures
        r@ == seq!['0'] + t@,
{
    let mut r = "0".to_string();
    proof {
        reveal_strlit("0");
    }
    r.append(t.as_str());
    r
}

fn scan_ringing(time2show: &str, h: u32, m: u32, s: u32) -> (r: Option<Option<usize>>)
    ensures
        (r is Some) == ringing_ok(time2show@, h as nat, m as nat, s as nat),
        r matches Some(v) ==> v == ringing_reminder(time2show@, h as nat, m as nat, s as nat),
{
    if time2show.unicode_len() == 0 {
        return Some(None);
    }
    let ht = nat_text(h as u64);
    let mt = nat_text(m as u64);
    let st = nat_text(s as u64);
    let zh = zero_then(&ht);
    let zm = zero_then(&mt);
    let zs = zero_then(&st);
    let zero = "0".to_string();
    proof {
        reveal_strlit("0");
    }
    let es = entry_fields(time2show);
    let ghost e = entries_of(time2show@);
    let mut i: usize = 0;
    while i < es.len()
        invariant
            e == entries_of(time2show@),
            time2show@.len() > 0,
            i <= es@.len(),
            es@.len() == e.len(),
            forall|j: int| 0 <= j < es@.len() ==> views(#[trigger] es@[j]@) == e[j],
            ringing_from(e, 0, h as nat, m as nat, s as nat) == ringing_from(
                e,
                i as int,
                h as nat,
                m as nat,
                s as nat,
            ),
            ringing_ok_from(e, 0, h as nat, m as nat, s as nat) == ringing_ok_from(
                e,
                i as int,
                h as nat,
                m as nat,
                s as nat,
            ),
            ht@ == digits(h as nat),
            mt@ == digits(m as nat),
            st@ == digits(s as nat),
            zh@ == seq!['0'] + ht@,
            zm@ == seq!['0'] + mt@,
            zs@ == seq!['0'] + st@,
            zero@ == seq!['0'],
        decreases es@.len() - i,
    {
        let f = &es[i];
        proof {
            lemma_entries_have_fields(time2show@, i as int);
            assert(views(f@) == e[i as int]);
            assert forall|k: int| 0 <= k < f@.len() implies #[trigger] f@[k]@ == e[i as int][k] by {
                assert(views(f@)[k] == f@[k]@);
            }
        }
        if clock_field_matches(&f[0], &ht, &zh) {
            if f.len() < 2 {
                return None;
            }
            if clock_field_matches(&f[1], &mt, &zm) {
                if f.len() < 3 {
                    return None;
                }
                if (is_empty_text(&f[2]) && same_text(&st, &zero)) || same_text(&f[2], &st)
                    || same_text(&f[2], &zs) {
                    return Some(Some(i));
                }
            }
        }
        i = i + 1;
    }
    Some(None)
}

/// Whether looking for a ringing reminder can read the reminder times;
/// see `ringing_ok`.
pub fn reminders_readable(time2show: &str, h: u32, m: u32, s: u32) -> (r: bool)
    ensures
        r == ringing_ok(time2show@, h as nat, m as nat, s as nat),
{
    scan_ringing(time2show, h, m, s).is_some()
}

/// Finds the reminder that rings at `h:m:s`; see `ringing_reminder`.
pub fn find_ringing(time2show: &str, h: u32, m: u32, s: u32) -> (r: Option<usize>)
    requires
        ringing_ok(time2show@, h as nat, m as nat, s as nat),
    ensures
        r == ringing_reminder(time2show@, h as nat, m as nat, s as nat),
{
    scan_ringing(time2show, h, m, s).unwrap()
}

/// `h:m:s` of a remaining time `x` in seconds as the countdown shows it:
/// hours, then minutes (whole minutes, not reduced modulo 60), then seconds,
/// each padded to two digits; all zero when `x` is negative.
pub open spec fn clock3(x: int) -> Seq<char> {
    if x < 0 {
        pad2(0) + seq![':'] + pad2(0) + seq![':'] + pad2(0)
    } else {
        pad2((x / 3600) as nat) + seq![':'] + pad2((x / 60) as nat) + seq![':'] + pad2(
            (x % 60) as nat,
        )
    }
}

/// `00:m:s` of a remaining time `x` in seconds, as the ten-minute countdown
/// shows it; `00:00:00` when `x` is negative.
pub open spec fn clock_minutes(x: int) -> Seq<char> {
    if x < 0 {
        pad2(0) + seq![':'] + pad2(0) + seq![':'] + pad2(0)
    } else {
        pad2(0) + seq![':'] + pad2((x / 60) as nat) + seq![':'] + pad2((x % 60) as nat)
    }
}

/// `h:m:s` with hours, minutes and seconds padded to two digits.
pub open spec fn hms_text(h: nat, m: nat, s: nat) -> Seq<char> {
    pad2(h) + seq![':'] + pad2(m) + seq![':'] + pad2(s)
}

/// Writes `h:m:s`; see `hms_text`.
pub fn hms_to_text(h: u64, m: u64, s: u64) -> (r: String)
    ensures
        r@ == hms_text(h as nat, m as nat, s as nat),
{
    proof {
        reveal_strlit(":");
    }
    let mut r = pad2_text(h);
    r.append(":");
    let mt = pad2_text(m);
    r.append(mt.as_str());
    r.append(":");
    let st = pad2_text(s);
    r.append(st.as_str());
    r
}

/// Writes a countdown's remaining time; see `clock3`.
pub fn clock3_text(x: i64) -> (r: String)
    requires
        x <= u32::MAX,
    ensures
        r@ == clock3(x as int),
{
    if x < 0 {
        hms_to_text(0, 0, 0)
    } else {
        hms_to_text((x / 3600) as u64, (x / 60) as u64, (x % 60) as u64)
    }
}

/// Writes the ten-minute countdown's remaining time; see `clock_minutes`.
pub fn clock_minutes_text(x: i64) -> (r: String)
    requires
        x <= u32::MAX,
    ensures
        r@ == clock_minutes(x as int),
{
    if x < 0 {
        hms_to_text(0, 0, 0)
    } else {
        hms_to_text(0, (x / 60) as u64, (x % 60) as u64)
    }
}

/// Whether `v` is an `i32`.
pub open spec fn in_i32(v: int) -> bool {
    i32::MIN <= v <= i32::MAX
}

/// The seconds that a countdown entry's hours field adds (0 when empty).
pub open spec fn hours_part(f: Seq<Seq<char>>) -> int {
    if f[0].len() > 0 {
        parse_i32_spec(f[0])->0 * 3600
    } else {
        0
    }
}

/// The seconds that a countdown entry's minutes field adds (0 when empty).
pub open spec fn minutes_part(f: Seq<Seq<char>>) -> int {
    if f[1].len() > 0 {
        parse_i32_spec(f[1])->0 * 60
    } else {
        0
    }
}

/// The seconds that a countdown entry's seconds field adds (0 when empty).
pub open spec fn seconds_part(f: Seq<Seq<char>>) -> int {
    if f[2].len() > 0 {
        parse_i32_spec(f[2])->0 as int
    } else {
        0
    }
}

/// The length in seconds of one countdown entry.
pub open spec fn span(f: Seq<Seq<char>>) -> int {
    hours_part(f) + minutes_part(f) + seconds_part(f)
}

/// Whether reading a countdown entry does not panic: it has three fields,
/// each non-empty field parses as `i32`, and every step of the sum stays
/// within `i32`.
pub open spec fn span_ok(f: Seq<Seq<char>>) -> bool {
    &&& f.len() >= 3
    &&& f[0].len() > 0 ==> parse_i32_spec(f[0]) is Some && in_i32(hours_part(f))
    &&& f[1].len() > 0 ==> parse_i32_spec(f[1]) is Some && in_i32(minutes_part(f)) && in_i32(
        hours_part(f) + minutes_part(f),
    )
    &&& f[2].len() > 0 ==> parse_i32_spec(f[2]) is Some && in_i32(span(f))
}

/// The summed length of the first `n` countdown entries.
pub open spec fn prefix_total(es: Seq<Seq<Seq<char>>>, n: int) -> int
    decreases n,
{
    if n <= 0 {
        0
    } else {
        prefix_total(es, n - 1) + span(es[n - 1])
    }
}

/// The first `j < n` at which the countdown is still running, that is
/// `over < prefix_total(es, j + 1)`; `n` when there is none.
pub open spec fn first_stop(es: Seq<Seq<Seq<char>>>, over: int, n: int) -> int
    decreases n,
{
    if n <= 0 {
        0
    } else {
        let p = first_stop(es, over, n - 1);
        if p < n - 1 {
            p
        } else if over < prefix_total(es, n) {
            n - 1
        } else {
            n
        }
    }
}

/// The first `j < n` whose entry ends exactly now, that is
/// `over == prefix_total(es, j + 1)`; `n` when there is none.
pub open spec fn first_hit(es: Seq<Seq<Seq<char>>>, over: int, n: int) -> int
    decreases n,
{
    if n <= 0 {
        0
    } else {
        let p = first_hit(es, over, n - 1);
        if p < n - 1 {
            p
        } else if over == prefix_total(es, n) {
            n - 1
        } else {
            n
        }
    }
}

/// The length of the first of the first `n` entries whose length is not
/// zero; 0 when there is none.
pub open spec fn first_span(es: Seq<Seq<Seq<char>>>, n: int) -> int
    decreases n,
{
    if n <= 0 {
        0
    } else {
        let p = first_span(es, n - 1);
        if p != 0 {
            p
        } else {
            span(es[n - 1])
        }
    }
}

/// How many entries a countdown step reads: up to and including the one
/// still running, or all of them.
pub open spec fn entries_read(es: Seq<Seq<Seq<char>>>, over: int) -> int {
    let stop = first_stop(es, over, es.len() as int);
    if stop < es.len() {
        stop + 1
    } else {
        es.len() as int
    }
}

/// The inputs on which a countdown step does not panic: the entries it
/// reads are readable and every running total stays within `i32`.
pub open spec fn countdown_ok(countdown: Seq<char>, over: i32) -> bool {
    let es = entries_of(countdown);
    countdown.len() == 0 || forall|j: int|
        0 <= j < entries_read(es, over as int) ==> span_ok(#[trigger] es[j]) && in_i32(
            prefix_total(es, j + 1),
        )
}

/// One countdown step, after `over` seconds since the countdown (re)started:
/// the clock text, the reminder to pop up (by index), and whether the
/// countdown starts again from now.
///
/// With no entries, it is a ten-minute countdown that pops up reminder 0
/// and restarts once more than 600 seconds have passed. Otherwise the
/// entries run one after the other; the clock shows what is left of the
/// first one still running, and the first entry that ends exactly now pops
/// up its reminder. When all have run out, the countdown restarts, the
/// clock shows the first non-zero entry in full, and reminder 0 pops up
/// unless one did already. No reminder pops up while one is showing
/// (`tikpop`).
pub open spec fn countdown_step(countdown: Seq<char>, over: i32, tikpop: bool) -> (
    Seq<char>,
    Option<usize>,
    bool,
) {
    if countdown.len() == 0 {
        let restart = over > 600;
        (clock_minutes(600 - over), if restart && !tikpop {
            Some(0usize)
        } else {
            None
        }, restart)
    } else {
        let es = entries_of(countdown);
        let n = es.len() as int;
        let stop = first_stop(es, over as int, n);
        let hit = first_hit(es, over as int, stop);
        if stop < n {
            (clock3(prefix_total(es, stop + 1) - over), if !tikpop && hit < stop {
                Some(hit as usize)
            } else {
                None
            }, false)
        } else {
            (clock3(first_span(es, n)), if tikpop {
                None
            } else if hit < n {
                Some(hit as usize)
            } else {
                Some(0usize)
            }, true)
        }
    }
}

/// Once a search has found its index below `k`, looking further keeps it;
/// while it has not, it is at least `k` further on.
pub proof fn lemma_first_stop_settles(es: Seq<Seq<Seq<char>>>, over: int, k: int, k2: int)
    requires
        0 <= k <= k2,
    ensures
        first_stop(es, over, k) <= k,
        first_stop(es, over, k) < k ==> first_stop(es, over, k2) == first_stop(es, over, k),
        first_stop(es, over, k) == k ==> first_stop(es, over, k2) >= k,
    decreases k2,
{
    if k2 > k {
        lemma_first_stop_settles(es, over, k, k2 - 1);
    } else if k > 0 {
        lemma_first_stop_settles(es, over, k - 1, k - 1);
    }
}

/// The outcome of one countdown step; see `countdown_step`.
pub struct CountdownFrame {
    pub clock: String,
    pub fire: Option<usize>,
    pub restart: bool,
}

fn read_span(f: &Vec<String>, Ghost(g): Ghost<Seq<Seq<char>>>) -> (r: Option<i32>)
    requires
        views(f@) == g,
        g.len() >= 1,
    ensures
        (r is Some) == span_ok(g),
        r matches Some(v) ==> v == span(g),
{
    assert forall|k: int| 0 <= k < f@.len() implies #[trigger] f@[k]@ == g[k] by {
        assert(views(f@)[k] == f@[k]@);
    }
    if f.len() < 3 {
        return None;
    }
    let mut cur: i32 = 0;
    if !is_empty_text(&f[0]) {
        let p = parse_i32(f[0].as_str())?;
        cur = p.checked_mul(3600)?;
    }
    if !is_empty_text(&f[1]) {
        let p = parse_i32(f[1].as_str())?;
        let x = p.checked_mul(60)?;
        cur = cur.checked_add(x)?;
    }
    if !is_empty_text(&f[2]) {
        let p = parse_i32(f[2].as_str())?;
        cur = cur.checked_add(p)?;
    }
    Some(cur)
}

fn scan_countdown(countdown: &str, over: i32, tikpop: bool) -> (r: Option<CountdownFrame>)
    ensures
        (r is Some) == countdown_ok(countdown@, over),
        r matches Some(f) ==> (f.clock@, f.fire, f.restart) == countdown_step(
            countdown@,
            over,
            tikpop,
        ),
{
    if countdown.unicode_len() == 0 {
        let restart = over > 600;
        let fire = if restart && !tikpop {
            Some(0usize)
        } else {
            None
        };
        return Some(CountdownFrame { clock: clock_minutes_text(600 - over as i64), fire, restart });
    }
    let es = entry_fields(countdown);
    let ghost e = entries_of(countdown@);
    let ghost n = e.len() as int;
    let mut total: i32 = 0;
    let mut first: i32 = 0;
    let mut fire: Option<usize> = None;
    let mut popped = tikpop;
    let mut i: usize = 0;
    while i < es.len()
        invariant
            e == entries_of(countdown@),
            countdown@.len() > 0,
            n == e.len(),
            i <= es@.len(),
            es@.len() == e.len(),
            forall|j: int| 0 <= j < es@.len() ==> views(#[trigger] es@[j]@) == e[j],
            forall|j: int|
                0 <= j < i ==> span_ok(#[trigger] e[j]) && in_i32(prefix_total(e, j + 1)),
            first_stop(e, over as int, i as int) == i,
            total as int == prefix_total(e, i as int),
            first as int == first_span(e, i as int),
            popped == (tikpop || first_hit(e, over as int, i as int) < i),
            fire == (if !tikpop && first_hit(e, over as int, i as int) < i {
                Some(first_hit(e, over as int, i as int) as usize)
            } else {
                None
            }),
        decreases es@.len() - i,
    {
        proof {
            lemma_first_stop_settles(e, over as int, i as int, n);
            lemma_entries_have_fields(countdown@, i as int);
            assert(views(es@[i as int]@) == e[i as int]);
            assert(i < entries_read(e, over as int));
        }
        let cur = match read_span(&es[i], Ghost(e[i as int])) {
            Some(v) => v,
            None => {
                return None;
            },
        };
        if first == 0 {
            first = cur;
        }
        total = match total.checked_add(cur) {
            Some(v) => v,
            None => {
                return None;
            },
        };
        if !popped && over == total {
            fire = Some(i);
            popped = true;
        } else if over < total {
            proof {
                assert(first_stop(e, over as int, i + 1) == i);
                lemma_first_stop_settles(e, over as int, i + 1, n);
                assert(entries_read(e, over as int) == i + 1);
            }
            let clock = clock3_text(total as i64 - over as i64);
            return Some(CountdownFrame { clock, fire, restart: false });
        }
        i = i + 1;
    }
    proof {
        assert(first_stop(e, over as int, n) == n);
    }
    let fire = if popped {
        fire
    } else {
        Some(0usize)
    };
    Some(CountdownFrame { clock: clock3_text(first as i64), fire, restart: true })
}

/// Whether a countdown step can read its entries; see `countdown_ok`.
pub fn countdown_readable(countdown: &str, over: i32) -> (r: bool)
    ensures
        r == countdown_ok(countdown@, over),
{
    scan_countdown(countdown, over, false).is_some()
}

/// Runs one countdown step; see `countdown_step`.
pub fn countdown_frame(countdown: &str, over: i32, tikpop: bool) -> (r: CountdownFrame)
    requires
        countdown_ok(countdown@, over),
    ensures
        (r.clock@, r.fire, r.restart) == countdown_step(countdown@, over, tikpop),
{
    scan_countdown(countdown, over, tikpop).unwrap()
}

/// Seconds from `h:m:s` until the daily target time `target` (seconds since
/// midnight), counting into the next day once the target has passed.
pub open spec fn seconds_until(target: nat, h: nat, m: nat, s: nat) -> nat {
    let now = h * 3600 + m * 60 + s;
    if now > target {
        (target + 86400 - now) as nat
    } else {
        (target - now) as nat
    }
}

/// The clock text of the daily countdown: the time left until `target`
/// as hours, minutes and seconds.
pub open spec fn time_countdown_clock(target: nat, h: nat, m: nat, s: nat) -> Seq<char> {
    let gap = seconds_until(target, h, m, s);
    hms_text(gap / 3600, gap % 3600 / 60, gap % 60)
}

/// Writes the daily countdown's clock text; see `time_countdown_clock`.
/// The seconds left, added to the time now, reach the target, on this day
/// or the next.
pub fn time_countdown_text(target: u32, h: u32, m: u32, s: u32) -> (r: String)
    requires
        h < 24,
        m < 60,
        s < 60,
    ensures
        r@ == time_countdown_clock(target as nat, h as nat, m as nat, s as nat),
        ({
            let now = h * 3600 + m * 60 + s;
            let gap = seconds_until(target as nat, h as nat, m as nat, s as nat);
            now + gap == target || now + gap == target + 86400
        }),
{
    let now = h * 3600 + m * 60 + s;
    let gap = if now > target {
        target + 86400 - now
    } else {
        target - now
    };
    hms_to_text((gap / 3600) as u64, (gap % 3600 / 60) as u64, (gap % 60) as u64)
}

/// The `index`-th item of `list`, or its first when there are fewer.
pub open spec fn pick(list: Seq<Seq<char>>, index: int) -> Seq<char> {
    if list.len() > index {
        list[index]
    } else {
        list[0]
    }
}

/// The sound file of a popup. `sound_path` is `dir*a|b|...` or
/// `dir*a|b|...*c|d|...`: a directory, the sounds of the reminders, and
/// those of the countdown entries. Reminder `index` plays the sound at that
/// position, or the first when the list is shorter; countdown popups use the
/// second list when there is one, the first list when there is no second,
/// and nothing when there are more than three parts.
pub open spec fn sound_for(sound_path: Seq<char>, index: int, in_time_popup: bool) -> Seq<char> {
    let arr = split_seq(sound_path, '*');
    let normal = split_seq(arr[1], '|');
    if arr.len() == 2 || in_time_popup {
        arr[0] + pick(normal, index)
    } else if arr.len() == 3 {
        arr[0] + pick(split_seq(arr[2], '|'), index)
    } else {
        Seq::<char>::empty()
    }
}

/// The inputs on which choosing a sound does not panic: at least one `*`.
pub open spec fn sound_path_ok(sound_path: Seq<char>) -> bool {
    split_seq(sound_path, '*').len() >= 2
}

/// The tip text of a popup. `tips` is `a|b|...` or `a|b|...*c|d|...`: the
/// tips of the reminders and those of the countdown entries, chosen as in
/// `sound_for`; nothing when there are more than two parts.
pub open spec fn tips_for(tips: Seq<char>, index: int, in_time_popup: bool) -> Seq<char> {
    let arr = split_seq(tips, '*');
    let normal = split_seq(arr[0], '|');
    if arr.len() == 1 || in_time_popup {
        pick(normal, index)
    } else if arr.len() == 2 {
        pick(split_seq(arr[1], '|'), index)
    } else {
        Seq::<char>::empty()
    }
}

fn pick_from(list: &Vec<String>, index: usize, Ghost(g): Ghost<Seq<Seq<char>>>) -> (r: String)
    requires
        views(list@) == g,
        g.len() >= 1,
    ensures
        r@ == pick(g, index as int),
{
    if list.len() > index {
        assert(views(list@)[index as int] == list@[index as int]@);
        list[index].clone()
    } else {
        assert(views(list@)[0] == list@[0]@);
        list[0].clone()
    }
}

/// Whether the sound setting can be read; see `sound_path_ok`.
pub fn sound_path_readable(sound_path: &str) -> (r: bool)
    ensures
        r == sound_path_ok(sound_path@),
{
    let arr = split_str(sound_path, '*');
    assert(arr@.len() == views(arr@).len());
    arr.len() >= 2
}

/// Chooses the sound of a popup; see `sound_for`.
pub fn choose_sound(sound_path: &str, index: usize, in_time_popup: bool) -> (r: String)
    requires
        sound_path_ok(sound_path@),
    ensures
        r@ == sound_for(sound_path@, index as int, in_time_popup),
{
    let arr = split_str(sound_path, '*');
    let ghost a = split_seq(sound_path@, '*');
    assert(views(arr@)[0] == arr@[0]@);
    assert(views(arr@)[1] == arr@[1]@);
    let normal = split_str(arr[1].as_str(), '|');
    proof {
        lemma_split_nonempty(a[1], '|');
    }
    if arr.len() == 2 || in_time_popup {
        let mut path = arr[0].clone();
        let item = pick_from(&normal, index, Ghost(split_seq(a[1], '|')));
        path.append(item.as_str());
        path
    } else if arr.len() == 3 {
        assert(views(arr@)[2] == arr@[2]@);
        let counting = split_str(arr[2].as_str(), '|');
        proof {
            lemma_split_nonempty(a[2], '|');
        }
        let mut path = arr[0].clone();
        let item = pick_from(&counting, index, Ghost(split_seq(a[2], '|')));
        path.append(item.as_str());
        path
    } else {
        String::new()
    }
}

/// Chooses the tip of a popup; see `tips_for`.
pub fn choose_tips(tips: &str, index: usize, in_time_popup: bool) -> (r: String)
    ensures
        r@ == tips_for(tips@, index as int, in_time_popup),
{
    let arr = split_str(tips, '*');
    let ghost a = split_seq(tips@, '*');
    proof {
        lemma_split_nonempty(tips@, '*');
    }
    assert(views(arr@)[0] == arr@[0]@);
    let normal = split_str(arr[0].as_str(), '|');
    proof {
        lemma_split_nonempty(a[0], '|');
    }
    if arr.len() == 1 || in_time_popup {
        pick_from(&normal, index, Ghost(split_seq(a[0], '|')))
    } else if arr.len() == 2 {
        assert(views(arr@)[1] == arr@[1]@);
        let counting = split_str(arr[1].as_str(), '|');
        proof {
            lemma_split_nonempty(a[1], '|');
        }
        pick_from(&counting, index, Ghost(split_seq(a[1], '|')))
    } else {
        String::new()
    }
}

} // verus!
