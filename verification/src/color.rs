//! Colours of the clock window, read from `r,g,b[,a]` settings.

use vstd::prelude::*;
use crate::text::{parse_u8, parse_u8_spec, split_seq, split_str, views};

verus! {

/// A colour as the four bytes red, green, blue and alpha, in the
/// premultiplied form that `egui::Color32` stores.
#[derive(PartialEq, Eq, Structural, Clone, Copy, Debug)]
pub struct Rgba {
    pub r: u8,
    pub g: u8,
    pub b: u8,
    pub a: u8,
}

/// `egui::Color32::from_rgb`: the colour `r, g, b` fully opaque, as the
/// source builds it (`[r, g, b, 255]`).
#[verifier::external_body]
fn rgb_color(r: u8, g: u8, b: u8) -> (c: Rgba)
    ensures
        c == (Rgba { r, g, b, a: 255 }),
{
    let [r, g, b, a] = egui::Color32::from_rgb(r, g, b).to_array();
    Rgba { r, g, b, a }
}

/// `egui::Color32::from_rgba_premultiplied`: the four bytes kept as given.
#[verifier::external_body]
pub(crate) fn premultiplied_color(r: u8, g: u8, b: u8, a: u8) -> (c: Rgba)
    ensures
        c == (Rgba { r, g, b, a }),
{
    let [r, g, b, a] = egui::Color32::from_rgba_premultiplied(r, g, b, a).to_array();
    Rgba { r, g, b, a }
}

/// `egui::Color32::from_rgba_unmultiplied`. The contract claims what the
/// source shows: alpha is kept; alpha 255 keeps the colour (`from_rgb`);
/// alpha 0 gives transparent black. For other alphas the colour bytes come
/// from a gamma-correct premultiplication in `f32` with `powf`, whose
/// precision std does not fix; nothing is stated of them.
#[verifier::external_body]
fn unmultiplied_color(r: u8, g: u8, b: u8, a: u8) -> (c: Rgba)
    ensures
        unmultiplied(r, g, b, a, c),
        a == 255 ==> c == (Rgba { r, g, b, a }),
        a == 0 ==> c == (Rgba { r: 0, g: 0, b: 0, a: 0 }),
{
    let [r, g, b, a] = egui::Color32::from_rgba_unmultiplied(r, g, b, a).to_array();
    Rgba { r, g, b, a }
}

/// What holds of the colour `c` that `from_rgba_unmultiplied` gives for
/// these bytes: its alpha is `a`; alpha 255 keeps the colour, alpha 0 gives
/// transparent black, and other alphas premultiply the colour in floating
/// point (bytes left open).
pub open spec fn unmultiplied(r: u8, g: u8, b: u8, a: u8, c: Rgba) -> bool {
    &&& c.a == a
    &&& a == 255 ==> c == (Rgba { r, g, b, a })
    &&& a == 0 ==> c == (Rgba { r: 0, g: 0, b: 0, a: 0 })
}

/// The byte that the `k`-th comma-separated field of `s` parses to.
pub open spec fn field_u8(s: Seq<char>, k: int) -> u8 {
    parse_u8_spec(split_seq(s, ',')[k]).unwrap()
}

/// The inputs on which reading a colour does not panic: an empty text, fewer
/// than three fields, or fields of which the first three (or four, when
/// there are more than three) are bytes in decimal.
pub open spec fn color_text_ok(s: Seq<char>) -> bool {
    let p = split_seq(s, ',');
    s.len() == 0 || p.len() < 3 || (forall|k: int|
        0 <= k < 4 && k < p.len() ==> #[trigger] parse_u8_spec(p[k]) is Some)
}

/// Whether `c` is the colour that a setting `s` stands for: `default`
/// when it is empty, opaque black when it has fewer than three fields, the
/// opaque colour `r,g,b` for three fields, and `r,g,b,a` taken as
/// unmultiplied for more (fields past the fourth are ignored; see
/// `unmultiplied`).
pub open spec fn color_of(s: Seq<char>, default: Rgba, c: Rgba) -> bool {
    let p = split_seq(s, ',');
    if s.len() == 0 {
        c == default
    } else if p.len() < 3 {
        c == (Rgba { r: 0, g: 0, b: 0, a: 255 })
    } else if p.len() == 3 {
        c == (Rgba { r: field_u8(s, 0), g: field_u8(s, 1), b: field_u8(s, 2), a: 255 })
    } else {
        unmultiplied(field_u8(s, 0), field_u8(s, 1), field_u8(s, 2), field_u8(s, 3), c)
    }
}

/// Whether a colour setting can be read; see `color_text_ok`.
pub fn color_text_readable(s: &str) -> (r: bool)
    ensures
        r == color_text_ok(s@),
{
    if s.unicode_len() == 0 {
        return true;
    }
    let arr = split_str(s, ',');
    let ghost p = split_seq(s@, ',');
    assert(arr@.len() == p.len());
    if arr.len() < 3 {
        return true;
    }
    let mut k: usize = 0;
    while k < 4 && k < arr.len()
        invariant
            p == split_seq(s@, ','),
            views(arr@) == p,
            arr@.len() == p.len(),
            p.len() >= 3,
            s@.len() > 0,
            k <= 4,
            k <= arr@.len(),
            forall|j: int| 0 <= j < k ==> #[trigger] parse_u8_spec(p[j]) is Some,
        decreases 4 - k,
    {
        assert(arr@[k as int]@ == views(arr@)[k as int]);
        if parse_u8(arr[k].as_str()).is_none() {
            assert(!(parse_u8_spec(p[k as int]) is Some));
            return false;
        }
        k = k + 1;
    }
    true
}

fn field_byte(arr: &Vec<String>, k: usize, Ghost(s): Ghost<Seq<char>>) -> (v: u8)
    requires
        k < arr.len(),
        views(arr@) == split_seq(s, ','),
        parse_u8_spec(split_seq(s, ',')[k as int]) is Some,
    ensures
        v == field_u8(s, k as int),
{
    assert(arr@[k as int]@ == views(arr@)[k as int]);
    parse_u8(arr[k].as_str()).unwrap()
}

/// Reads a colour setting; see `color_of`.
pub fn gene_color(color_str: String, default_color: Rgba) -> (c: Rgba)
    requires
        color_text_ok(color_str@),
    ensures
        color_of(color_str@, default_color, c),
{
    if color_str.as_str().unicode_len() == 0 {
        return default_color;
    }
    let arr = split_str(color_str.as_str(), ',');
    let ghost s = color_str@;
    assert(arr@.len() == views(arr@).len());
    if arr.len() < 3 {
        return rgb_color(0, 0, 0);
    }
    assert(parse_u8_spec(split_seq(s, ',')[0]) is Some);
    assert(parse_u8_spec(split_seq(s, ',')[1]) is Some);
    assert(parse_u8_spec(split_seq(s, ',')[2]) is Some);
    let r = field_byte(&arr, 0, Ghost(s));
    let g = field_byte(&arr, 1, Ghost(s));
    let b = field_byte(&arr, 2, Ghost(s));
    if arr.len() == 3 {
        return rgb_color(r, g, b);
    }
    assert(parse_u8_spec(split_seq(s, ',')[3]) is Some);
    let a = field_byte(&arr, 3, Ghost(s));
    unmultiplied_color(r, g, b, a)
}

} // verus!
