//! The configuration file as an `ini::Ini`: the sections it holds, and the
//! calls that build it.

use vstd::prelude::*;

verus! {

/// `ini::Ini`, held opaque.
#[verifier::external_type_specification]
#[verifier::external_body]
pub struct ExIni(ini::Ini);

/// A section's properties: its keys and values, in the order they are written.
pub type Props = Seq<(Seq<char>, Seq<char>)>;

/// Names what an `ini::Ini` holds: its sections in the order they are
/// written, each with its name (`None` for the general section) and its
/// properties in the order they are written.
pub uninterp spec fn ini_sections(ini: ini::Ini) -> Seq<(Option<Seq<char>>, Props)>;

/// Whether a property has a key other than `key`.
pub open spec fn other_key(key: Seq<char>) -> spec_fn((Seq<char>, Seq<char>)) -> bool {
    |p: (Seq<char>, Seq<char>)| p.0 != key
}

/// The properties after setting `key` to `value`: earlier properties with
/// that key leave, and the new one comes last.
pub open spec fn set_prop(props: Props, key: Seq<char>, value: Seq<char>) -> Props {
    props.filter(other_key(key)).push((key, value))
}

/// Whether some section is named `name`.
pub open spec fn has_section(sections: Seq<(Option<Seq<char>>, Props)>, name: Seq<char>) -> bool {
    exists|i: int| 0 <= i < sections.len() && sections[i].0 == Some(name)
}

/// The first section named `name`.
pub open spec fn section_index(sections: Seq<(Option<Seq<char>>, Props)>, name: Seq<char>) -> int {
    choose|i: int|
        0 <= i < sections.len() && sections[i].0 == Some(name) && forall|j: int|
            0 <= j < i ==> sections[j].0 != Some(name)
}

/// The sections after setting `key` to `value` in the section `name`: a
/// new section at the end when there is none so named, otherwise the
/// first one so named gets the property (see `set_prop`).
pub open spec fn set_in(
    sections: Seq<(Option<Seq<char>>, Props)>,
    name: Seq<char>,
    key: Seq<char>,
    value: Seq<char>,
) -> Seq<(Option<Seq<char>>, Props)> {
    if has_section(sections, name) {
        let i = section_index(sections, name);
        sections.update(i, (Some(name), set_prop(sections[i].1, key, value)))
    } else {
        sections.push((Some(name), seq![(key, value)]))
    }
}

/// `ini::Ini::new`: no sections.
#[verifier::external_body]
pub(crate) fn ini_new() -> (r: ini::Ini)
    ensures
        ini_sections(r) == Seq::<(Option<Seq<char>>, Props)>::empty(),
{
    ini::Ini::new()
}

/// `ini::Ini::set_to` with a named section, which the source does as
/// `with_section(Some(name)).set(key, value)`: the section is found (its
/// first occurrence) or appended, and in its property list, a
/// `ListOrderedMultimap`, inserting a key drops the values it had and
/// appends the new one; see `set_in`.
#[verifier::external_body]
pub(crate) fn ini_set(ini: &mut ini::Ini, name: &str, key: &str, value: &str)
    ensures
        ini_sections(*final(ini)) == set_in(ini_sections(*old(ini)), name@, key@, value@),
{
    ini.set_to(Some(name), key.to_string(), value.to_string())
}

/// Filtering keeps a sequence whose items all pass.
pub proof fn lemma_filter_keeps_all(props: Props, key: Seq<char>)
    requires
        forall|i: int| 0 <= i < props.len() ==> #[trigger] props[i].0 != key,
    ensures
        props.filter(other_key(key)) == props,
    decreases props.len(),
{
    reveal(Seq::filter);
    if props.len() > 0 {
        lemma_filter_keeps_all(props.drop_last(), key);
        assert(props.drop_last().push(props.last()) =~= props);
    }
}


/// The place of a key in the order in which the configuration is written;
/// other keys come after all of them.
#[verifier::opaque]
pub open spec fn key_rank(k: Seq<char>) -> int {
    if k == "time"@ {
        0
    } else if k == "countdown"@ {
        1
    } else if k == "pos"@ {
        2
    } else if k == "round"@ {
        3
    } else if k == "show_time"@ {
        4
    } else if k == "timezone"@ {
        5
    } else if k == "tips"@ {
        6
    } else if k == "font_path"@ {
        7
    } else if k == "time_font"@ {
        8
    } else if k == "bg_color"@ {
        9
    } else if k == "border_color"@ {
        10
    } else if k == "number_bg_color"@ {
        11
    } else if k == "number_color"@ {
        12
    } else if k == "clock_bg_color"@ {
        13
    } else if k == "time_countdown"@ {
        14
    } else {
        15
    }
}

/// Each key of the configuration has its own rank.
pub proof fn lemma_key_ranks()
    ensures
        key_rank("time"@) == 0,
        key_rank("countdown"@) == 1,
        key_rank("pos"@) == 2,
        key_rank("round"@) == 3,
        key_rank("show_time"@) == 4,
        key_rank("timezone"@) == 5,
        key_rank("tips"@) == 6,
        key_rank("font_path"@) == 7,
        key_rank("time_font"@) == 8,
        key_rank("bg_color"@) == 9,
        key_rank("border_color"@) == 10,
        key_rank("number_bg_color"@) == 11,
        key_rank("number_color"@) == 12,
        key_rank("clock_bg_color"@) == 13,
        key_rank("time_countdown"@) == 14,
{
    reveal(key_rank);
    reveal_strlit("time");
    reveal_strlit("countdown");
    reveal_strlit("pos");
    reveal_strlit("round");
    reveal_strlit("show_time");
    reveal_strlit("timezone");
    reveal_strlit("tips");
    reveal_strlit("font_path");
    reveal_strlit("time_font");
    reveal_strlit("bg_color");
    reveal_strlit("border_color");
    reveal_strlit("number_bg_color");
    reveal_strlit("number_color");
    reveal_strlit("clock_bg_color");
    reveal_strlit("time_countdown");
    assert("time"@.len() != "countdown"@.len());
    assert("time"@.len() != "pos"@.len());
    assert("countdown"@.len() != "pos"@.len());
    assert("time"@.len() != "round"@.len());
    assert("countdown"@.len() != "round"@.len());
    assert("pos"@.len() != "round"@.len());
    assert("time"@.len() != "show_time"@.len());
    assert("countdown"@[0] != "show_time"@[0]);
    assert("pos"@.len() != "show_time"@.len());
    assert("round"@.len() != "show_time"@.len());
    assert("time"@.len() != "timezone"@.len());
    assert("countdown"@.len() != "timezone"@.len());
    assert("pos"@.len() != "timezone"@.len());
    assert("round"@.len() != "timezone"@.len());
    assert("show_time"@.len() != "timezone"@.len());
    assert("time"@[2] != "tips"@[2]);
    assert("countdown"@.len() != "tips"@.len());
    assert("pos"@.len() != "tips"@.len());
    assert("round"@.len() != "tips"@.len());
    assert("show_time"@.len() != "tips"@.len());
    assert("timezone"@.len() != "tips"@.len());
    assert("time"@.len() != "font_path"@.len());
    assert("countdown"@[0] != "font_path"@[0]);
    assert("pos"@.len() != "font_path"@.len());
    assert("round"@.len() != "font_path"@.len());
    assert("show_time"@[0] != "font_path"@[0]);
    assert("timezone"@.len() != "font_path"@.len());
    assert("tips"@.len() != "font_path"@.len());
    assert("time"@.len() != "time_font"@.len());
    assert("countdown"@[0] != "time_font"@[0]);
    assert("pos"@.len() != "time_font"@.len());
    assert("round"@.len() != "time_font"@.len());
    assert("show_time"@[0] != "time_font"@[0]);
    assert("timezone"@.len() != "time_font"@.len());
    assert("tips"@.len() != "time_font"@.len());
    assert("font_path"@[0] != "time_font"@[0]);
    assert("time"@.len() != "bg_color"@.len());
    assert("countdown"@.len() != "bg_color"@.len());
    assert("pos"@.len() != "bg_color"@.len());
    assert("round"@.len() != "bg_color"@.len());
    assert("show_time"@.len() != "bg_color"@.len());
    assert("timezone"@[0] != "bg_color"@[0]);
    assert("tips"@.len() != "bg_color"@.len());
    assert("font_path"@.len() != "bg_color"@.len());
    assert("time_font"@.len() != "bg_color"@.len());
    assert("time"@.len() != "border_color"@.len());
    assert("countdown"@.len() != "border_color"@.len());
    assert("pos"@.len() != "border_color"@.len());
    assert("round"@.len() != "border_color"@.len());
    assert("show_time"@.len() != "border_color"@.len());
    assert("timezone"@.len() != "border_color"@.len());
    assert("tips"@.len() != "border_color"@.len());
    assert("font_path"@.len() != "border_color"@.len());
    assert("time_font"@.len() != "border_color"@.len());
    assert("bg_color"@.len() != "border_color"@.len());
    assert("time"@.len() != "number_bg_color"@.len());
    assert("countdown"@.len() != "number_bg_color"@.len());
    assert("pos"@.len() != "number_bg_color"@.len());
    assert("round"@.len() != "number_bg_color"@.len());
    assert("show_time"@.len() != "number_bg_color"@.len());
    assert("timezone"@.len() != "number_bg_color"@.len());
    assert("tips"@.len() != "number_bg_color"@.len());
    assert("font_path"@.len() != "number_bg_color"@.len());
    assert("time_font"@.len() != "number_bg_color"@.len());
    assert("bg_color"@.len() != "number_bg_color"@.len());
    assert("border_color"@.len() != "number_bg_color"@.len());
    assert("time"@.len() != "number_color"@.len());
    assert("countdown"@.len() != "number_color"@.len());
    assert("pos"@.len() != "number_color"@.len());
    assert("round"@.len() != "number_color"@.len());
    assert("show_time"@.len() != "number_color"@.len());
    assert("timezone"@.len() != "number_color"@.len());
    assert("tips"@.len() != "number_color"@.len());
    assert("font_path"@.len() != "number_color"@.len());
    assert("time_font"@.len() != "number_color"@.len());
    assert("bg_color"@.len() != "number_color"@.len());
    assert("border_color"@[0] != "number_color"@[0]);
    assert("number_bg_color"@.len() != "number_color"@.len());
    assert("time"@.len() != "clock_bg_color"@.len());
    assert("countdown"@.len() != "clock_bg_color"@.len());
    assert("pos"@.len() != "clock_bg_color"@.len());
    assert("round"@.len() != "clock_bg_color"@.len());
    assert("show_time"@.len() != "clock_bg_color"@.len());
    assert("timezone"@.len() != "clock_bg_color"@.len());
    assert("tips"@.len() != "clock_bg_color"@.len());
    assert("font_path"@.len() != "clock_bg_color"@.len());
    assert("time_font"@.len() != "clock_bg_color"@.len());
    assert("bg_color"@.len() != "clock_bg_color"@.len());
    assert("border_color"@.len() != "clock_bg_color"@.len());
    assert("number_bg_color"@.len() != "clock_bg_color"@.len());
    assert("number_color"@.len() != "clock_bg_color"@.len());
    assert("time"@.len() != "time_countdown"@.len());
    assert("countdown"@.len() != "time_countdown"@.len());
    assert("pos"@.len() != "time_countdown"@.len());
    assert("round"@.len() != "time_countdown"@.len());
    assert("show_time"@.len() != "time_countdown"@.len());
    assert("timezone"@.len() != "time_countdown"@.len());
    assert("tips"@.len() != "time_countdown"@.len());
    assert("font_path"@.len() != "time_countdown"@.len());
    assert("time_font"@.len() != "time_countdown"@.len());
    assert("bg_color"@.len() != "time_countdown"@.len());
    assert("border_color"@.len() != "time_countdown"@.len());
    assert("number_bg_color"@.len() != "time_countdown"@.len());
    assert("number_color"@.len() != "time_countdown"@.len());
    assert("clock_bg_color"@[0] != "time_countdown"@[0]);
}

/// The sections of a configuration whose `Config` section holds `props`
/// (no section while it holds nothing).
pub open spec fn config_section(props: Props) -> Seq<(Option<Seq<char>>, Props)> {
    if props.len() == 0 {
        Seq::<(Option<Seq<char>>, Props)>::empty()
    } else {
        seq![(Some("Config"@), props)]
    }
}

/// Sets `key`, which comes after every key already set, in the `Config`
/// section: the property is appended.
pub(crate) fn put_config(
    ini: &mut ini::Ini,
    key: &str,
    value: &str,
    Ghost(props): Ghost<Props>,
    Ghost(rank): Ghost<int>,
)
    requires
        ini_sections(*old(ini)) == config_section(props),
        key_rank(key@) == rank,
        forall|i: int| 0 <= i < props.len() ==> key_rank(#[trigger] props[i].0) < rank,
    ensures
        ini_sections(*final(ini)) == config_section(props.push((key@, value@))),
{
    let ghost before = ini_sections(*ini);
    ini_set(ini, "Config", key, value);
    proof {
        assert forall|i: int| 0 <= i < props.len() implies #[trigger] props[i].0 != key@ by {
            assert(key_rank(props[i].0) < rank);
        }
        lemma_filter_keeps_all(props, key@);
        if props.len() > 0 {
            assert(before[0].0 == Some("Config"@));
            assert(has_section(before, "Config"@));
            let k = section_index(before, "Config"@);
            assert(k == 0);
            assert(set_prop(props, key@, value@) == props.push((key@, value@)));
            assert(ini_sections(*ini) =~= config_section(props.push((key@, value@))));
        } else {
            assert(!has_section(before, "Config"@));
            assert(props.push((key@, value@)) =~= seq![(key@, value@)]);
            assert(ini_sections(*ini) =~= config_section(props.push((key@, value@))));
        }
    }
}

} // verus!
