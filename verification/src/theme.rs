//! The color themes of the terminal view, as RGB triples.
use vstd::prelude::*;
use crate::display::{byte_len, is_boundary};
use crate::num::{parse_hex_byte, parse_hex_byte_exec};
use crate::text::{chars_eq_str, chars_of};

verus! {

/// An RGB color.
#[derive(Debug, Clone, Copy, PartialEq, Eq, Structural)]
pub struct Rgb {
    pub r: u8,
    pub g: u8,
    pub b: u8,
}

/// The colors of the view.
#[derive(Debug, Clone, Copy, PartialEq, Eq, Structural)]
pub struct Theme {
    pub accent: Rgb,
    pub user_text: Rgb,
    pub assistant_text: Rgb,
    pub tool_name: Rgb,
    pub tool_ok: Rgb,
    pub tool_denied: Rgb,
    pub code_bg: Rgb,
    pub border: Rgb,
    pub muted: Rgb,
    pub bg: Rgb,
    pub fg: Rgb,
    /// The header line of a thinking block.
    pub thinking_header: Rgb,
    /// The text inside a thinking block.
    pub thinking_text: Rgb,
    /// The border around a thinking block.
    pub thinking_border: Rgb,
}

pub open spec fn dark_spec() -> Theme {
    Theme {
        accent: Rgb { r: 129, g: 140, b: 248 },
        user_text: Rgb { r: 156, g: 163, b: 175 },
        assistant_text: Rgb { r: 129, g: 140, b: 248 },
        tool_name: Rgb { r: 192, g: 132, b: 252 },
        tool_ok: Rgb { r: 52, g: 211, b: 153 },
        tool_denied: Rgb { r: 248, g: 113, b: 113 },
        code_bg: Rgb { r: 13, g: 17, b: 23 },
        border: Rgb { r: 55, g: 65, b: 81 },
        muted: Rgb { r: 107, g: 114, b: 128 },
        bg: Rgb { r: 17, g: 24, b: 39 },
        fg: Rgb { r: 229, g: 231, b: 235 },
        thinking_header: Rgb { r: 251, g: 191, b: 36 },
        thinking_text: Rgb { r: 180, g: 180, b: 180 },
        thinking_border: Rgb { r: 251, g: 191, b: 36 },
    }
}

pub open spec fn light_spec() -> Theme {
    Theme {
        accent: Rgb { r: 79, g: 70, b: 229 },
        user_text: Rgb { r: 107, g: 114, b: 128 },
        assistant_text: Rgb { r: 79, g: 70, b: 229 },
        tool_name: Rgb { r: 124, g: 58, b: 237 },
        tool_ok: Rgb { r: 5, g: 150, b: 105 },
        tool_denied: Rgb { r: 220, g: 38, b: 38 },
        code_bg: Rgb { r: 249, g: 250, b: 251 },
        border: Rgb { r: 209, g: 213, b: 219 },
        muted: Rgb { r: 156, g: 163, b: 175 },
        bg: Rgb { r: 250, g: 250, b: 250 },
        fg: Rgb { r: 31, g: 41, b: 55 },
        thinking_header: Rgb { r: 217, g: 119, b: 6 },
        thinking_text: Rgb { r: 107, g: 114, b: 128 },
        thinking_border: Rgb { r: 217, g: 119, b: 6 },
    }
}

/// The digits of a color code: the text after one leading `#`, if any.
pub open spec fn hex_digits(h: Seq<char>) -> Seq<char> {
    if h.len() > 0 && h[0] == '#' {
        h.skip(1)
    } else {
        h
    }
}

/// A color code whose six bytes can be cut in pairs (a code of six bytes
/// whose pairs would split a character cannot be read).
pub open spec fn hex_cut_ok(h: Seq<char>) -> bool {
    byte_len(hex_digits(h)) == 6 ==> is_boundary(hex_digits(h), 2) && is_boundary(hex_digits(h), 4)
}

/// `#rrggbb` or `rrggbb`, each pair read as by `u8::from_str_radix(_, 16)`.
pub open spec fn parse_hex_spec(h: Seq<char>) -> Option<Rgb> {
    let s = hex_digits(h);
    if s.len() != 6 {
        None
    } else {
        match (parse_hex_byte(s[0], s[1]), parse_hex_byte(s[2], s[3]), parse_hex_byte(s[4], s[5])) {
            (Some(r), Some(g), Some(b)) => Some(Rgb { r, g, b }),
            _ => None,
        }
    }
}

/// The theme with the color named `key` set to `c`; other names change
/// nothing.
pub open spec fn set_color(t: Theme, key: Seq<char>, c: Rgb) -> Theme {
    if key == "accent"@ {
        Theme { accent: c, ..t }
    } else if key == "user_text"@ {
        Theme { user_text: c, ..t }
    } else if key == "assistant_text"@ {
        Theme { assistant_text: c, ..t }
    } else if key == "tool_name"@ {
        Theme { tool_name: c, ..t }
    } else if key == "tool_ok"@ {
        Theme { tool_ok: c, ..t }
    } else if key == "tool_denied"@ {
        Theme { tool_denied: c, ..t }
    } else if key == "code_bg"@ {
        Theme { code_bg: c, ..t }
    } else if key == "border"@ {
        Theme { border: c, ..t }
    } else if key == "muted"@ {
        Theme { muted: c, ..t }
    } else if key == "bg"@ {
        Theme { bg: c, ..t }
    } else if key == "fg"@ {
        Theme { fg: c, ..t }
    } else if key == "thinking_header"@ {
        Theme { thinking_header: c, ..t }
    } else if key == "thinking_text"@ {
        Theme { thinking_text: c, ..t }
    } else if key == "thinking_border"@ {
        Theme { thinking_border: c, ..t }
    } else {
        t
    }
}

pub open spec fn override_views(os: Seq<(String, String)>) -> Seq<(Seq<char>, Seq<char>)> {
    os.map_values(|p: (String, String)| (p.0@, p.1@))
}

/// The overrides applied in order; a code that cannot be read is skipped.
pub open spec fn apply_overrides(t: Theme, os: Seq<(Seq<char>, Seq<char>)>) -> Theme
    decreases os.len(),
{
    if os.len() == 0 {
        t
    } else {
        let t2 = apply_overrides(t, os.drop_last());
        match parse_hex_spec(os.last().1) {
            Some(c) => set_color(t2, os.last().0, c),
            None => t2,
        }
    }
}

pub open spec fn preset_spec(preset: Seq<char>) -> Theme {
    if preset == "light"@ {
        light_spec()
    } else {
        dark_spec()
    }
}

impl Theme {
    pub fn dark() -> (r: Theme)
        ensures
            r == dark_spec(),
    {
        Theme {
            accent: Rgb { r: 129, g: 140, b: 248 },
            user_text: Rgb { r: 156, g: 163, b: 175 },
            assistant_text: Rgb { r: 129, g: 140, b: 248 },
            tool_name: Rgb { r: 192, g: 132, b: 252 },
            tool_ok: Rgb { r: 52, g: 211, b: 153 },
            tool_denied: Rgb { r: 248, g: 113, b: 113 },
            code_bg: Rgb { r: 13, g: 17, b: 23 },
            border: Rgb { r: 55, g: 65, b: 81 },
            muted: Rgb { r: 107, g: 114, b: 128 },
            bg: Rgb { r: 17, g: 24, b: 39 },
            fg: Rgb { r: 229, g: 231, b: 235 },
            thinking_header: Rgb { r: 251, g: 191, b: 36 },
            thinking_text: Rgb { r: 180, g: 180, b: 180 },
            thinking_border: Rgb { r: 251, g: 191, b: 36 },
        }
    }

    pub fn light() -> (r: Theme)
        ensures
            r == light_spec(),
    {
        Theme {
            accent: Rgb { r: 79, g: 70, b: 229 },
            user_text: Rgb { r: 107, g: 114, b: 128 },
            assistant_text: Rgb { r: 79, g: 70, b: 229 },
            tool_name: Rgb { r: 124, g: 58, b: 237 },
            tool_ok: Rgb { r: 5, g: 150, b: 105 },
            tool_denied: Rgb { r: 220, g: 38, b: 38 },
            code_bg: Rgb { r: 249, g: 250, b: 251 },
            border: Rgb { r: 209, g: 213, b: 219 },
            muted: Rgb { r: 156, g: 163, b: 175 },
            bg: Rgb { r: 250, g: 250, b: 250 },
            fg: Rgb { r: 31, g: 41, b: 55 },
            thinking_header: Rgb { r: 217, g: 119, b: 6 },
            thinking_text: Rgb { r: 107, g: 114, b: 128 },
            thinking_border: Rgb { r: 217, g: 119, b: 6 },
        }
    }

    /// The preset (`light`, anything else dark) with the overrides applied
    /// in order.
    pub fn from_config(preset: &str, overrides: &Vec<(String, String)>) -> (r: Theme)
        requires
            forall|i: int| 0 <= i < overrides@.len() ==> hex_cut_ok(#[trigger] overrides@[i].1@),
        ensures
            r == apply_overrides(preset_spec(preset@), override_views(overrides@)),
    {
        let p = chars_of(preset);
        let mut theme = if chars_eq_str(&p, "light") {
            Theme::light()
        } else {
            Theme::dark()
        };
        let ghost base = preset_spec(preset@);
        let mut i: usize = 0;
        assert(override_views(overrides@).take(0) =~= Seq::<(Seq<char>, Seq<char>)>::empty());
        while i < overrides.len()
            invariant
                i <= overrides.len(),
                forall|j: int| 0 <= j < overrides@.len() ==> hex_cut_ok(#[trigger] overrides@[j].1@),
                theme == apply_overrides(base, override_views(overrides@).take(i as int)),
            decreases overrides.len() - i,
        {
            let ghost ov = override_views(overrides@);
            assert(ov.take(i + 1).drop_last() =~= ov.take(i as int));
            assert(ov.take(i + 1).last() == (overrides@[i as int].0@, overrides@[i as int].1@));
            let key = &overrides[i].0;
            match parse_hex(overrides[i].1.as_str()) {
                Some(c) => {
                    theme = set_theme_color(theme, key.as_str(), c);
                },
                None => {},
            }
            i = i + 1;
        }
        assert(override_views(overrides@).take(overrides.len() as int) =~= override_views(overrides@));
        theme
    }
}

fn set_theme_color(t: Theme, key: &str, c: Rgb) -> (r: Theme)
    ensures
        r == set_color(t, key@, c),
{
    let k = chars_of(key);
    let mut t = t;
    if chars_eq_str(&k, "accent") {
        t.accent = c;
    } else if chars_eq_str(&k, "user_text") {
        t.user_text = c;
    } else if chars_eq_str(&k, "assistant_text") {
        t.assistant_text = c;
    } else if chars_eq_str(&k, "tool_name") {
        t.tool_name = c;
    } else if chars_eq_str(&k, "tool_ok") {
        t.tool_ok = c;
    } else if chars_eq_str(&k, "tool_denied") {
        t.tool_denied = c;
    } else if chars_eq_str(&k, "code_bg") {
        t.code_bg = c;
    } else if chars_eq_str(&k, "border") {
        t.border = c;
    } else if chars_eq_str(&k, "muted") {
        t.muted = c;
    } else if chars_eq_str(&k, "bg") {
        t.bg = c;
    } else if chars_eq_str(&k, "fg") {
        t.fg = c;
    } else if chars_eq_str(&k, "thinking_header") {
        t.thinking_header = c;
    } else if chars_eq_str(&k, "thinking_text") {
        t.thinking_text = c;
    } else if chars_eq_str(&k, "thinking_border") {
        t.thinking_border = c;
    }
    t
}

/// Reads a color code `#rrggbb` (the `#` may be left out).
pub fn parse_hex(hex: &str) -> (r: Option<Rgb>)
    requires
        hex_cut_ok(hex@),
    ensures
        r == parse_hex_spec(hex@),
{
    let v = chars_of(hex);
    let start: usize = if v.len() > 0 && v[0] == '#' { 1 } else { 0 };
    assert(hex_digits(hex@) =~= v@.skip(start as int));
    if v.len() - start != 6 {
        return None;
    }
    let r = parse_hex_byte_exec(v[start], v[start + 1]);
    let g = parse_hex_byte_exec(v[start + 2], v[start + 3]);
    let b = parse_hex_byte_exec(v[start + 4], v[start + 5]);
    match (r, g, b) {
        (Some(r), Some(g), Some(b)) => Some(Rgb { r, g, b }),
        _ => None,
    }
}

} // verus!
