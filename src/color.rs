//! Theme colors: decoding hex color strings and resolving the eight-color
//! palette, with the built-in palette whenever anything is missing or malformed.
use vstd::prelude::*;

verus! {

/// Unicode `White_Space` characters, the ones `str::trim` removes.
pub open spec fn is_space(c: char) -> bool {
    ('\u{9}' <= c && c <= '\u{d}') || c == ' ' || c == '\u{85}' || c == '\u{a0}'
        || c == '\u{1680}' || ('\u{2000}' <= c && c <= '\u{200a}') || c == '\u{2028}'
        || c == '\u{2029}' || c == '\u{202f}' || c == '\u{205f}' || c == '\u{3000}'
}

/// `s` without its leading white space.
pub open spec fn trim_start(s: Seq<char>) -> Seq<char>
    decreases s.len(),
{
    if s.len() > 0 && is_space(s[0]) {
        trim_start(s.drop_first())
    } else {
        s
    }
}

/// `s` without its trailing white space.
pub open spec fn trim_end(s: Seq<char>) -> Seq<char>
    decreases s.len(),
{
    if s.len() > 0 && is_space(s.last()) {
        trim_end(s.drop_last())
    } else {
        s
    }
}

pub open spec fn trim(s: Seq<char>) -> Seq<char> {
    trim_end(trim_start(s))
}

/// The digits of a color string once white space and an optional `#` or `0x`
/// prefix are removed.
pub open spec fn hex_digits(s: Seq<char>) -> Seq<char> {
    let t = trim(s);
    if t.len() >= 1 && t[0] == '#' {
        t.subrange(1, t.len() as int)
    } else if t.len() >= 2 && t[0] == '0' && t[1] == 'x' {
        t.subrange(2, t.len() as int)
    } else {
        t
    }
}

pub open spec fn is_hex(c: char) -> bool {
    ('0' <= c && c <= '9') || ('a' <= c && c <= 'f') || ('A' <= c && c <= 'F')
}

pub open spec fn hex_value(c: char) -> nat {
    if '0' <= c && c <= '9' {
        (c as nat - '0' as nat) as nat
    } else if 'a' <= c && c <= 'f' {
        (c as nat - 'a' as nat + 10) as nat
    } else {
        (c as nat - 'A' as nat + 10) as nat
    }
}

/// The byte written by the two hex digits at `i` and `i + 1`.
pub open spec fn byte_at(d: Seq<char>, i: int) -> u8 {
    (hex_value(d[i]) * 16 + hex_value(d[i + 1])) as u8
}

/// What a color string decodes to: exactly six hex digits, two per channel.
pub open spec fn rgb_of(s: Seq<char>) -> Option<(u8, u8, u8)> {
    let d = hex_digits(s);
    if d.len() == 6 && forall|i: int| 0 <= i < 6 ==> is_hex(#[trigger] d[i]) {
        Some((byte_at(d, 0), byte_at(d, 2), byte_at(d, 4)))
    } else {
        None
    }
}

fn hex_digit(c: char) -> (r: Option<u8>)
    ensures
        r is Some <==> is_hex(c),
        r is Some ==> r->0 as nat == hex_value(c) && r->0 < 16,
{
    if '0' <= c && c <= '9' {
        Some((c as u32 - '0' as u32) as u8)
    } else if 'a' <= c && c <= 'f' {
        Some((c as u32 - 'a' as u32 + 10) as u8)
    } else if 'A' <= c && c <= 'F' {
        Some((c as u32 - 'A' as u32 + 10) as u8)
    } else {
        None
    }
}

fn is_space_char(c: char) -> (r: bool)
    ensures
        r == is_space(c),
{
    ('\u{9}' <= c && c <= '\u{d}') || c == ' ' || c == '\u{85}' || c == '\u{a0}'
        || c == '\u{1680}' || ('\u{2000}' <= c && c <= '\u{200a}') || c == '\u{2028}'
        || c == '\u{2029}' || c == '\u{202f}' || c == '\u{205f}' || c == '\u{3000}'
}

/// Decodes a color string such as `#ff8800`, `0xFF8800` or `ff8800`, with
/// white space around it allowed; `None` unless exactly six hex digits follow
/// the prefix.
pub fn hex_to_rgb(s: &str) -> (r: Option<(u8, u8, u8)>)
    ensures
        r == rgb_of(s@),
{
    let n = s.unicode_len();
    let mut lo: usize = 0;
    assert(s@.subrange(0, n as int) =~= s@);
    while lo < n && is_space_char(s.get_char(lo))
        invariant
            lo <= n,
            n == s@.len(),
            trim_start(s@) == trim_start(s@.subrange(lo as int, n as int)),
        decreases n - lo,
    {
        assert(s@.subrange(lo as int, n as int).drop_first() =~= s@.subrange(
            lo + 1,
            n as int,
        ));
        lo = lo + 1;
    }
    assert(trim_start(s@) == s@.subrange(lo as int, n as int));
    let mut hi: usize = n;
    while hi > lo && is_space_char(s.get_char(hi - 1))
        invariant
            lo <= hi <= n,
            n == s@.len(),
            trim(s@) == trim_end(s@.subrange(lo as int, hi as int)),
        decreases hi,
    {
        assert(s@.subrange(lo as int, hi as int).drop_last() =~= s@.subrange(
            lo as int,
            hi - 1,
        ));
        hi = hi - 1;
    }
    let ghost t = s@.subrange(lo as int, hi as int);
    assert(trim(s@) == t);
    let mut start: usize = lo;
    if hi - lo >= 1 && s.get_char(lo) == '#' {
        start = lo + 1;
    } else if hi - lo >= 2 && s.get_char(lo) == '0' && s.get_char(lo + 1) == 'x' {
        start = lo + 2;
    }
    assert(hex_digits(s@) =~= s@.subrange(start as int, hi as int));
    if hi - start != 6 {
        return None;
    }
    let mut bytes: Vec<u8> = Vec::new();
    let mut k: usize = 0;
    while k < 3
        invariant
            k <= 3,
            hi - start == 6,
            start <= hi <= n,
            n == s@.len(),
            hex_digits(s@) =~= s@.subrange(start as int, hi as int),
            bytes@.len() == k,
            forall|i: int| 0 <= i < 2 * k ==> is_hex(#[trigger] hex_digits(s@)[i]),
            forall|j: int| 0 <= j < k ==> bytes@[j] == byte_at(hex_digits(s@), 2 * j),
        decreases 3 - k,
    {
        let hi_digit = hex_digit(s.get_char(start + 2 * k));
        let lo_digit = hex_digit(s.get_char(start + 2 * k + 1));
        match (hi_digit, lo_digit) {
            (Some(a), Some(b)) => {
                bytes.push(a * 16 + b);
            },
            _ => {
                return None;
            },
        }
        k = k + 1;
    }
    Some((bytes[0], bytes[1], bytes[2]))
}

/// The eight palette colors as RGB triples.
#[derive(Clone, Copy, Debug, PartialEq, Eq)]
pub struct NormalColorsRgb {
    pub black: (u8, u8, u8),
    pub red: (u8, u8, u8),
    pub green: (u8, u8, u8),
    pub yellow: (u8, u8, u8),
    pub blue: (u8, u8, u8),
    pub magenta: (u8, u8, u8),
    pub cyan: (u8, u8, u8),
    pub white: (u8, u8, u8),
}

/// The `[colors.normal]` section of a theme: one color string per name.
#[derive(Clone, Debug)]
pub struct NormalColors {
    pub black: String,
    pub red: String,
    pub green: String,
    pub yellow: String,
    pub blue: String,
    pub magenta: String,
    pub cyan: String,
    pub white: String,
}

#[derive(Clone, Debug)]
pub struct Colors {
    pub normal: NormalColors,
}

/// A theme document, reduced to the colors it defines.
#[derive(Clone, Debug)]
pub struct Theme {
    pub colors: Colors,
}

/// The palette used whenever no valid theme is at hand.
pub open spec fn default_palette_spec() -> NormalColorsRgb {
    NormalColorsRgb {
        black: (0, 0, 0),
        red: (255, 0, 0),
        green: (0, 255, 0),
        yellow: (255, 255, 0),
        blue: (0, 0, 255),
        magenta: (255, 0, 255),
        cyan: (0, 255, 255),
        white: (255, 255, 255),
    }
}

/// The theme's palette, if all eight of its color strings decode.
pub open spec fn palette_of_theme(t: Theme) -> Option<NormalColorsRgb> {
    let n = t.colors.normal;
    if rgb_of(n.black@) is Some && rgb_of(n.red@) is Some && rgb_of(n.green@) is Some
        && rgb_of(n.yellow@) is Some && rgb_of(n.blue@) is Some && rgb_of(n.magenta@) is Some
        && rgb_of(n.cyan@) is Some && rgb_of(n.white@) is Some {
        Some(
            NormalColorsRgb {
                black: rgb_of(n.black@)->0,
                red: rgb_of(n.red@)->0,
                green: rgb_of(n.green@)->0,
                yellow: rgb_of(n.yellow@)->0,
                blue: rgb_of(n.blue@)->0,
                magenta: rgb_of(n.magenta@)->0,
                cyan: rgb_of(n.cyan@)->0,
                white: rgb_of(n.white@)->0,
            },
        )
    } else {
        None
    }
}

/// The palette in effect for an optional theme: the theme's own when it is
/// present and entirely valid, else the whole default palette.
pub open spec fn resolved_palette(t: Option<Theme>) -> NormalColorsRgb {
    match t {
        Some(t) => match palette_of_theme(t) {
            Some(p) => p,
            None => default_palette_spec(),
        },
        None => default_palette_spec(),
    }
}

/// The built-in palette.
pub fn default_palette() -> (r: NormalColorsRgb)
    ensures
        r == default_palette_spec(),
{
    NormalColorsRgb {
        black: (0, 0, 0),
        red: (255, 0, 0),
        green: (0, 255, 0),
        yellow: (255, 255, 0),
        blue: (0, 0, 255),
        magenta: (255, 0, 255),
        cyan: (0, 255, 255),
        white: (255, 255, 255),
    }
}

/// Decodes all eight color strings of a theme; `None` if any one is malformed.
pub fn extract_normal_colors(theme: &Theme) -> (r: Option<NormalColorsRgb>)
    ensures
        r == palette_of_theme(*theme),
{
    let n = &theme.colors.normal;
    match (
        hex_to_rgb(n.black.as_str()),
        hex_to_rgb(n.red.as_str()),
        hex_to_rgb(n.green.as_str()),
        hex_to_rgb(n.yellow.as_str()),
    ) {
        (Some(black), Some(red), Some(green), Some(yellow)) => match (
            hex_to_rgb(n.blue.as_str()),
            hex_to_rgb(n.magenta.as_str()),
            hex_to_rgb(n.cyan.as_str()),
            hex_to_rgb(n.white.as_str()),
        ) {
            (Some(blue), Some(magenta), Some(cyan), Some(white)) => Some(
                NormalColorsRgb { black, red, green, yellow, blue, magenta, cyan, white },
            ),
            _ => None,
        },
        _ => None,
    }
}

/// The palette for an optional theme: the theme's own when all of it decodes,
/// otherwise the complete default palette (never a mix of the two).
pub fn palette_from_theme(theme: Option<&Theme>) -> (r: NormalColorsRgb)
    ensures
        r == resolved_palette(
            match theme {
                Some(t) => Some(*t),
                None => None,
            },
        ),
{
    match theme {
        Some(t) => match extract_normal_colors(t) {
            Some(p) => p,
            None => default_palette(),
        },
        None => default_palette(),
    }
}

} // verus!
