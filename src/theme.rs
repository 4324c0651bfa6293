//! Reading a theme document and resolving it to a palette.
//!
//! The document is TOML; the `toml` crate parses it, and this module walks the
//! parsed tables down to `colors.normal`.
use vstd::prelude::*;
use crate::color::{
    default_palette_spec, palette_from_theme, palette_of_theme, rgb_of, Colors, NormalColors,
    NormalColorsRgb, Theme,
};

verus! {

#[verifier::external_type_specification]
#[verifier::external_body]
pub struct ExTomlValue(toml::Value);

#[verifier::external_type_specification]
#[verifier::external_body]
#[verifier::reject_recursive_types(K)]
#[verifier::reject_recursive_types(V)]
pub struct ExTomlMap<K, V>(toml::map::Map<K, V>);

/// The table that a TOML document parses to, if it is valid TOML.
pub uninterp spec fn parsed_table(text: Seq<char>) -> Option<toml::Table>;

/// The entries of a TOML table, by key.
pub uninterp spec fn table_entries(t: toml::Table) -> Map<Seq<char>, toml::Value>;

/// A TOML value as a table, if it is one.
pub uninterp spec fn value_table(v: toml::Value) -> Option<toml::Table>;

/// A TOML value as a string, if it is one.
pub uninterp spec fn value_str(v: toml::Value) -> Option<Seq<char>>;

/// Relies on `<toml::Table as FromStr>::from_str`: parses a TOML document,
/// `None` when it is not valid TOML; the outcome depends on the text alone.
#[verifier::external_body]
fn parse_table(text: &str) -> (r: Option<toml::Table>)
    ensures
        r == parsed_table(text@),
{
    text.parse::<toml::Table>().ok()
}

/// Relies on `toml::map::Map::get`: the value stored under `key`, if any.
#[verifier::external_body]
fn table_get<'a>(t: &'a toml::Table, key: &str) -> (r: Option<&'a toml::Value>)
    ensures
        r is Some <==> table_entries(*t).contains_key(key@),
        r is Some ==> *r->0 == table_entries(*t)[key@],
{
    t.get(key)
}

/// Relies on `toml::Value::as_table`: the value as a table, if it is one.
#[verifier::external_body]
fn value_as_table<'a>(v: &'a toml::Value) -> (r: Option<&'a toml::Table>)
    ensures
        r is Some <==> value_table(*v) is Some,
        r is Some ==> *r->0 == value_table(*v)->0,
{
    v.as_table()
}

/// Relies on `toml::Value::as_str`: the value as a string, if it is one.
#[verifier::external_body]
fn value_as_string(v: &toml::Value) -> (r: Option<String>)
    ensures
        r is Some <==> value_str(*v) is Some,
        r is Some ==> r->0@ == value_str(*v)->0,
{
    v.as_str().map(|s| s.to_string())
}

/// The table stored under `key` in `t`, if there is one.
pub open spec fn entry_table(t: toml::Table, key: Seq<char>) -> Option<toml::Table> {
    if table_entries(t).contains_key(key) {
        value_table(table_entries(t)[key])
    } else {
        None
    }
}

/// The string stored under `key` in `t`, if there is one.
pub open spec fn entry_str(t: toml::Table, key: Seq<char>) -> Option<Seq<char>> {
    if table_entries(t).contains_key(key) {
        value_str(table_entries(t)[key])
    } else {
        None
    }
}

/// The `colors.normal` table of a document, if it has one.
pub open spec fn normal_table(text: Seq<char>) -> Option<toml::Table> {
    match parsed_table(text) {
        Some(doc) => match entry_table(doc, "colors"@) {
            Some(colors) => entry_table(colors, "normal"@),
            None => None,
        },
        None => None,
    }
}

/// The eight color strings of a document, black, red, green, yellow, blue,
/// magenta, cyan and white in that order: present only when the document is
/// TOML and its `colors.normal` table holds all eight as strings.
pub open spec fn theme_strings(text: Seq<char>) -> Option<Seq<Seq<char>>> {
    match normal_table(text) {
        Some(n) => if entry_str(n, "black"@) is Some && entry_str(n, "red"@) is Some && entry_str(
            n,
            "green"@,
        ) is Some && entry_str(n, "yellow"@) is Some && entry_str(n, "blue"@) is Some
            && entry_str(n, "magenta"@) is Some && entry_str(n, "cyan"@) is Some && entry_str(
            n,
            "white"@,
        ) is Some {
            Some(
                seq![
                    entry_str(n, "black"@)->0,
                    entry_str(n, "red"@)->0,
                    entry_str(n, "green"@)->0,
                    entry_str(n, "yellow"@)->0,
                    entry_str(n, "blue"@)->0,
                    entry_str(n, "magenta"@)->0,
                    entry_str(n, "cyan"@)->0,
                    entry_str(n, "white"@)->0,
                ],
            )
        } else {
            None
        },
        None => None,
    }
}

/// The eight color strings of a theme, in the order of `theme_strings`.
pub open spec fn strings_of(t: Theme) -> Seq<Seq<char>> {
    let n = t.colors.normal;
    seq![n.black@, n.red@, n.green@, n.yellow@, n.blue@, n.magenta@, n.cyan@, n.white@]
}

/// The palette of eight color strings, if all of them decode.
pub open spec fn palette_of_strings(f: Seq<Seq<char>>) -> Option<NormalColorsRgb> {
    if f.len() == 8 && rgb_of(f[0]) is Some && rgb_of(f[1]) is Some && rgb_of(f[2]) is Some
        && rgb_of(f[3]) is Some && rgb_of(f[4]) is Some && rgb_of(f[5]) is Some && rgb_of(
        f[6],
    ) is Some && rgb_of(f[7]) is Some {
        Some(
            NormalColorsRgb {
                black: rgb_of(f[0])->0,
                red: rgb_of(f[1])->0,
                green: rgb_of(f[2])->0,
                yellow: rgb_of(f[3])->0,
                blue: rgb_of(f[4])->0,
                magenta: rgb_of(f[5])->0,
                cyan: rgb_of(f[6])->0,
                white: rgb_of(f[7])->0,
            },
        )
    } else {
        None
    }
}

/// The palette that a theme document resolves to: its own eight colors when
/// it holds all of them and all decode, else the whole default palette.
pub open spec fn palette_of_text(text: Seq<char>) -> NormalColorsRgb {
    match theme_strings(text) {
        Some(f) => match palette_of_strings(f) {
            Some(p) => p,
            None => default_palette_spec(),
        },
        None => default_palette_spec(),
    }
}

proof fn lemma_palette_of_theme_strings(t: Theme)
    ensures
        palette_of_theme(t) == palette_of_strings(strings_of(t)),
{
    let f = strings_of(t);
    assert(f.len() == 8);
    assert(f[0] == t.colors.normal.black@ && f[1] == t.colors.normal.red@ && f[2]
        == t.colors.normal.green@ && f[3] == t.colors.normal.yellow@ && f[4]
        == t.colors.normal.blue@ && f[5] == t.colors.normal.magenta@ && f[6]
        == t.colors.normal.cyan@ && f[7] == t.colors.normal.white@);
}

/// The string stored under `key` in `t`.
fn string_entry(t: &toml::Table, key: &str) -> (r: Option<String>)
    ensures
        r is Some <==> entry_str(*t, key@) is Some,
        r is Some ==> r->0@ == entry_str(*t, key@)->0,
{
    match table_get(t, key) {
        Some(v) => value_as_string(v),
        None => None,
    }
}

/// The table stored under `key` in `t`.
fn table_entry<'a>(t: &'a toml::Table, key: &str) -> (r: Option<&'a toml::Table>)
    ensures
        r is Some <==> entry_table(*t, key@) is Some,
        r is Some ==> *r->0 == entry_table(*t, key@)->0,
{
    match table_get(t, key) {
        Some(v) => value_as_table(v),
        None => None,
    }
}

/// Reads the eight color strings of `[colors.normal]` from a theme document.
/// `None` exactly when the text is not TOML, or a table or one of the eight
/// strings is missing; otherwise each field is the string found under its name.
pub fn parse_theme(text: &str) -> (r: Option<Theme>)
    ensures
        r is Some <==> theme_strings(text@) is Some,
        r is Some ==> strings_of(r->0) == theme_strings(text@)->0,
{
    let doc = parse_table(text)?;
    let colors = table_entry(&doc, "colors")?;
    let normal = table_entry(colors, "normal")?;
    let black = string_entry(normal, "black")?;
    let red = string_entry(normal, "red")?;
    let green = string_entry(normal, "green")?;
    let yellow = string_entry(normal, "yellow")?;
    let blue = string_entry(normal, "blue")?;
    let magenta = string_entry(normal, "magenta")?;
    let cyan = string_entry(normal, "cyan")?;
    let white = string_entry(normal, "white")?;
    let t = Theme {
        colors: Colors {
            normal: NormalColors { black, red, green, yellow, blue, magenta, cyan, white },
        },
    };
    assert(strings_of(t) =~= theme_strings(text@)->0);
    Some(t)
}

/// Resolves the palette from the theme file's text, `None` when the file could
/// not be read. Any failure, from reading to a single malformed color, gives
/// the whole default palette; otherwise every color comes from the theme.
pub fn resolve_theme(text: Option<&str>) -> (r: NormalColorsRgb)
    ensures
        text is None ==> r == default_palette_spec(),
        text matches Some(s) ==> r == palette_of_text(s@),
{
    match text {
        Some(s) => {
            let theme = parse_theme(s);
            match &theme {
                Some(t) => {
                    proof {
                        lemma_palette_of_theme_strings(*t);
                    }
                    palette_from_theme(Some(t))
                },
                None => palette_from_theme(None),
            }
        },
        None => palette_from_theme(None),
    }
}

/// A document that is not TOML, lacks the `colors.normal` table, or lacks one
/// of the eight colors as a string resolves to exactly the default palette.
pub proof fn lemma_incomplete_document_gives_defaults(text: Seq<char>)
    requires
        theme_strings(text) is None,
    ensures
        palette_of_text(text) == default_palette_spec(),
{
}

/// A document whose eight colors are all present but one of them is malformed
/// resolves to the whole default palette, not to a mix of its own colors and
/// the defaults.
pub proof fn lemma_malformed_color_gives_defaults(text: Seq<char>, i: int)
    requires
        theme_strings(text) is Some,
        0 <= i < 8,
        rgb_of(theme_strings(text)->0[i]) is None,
    ensures
        palette_of_text(text) == default_palette_spec(),
{
}

/// Resolution is all or nothing: the palette is either the default one or
/// each of its eight colors is decoded from the document's own string for it.
pub proof fn lemma_resolution_all_or_nothing(text: Seq<char>)
    ensures
        palette_of_text(text) == default_palette_spec() || ({
            let f = theme_strings(text)->0;
            let p = palette_of_text(text);
            &&& theme_strings(text) is Some
            &&& rgb_of(f[0]) == Some(p.black)
            &&& rgb_of(f[1]) == Some(p.red)
            &&& rgb_of(f[2]) == Some(p.green)
            &&& rgb_of(f[3]) == Some(p.yellow)
            &&& rgb_of(f[4]) == Some(p.blue)
            &&& rgb_of(f[5]) == Some(p.magenta)
            &&& rgb_of(f[6]) == Some(p.cyan)
            &&& rgb_of(f[7]) == Some(p.white)
        }),
{
}

/// A document with all eight colors present and well formed resolves to
/// exactly those colors.
pub proof fn lemma_valid_document_gives_its_colors(text: Seq<char>)
    requires
        theme_strings(text) is Some,
        forall|i: int| 0 <= i < 8 ==> rgb_of(#[trigger] theme_strings(text)->0[i]) is Some,
    ensures
        ({
            let f = theme_strings(text)->0;
            let p = palette_of_text(text);
            &&& Some(p.black) == rgb_of(f[0])
            &&& Some(p.red) == rgb_of(f[1])
            &&& Some(p.green) == rgb_of(f[2])
            &&& Some(p.yellow) == rgb_of(f[3])
            &&& Some(p.blue) == rgb_of(f[4])
            &&& Some(p.magenta) == rgb_of(f[5])
            &&& Some(p.cyan) == rgb_of(f[6])
            &&& Some(p.white) == rgb_of(f[7])
        }),
{
    let f = theme_strings(text)->0;
    assert(rgb_of(f[0]) is Some && rgb_of(f[1]) is Some && rgb_of(f[2]) is Some && rgb_of(f[3]) is Some);
    assert(rgb_of(f[4]) is Some && rgb_of(f[5]) is Some && rgb_of(f[6]) is Some && rgb_of(f[7]) is Some);
}

/// No text at all, as when the file cannot be read, resolves to exactly the
/// default palette.
pub proof fn lemma_missing_theme_gives_defaults()
    ensures
        crate::color::resolved_palette(None) == default_palette_spec(),
{
}

} // verus!
