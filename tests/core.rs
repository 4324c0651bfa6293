use unfocol::color::{default_palette, extract_normal_colors, hex_to_rgb, palette_from_theme, Colors, NormalColors, NormalColorsRgb, Theme};
use unfocol::config::{Config, CurveType, TransitionConfig, DEFAULT_STEPS};
use unfocol::gradient::{gradient_color, lerp_rgb, GradientStops};
use unfocol::session::{display_color, stops_from_palette, STOP_SCALE};
use unfocol::theme::{parse_theme, resolve_theme};
use unfocol::timer::{clock_face, key_of, FocusTime, Key};
use unfocol::watcher::ThemeWatch;

fn running(start: u64, duration: u64) -> FocusTime {
    FocusTime { start, duration, quit: false, paused: false, paused_at: None }
}

const GOOD_THEME: &str = "[colors.normal]\nblack = \"#101010\"\nred = \"0xFF0011\"\ngreen = \"22ee22\"\nyellow = \"#ABCDEF\"\nblue = \"#0000aa\"\nmagenta = \"#aa00aa\"\ncyan = \"#00aaaa\"\nwhite = \"#fafafa\"\n";

#[test]
fn new_session_is_paused_at_zero() {
    let s = FocusTime::new(60_000, 1_000);
    assert!(s.paused);
    assert_eq!(s.paused_at, Some(0));
    assert_eq!(s.elapsed(50_000), 0);
    assert_eq!(s.remaining(50_000), 60_000);
}

#[test]
fn pause_then_resume_after_five_seconds_keeps_elapsed() {
    let mut s = running(0, 60_000);
    s.toggle_paused(s.elapsed(0), 0);
    assert!(s.paused);
    assert_eq!(s.paused_at, Some(0));
    s.toggle_paused(s.elapsed(5_000), 5_000);
    assert!(!s.paused);
    assert_eq!(s.elapsed(5_000), 0);
    assert_eq!(s.elapsed(6_000), 1_000);
}

#[test]
fn pause_resume_cycles_lose_no_time() {
    let mut s = running(1_000, 60_000);
    let before = s.elapsed(8_000);
    for _ in 0..7 {
        let e = s.elapsed(8_000);
        s.toggle_paused(e, 8_000);
    }
    assert!(s.paused);
    assert_eq!(s.elapsed(8_000), before);
    assert_eq!(before, 7_000);
}

#[test]
fn remaining_floors_at_zero() {
    let s = running(0, 5_000);
    assert_eq!(s.remaining(3_000), 2_000);
    assert_eq!(s.remaining(5_000), 0);
    assert_eq!(s.remaining(9_000), 0);
}

#[test]
fn elapsed_is_zero_before_the_reference_reading() {
    let s = running(10_000, 5_000);
    assert_eq!(s.elapsed(2_000), 0);
}

#[test]
fn reset_pauses_with_nothing_elapsed() {
    let mut s = running(0, 30_000);
    s.quit = true;
    s.reset(12_000);
    assert!(s.paused);
    assert!(!s.quit);
    assert_eq!(s.start, 12_000);
    assert_eq!(s.paused_at, Some(0));
    assert_eq!(s.elapsed(20_000), 0);
    assert_eq!(s.duration, 30_000);
}

#[test]
fn tick_restarts_after_the_duration() {
    let mut s = running(0, 5_000);
    assert_eq!(s.tick(4_000), 1_000);
    assert!(!s.paused);
    assert_eq!(s.tick(5_200), 0);
    assert!(s.paused);
    assert_eq!(s.elapsed(5_300), 0);
    assert_eq!(s.remaining(5_300), 5_000);
}

#[test]
fn keys_drive_the_session() {
    assert_eq!(key_of('q'), Key::Quit);
    assert_eq!(key_of(' '), Key::TogglePause);
    assert_eq!(key_of('r'), Key::Reset);
    assert_eq!(key_of('x'), Key::Other);
    let mut s = FocusTime::new(60_000, 0);
    s.handle_key(Key::TogglePause, 1_000);
    assert!(!s.paused);
    assert_eq!(s.start, 1_000);
    s.handle_key(Key::TogglePause, 4_000);
    assert_eq!(s.paused_at, Some(3_000));
    s.handle_key(Key::Other, 9_000);
    assert_eq!(s.elapsed(9_000), 3_000);
    s.handle_key(Key::Quit, 9_000);
    assert!(s.quit);
    s.handle_key(Key::Reset, 9_500);
    assert!(!s.quit);
    assert_eq!(s.elapsed(9_500), 0);
}

#[test]
fn clock_face_splits_minutes_and_seconds() {
    assert_eq!(clock_face(1_800_000), (30, 0));
    assert_eq!(clock_face(61_999), (1, 1));
    assert_eq!(clock_face(999), (0, 0));
}

#[test]
fn hex_with_prefixes_and_space() {
    assert_eq!(hex_to_rgb("#ff8800"), Some((255, 136, 0)));
    assert_eq!(hex_to_rgb("0xFF8800"), Some((255, 136, 0)));
    assert_eq!(hex_to_rgb("  00Ff10\n"), Some((0, 255, 16)));
}

#[test]
fn hex_rejects_malformed() {
    assert_eq!(hex_to_rgb("zzzzzz"), None);
    assert_eq!(hex_to_rgb("#fff"), None);
    assert_eq!(hex_to_rgb("#ff88001"), None);
    assert_eq!(hex_to_rgb("+f0000"), None);
    assert_eq!(hex_to_rgb(""), None);
    assert_eq!(hex_to_rgb("0x"), None);
}

fn theme_of(colors: [&str; 8]) -> Theme {
    Theme {
        colors: Colors {
            normal: NormalColors {
                black: colors[0].to_string(),
                red: colors[1].to_string(),
                green: colors[2].to_string(),
                yellow: colors[3].to_string(),
                blue: colors[4].to_string(),
                magenta: colors[5].to_string(),
                cyan: colors[6].to_string(),
                white: colors[7].to_string(),
            },
        },
    }
}

#[test]
fn default_palette_colors() {
    let p = default_palette();
    assert_eq!(p.black, (0, 0, 0));
    assert_eq!(p.red, (255, 0, 0));
    assert_eq!(p.green, (0, 255, 0));
    assert_eq!(p.yellow, (255, 255, 0));
    assert_eq!(p.blue, (0, 0, 255));
    assert_eq!(p.magenta, (255, 0, 255));
    assert_eq!(p.cyan, (0, 255, 255));
    assert_eq!(p.white, (255, 255, 255));
}

#[test]
fn extract_decodes_all_eight() {
    let t = theme_of(["#010203", "#040506", "#070809", "#0a0b0c", "#0d0e0f", "#101112", "#131415", "#161718"]);
    let p = extract_normal_colors(&t).unwrap();
    assert_eq!(p.black, (1, 2, 3));
    assert_eq!(p.white, (22, 23, 24));
    assert_eq!(p.cyan, (19, 20, 21));
}

#[test]
fn one_malformed_color_gives_whole_default_palette() {
    let t = theme_of(["#010203", "zzzzzz", "#070809", "#0a0b0c", "#0d0e0f", "#101112", "#131415", "#161718"]);
    assert_eq!(extract_normal_colors(&t), None);
    assert_eq!(palette_from_theme(Some(&t)), default_palette());
}

#[test]
fn missing_theme_gives_default_palette() {
    assert_eq!(resolve_theme(None), default_palette());
    assert_eq!(palette_from_theme(None), default_palette());
}

#[test]
fn theme_document_is_resolved() {
    let p = resolve_theme(Some(GOOD_THEME));
    let expected = NormalColorsRgb {
        black: (16, 16, 16),
        red: (255, 0, 17),
        green: (34, 238, 34),
        yellow: (171, 205, 239),
        blue: (0, 0, 170),
        magenta: (170, 0, 170),
        cyan: (0, 170, 170),
        white: (250, 250, 250),
    };
    assert_eq!(p, expected);
    let t = parse_theme(GOOD_THEME).unwrap();
    assert_eq!(t.colors.normal.red, "0xFF0011");
}

#[test]
fn malformed_document_gives_default_palette() {
    let bad_hex = GOOD_THEME.replace("0xFF0011", "zzzzzz");
    assert_eq!(resolve_theme(Some(&bad_hex)), default_palette());
    assert_eq!(resolve_theme(Some("this is = = not toml")), default_palette());
    let missing = GOOD_THEME.replace("white = \"#fafafa\"\n", "");
    assert!(parse_theme(&missing).is_none());
    assert_eq!(resolve_theme(Some(&missing)), default_palette());
    let not_string = GOOD_THEME.replace("\"#101010\"", "16");
    assert_eq!(resolve_theme(Some(&not_string)), default_palette());
}

fn default_stops() -> GradientStops {
    stops_from_palette(&default_palette())
}

#[test]
fn gradient_stops_of_palette() {
    let g = default_stops();
    assert_eq!(g.scale, STOP_SCALE);
    assert_eq!(g.stops, vec![(0, (0, 255, 0)), (3, (255, 255, 0)), (5, (255, 0, 0)), (6, (0, 0, 0))]);
}

#[test]
fn gradient_endpoints() {
    let g = default_stops();
    assert_eq!(gradient_color(0, 1_000, &g), (0, 255, 0));
    assert_eq!(gradient_color(1_000, 1_000, &g), (0, 0, 0));
    assert_eq!(gradient_color(5_000, 1_000, &g), (0, 0, 0));
    assert_eq!(gradient_color(7, 0, &g), (0, 0, 0));
}

#[test]
fn gradient_interpolates_and_truncates() {
    let g = default_stops();
    assert_eq!(gradient_color(500, 1_000, &g), (255, 255, 0));
    assert_eq!(gradient_color(250, 1_000, &g), (127, 255, 0));
    assert_eq!(gradient_color(4, 6, &g), (255, 127, 0));
    assert_eq!(gradient_color(5, 6, &g), (255, 0, 0));
    assert_eq!(gradient_color(11, 12, &g), (127, 0, 0));
}

#[test]
fn gradient_small_steps_make_small_changes() {
    let g = default_stops();
    let mut prev = gradient_color(0, 600, &g);
    for e in 1..=600u64 {
        let c = gradient_color(e, 600, &g);
        for (a, b) in [(prev.0, c.0), (prev.1, c.1), (prev.2, c.2)] {
            assert!((a as i32 - b as i32).abs() <= 3);
        }
        prev = c;
    }
}

#[test]
fn gradient_falls_back_to_last_stop() {
    let g = GradientStops { scale: 6, stops: vec![(1, (1, 2, 3)), (2, (4, 5, 6))] };
    assert_eq!(gradient_color(0, 6, &g), (4, 5, 6));
    let single = GradientStops { scale: 6, stops: vec![(0, (9, 9, 9))] };
    assert_eq!(gradient_color(3, 6, &single), (9, 9, 9));
}

#[test]
fn display_color_cyan_while_paused() {
    let p = default_palette();
    let g = default_stops();
    let s = FocusTime::new(6_000, 0);
    assert_eq!(display_color(&s, 3_000, &p, &g), (0, 255, 255));
    let r = running(0, 6_000);
    assert_eq!(display_color(&r, 3_000, &p, &g), (255, 255, 0));
}

#[test]
fn debounce_fifty_ms_apart_reloads_once() {
    let mut w = ThemeWatch::new(0);
    assert!(w.on_change(1_000));
    assert!(!w.on_change(1_050));
    assert_eq!(w.last_reload, 1_000);
}

#[test]
fn debounce_three_hundred_ms_apart_reloads_twice() {
    let mut w = ThemeWatch::new(0);
    assert!(w.on_change(1_000));
    assert!(w.on_change(1_300));
    assert_eq!(w.last_reload, 1_300);
}

#[test]
fn debounce_window_boundary() {
    let mut w = ThemeWatch::new(0);
    assert!(!w.on_change(200));
    assert!(w.on_change(201));
    assert!(!w.on_change(100));
}

#[test]
fn config_defaults() {
    let c = Config::default();
    assert_eq!(c.colors.start, "#00ff00");
    assert_eq!(c.colors.mid, "#ffff00");
    assert_eq!(c.colors.end, "#ff0000");
    assert_eq!(c.colors.paused, "#00ffff");
    assert_eq!(c.transition.curve, CurveType::Linear);
    assert_eq!(TransitionConfig::default().steps, DEFAULT_STEPS);
}

#[test]
fn lerp_rgb_truncates_each_channel() {
    assert_eq!(lerp_rgb((0, 255, 10), (255, 0, 10), 1, 2), (127, 127, 10));
    assert_eq!(lerp_rgb((0, 0, 0), (200, 100, 50), 3, 4), (150, 75, 37));
    assert_eq!(lerp_rgb((9, 8, 7), (1, 2, 3), 0, 0), (9, 8, 7));
    assert_eq!(lerp_rgb((9, 8, 7), (1, 2, 3), 5, 5), (1, 2, 3));
}

#[test]
fn missing_colors_table_gives_default_palette() {
    assert_eq!(resolve_theme(Some("[colors]\nfoo = 1\n")), default_palette());
    assert!(parse_theme("[other.normal]\nblack = \"#000000\"\n").is_none());
}
