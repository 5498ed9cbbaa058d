use razer_battery_report::icon::{
    battery_color_role, battery_icon_svg, clamp_percent, fill_color, palette, render_battery_icon,
    render_svg, render_unknown_icon, unknown_icon_svg, ColorRole, IconSet, Theme,
};
use razer_battery_report::pixels::unpremultiply;
use razer_battery_report::raster::{rasterize, ICON_SIZE};
use razer_battery_report::text::replace_all;

fn square_svg(fill: &str) -> String {
    format!(
        "<svg xmlns=\"http://www.w3.org/2000/svg\" width=\"32\" height=\"32\" viewBox=\"0 0 32 32\"><rect x=\"0\" y=\"0\" width=\"32\" height=\"32\" fill=\"{}\"/></svg>",
        fill
    )
}

fn test_icons() -> IconSet {
    let levels: Vec<String> = (0..=100).map(|n| format!("L{}:__FG__", n)).collect();
    IconSet::new(levels, "U:__FG__".to_string()).unwrap()
}

#[test]
fn palettes_hold_the_theme_colors() {
    let d = palette(Theme::Dark);
    assert_eq!(d.normal, "#F2F2F2");
    assert_eq!(d.low, "#FFC400");
    assert_eq!(d.critical, "#FF453A");
    assert_eq!(d.charging, "#34C759");
    assert_eq!(d.unknown, "#C8CDD2");
    let l = palette(Theme::Light);
    assert_eq!(l.normal, "#202124");
    assert_eq!(l.low, "#9A6400");
    assert_eq!(l.critical, "#C62828");
    assert_eq!(l.charging, "#1B7A34");
    assert_eq!(l.unknown, "#5F6368");
    assert_eq!(l.color(ColorRole::Low), "#9A6400");
}

#[test]
fn charging_color_differs_from_discharging_colors() {
    for theme in [Theme::Dark, Theme::Light] {
        let p = palette(theme);
        assert_ne!(p.charging, p.normal);
        assert_ne!(p.charging, p.low);
        assert_ne!(p.charging, p.critical);
    }
}

#[test]
fn color_role_follows_thresholds() {
    assert_eq!(battery_color_role(3, false, 5, 15), ColorRole::Critical);
    assert_eq!(battery_color_role(5, false, 5, 15), ColorRole::Critical);
    assert_eq!(battery_color_role(6, false, 5, 15), ColorRole::Low);
    assert_eq!(battery_color_role(15, false, 5, 15), ColorRole::Low);
    assert_eq!(battery_color_role(16, false, 5, 15), ColorRole::Normal);
    assert_eq!(battery_color_role(100, false, 5, 15), ColorRole::Normal);
    assert_eq!(battery_color_role(3, true, 5, 15), ColorRole::Charging);
    assert_eq!(battery_color_role(-1, true, 5, 15), ColorRole::Unknown);
    assert_eq!(battery_color_role(-1, false, 5, 15), ColorRole::Unknown);
}

#[test]
fn shown_percent_is_clamped() {
    assert_eq!(clamp_percent(-5), 0);
    assert_eq!(clamp_percent(0), 0);
    assert_eq!(clamp_percent(67), 67);
    assert_eq!(clamp_percent(100), 100);
    assert_eq!(clamp_percent(150), 100);
}

#[test]
fn icon_set_needs_one_template_per_percent() {
    assert!(IconSet::new(vec!["a".to_string(); 100], String::new()).is_none());
    assert!(IconSet::new(vec!["a".to_string(); 102], String::new()).is_none());
    assert!(IconSet::new(vec!["a".to_string(); 101], String::new()).is_some());
}

#[test]
fn replace_all_replaces_left_to_right() {
    assert_eq!(replace_all("a__FG__b__FG__", "__FG__", "#fff"), "a#fffb#fff");
    assert_eq!(replace_all("no token here", "__FG__", "x"), "no token here");
    assert_eq!(replace_all("aaa", "aa", "b"), "ba");
    assert_eq!(replace_all("", "x", "y"), "");
    assert_eq!(replace_all("héllo__FG__", "__FG__", "é"), "héllo\u{e9}");
}

#[test]
fn fill_color_sets_the_token() {
    assert_eq!(fill_color("fill=\"__FG__\"", "#123456"), "fill=\"#123456\"");
}

#[test]
fn battery_icon_uses_level_template_and_role_color() {
    let icons = test_icons();
    assert_eq!(battery_icon_svg(&icons, 67, false, 5, 15, Theme::Dark), "L67:#F2F2F2");
    assert_eq!(battery_icon_svg(&icons, 12, false, 5, 15, Theme::Dark), "L12:#FFC400");
    assert_eq!(battery_icon_svg(&icons, 4, false, 5, 15, Theme::Light), "L4:#C62828");
    assert_eq!(battery_icon_svg(&icons, 4, true, 5, 15, Theme::Light), "L4:#1B7A34");
    assert_eq!(battery_icon_svg(&icons, 0, false, 5, 15, Theme::Dark), "L0:#FF453A");
    assert_eq!(battery_icon_svg(&icons, 100, false, 5, 15, Theme::Dark), "L100:#F2F2F2");
    assert_eq!(battery_icon_svg(&icons, 250, false, 5, 15, Theme::Dark), "L100:#F2F2F2");
    assert_eq!(battery_icon_svg(&icons, -1, true, 5, 15, Theme::Dark), "U:#C8CDD2");
    assert_eq!(unknown_icon_svg(&icons, Theme::Light), "U:#5F6368");
}

#[test]
fn rasterized_square_has_the_fill_color() {
    let icon = rasterize(&square_svg("#F2F2F2")).unwrap();
    assert_eq!(icon.width, ICON_SIZE);
    assert_eq!(icon.height, 32);
    assert_eq!(icon.rgba.len(), 32 * 32 * 4);
    for px in icon.rgba.chunks_exact(4) {
        assert_eq!(px, &[242, 242, 242, 255]);
    }
}

#[test]
fn rasterize_reports_unparsable_svg() {
    let err = rasterize("this is not svg").err().unwrap();
    assert!(err.starts_with("Failed to parse SVG icon: "));
    assert!(err.len() > "Failed to parse SVG icon: ".len());
}

#[test]
fn render_svg_fills_the_token_before_rasterizing() {
    let icon = render_svg(&square_svg("__FG__"), "#34C759").unwrap();
    assert_eq!(&icon.rgba[0..4], &[0x34, 0xC7, 0x59, 255]);
    let last = icon.rgba.len() - 4;
    assert_eq!(&icon.rgba[last..], &[0x34, 0xC7, 0x59, 255]);
}

#[test]
fn render_battery_icon_draws_with_role_color() {
    let levels: Vec<String> = (0..=100).map(|_| square_svg("__FG__")).collect();
    let icons = IconSet::new(levels, square_svg("__FG__")).unwrap();
    let icon = render_battery_icon(&icons, 10, false, 5, 15, Theme::Dark).unwrap();
    assert_eq!(&icon.rgba[0..4], &[0xFF, 0xC4, 0x00, 255]);
    let icon = render_unknown_icon(&icons, Theme::Dark).unwrap();
    assert_eq!(&icon.rgba[0..4], &[0xC8, 0xCD, 0xD2, 255]);
}

#[test]
fn unpremultiply_exact_values() {
    assert_eq!(unpremultiply(&[128, 64, 0, 128]), vec![255, 128, 0, 128]);
    assert_eq!(unpremultiply(&[10, 20, 30, 0]), vec![0, 0, 0, 0]);
    assert_eq!(unpremultiply(&[200, 0, 0, 100]), vec![255, 0, 0, 100]);
    assert_eq!(unpremultiply(&[50, 25, 1, 100]), vec![128, 64, 3, 100]);
    assert_eq!(unpremultiply(&[1, 2, 3, 4, 9, 9]), vec![64, 128, 191, 4]);
    assert_eq!(unpremultiply(&[]), Vec::<u8>::new());
}

#[test]
fn unpremultiply_keeps_opaque_pixels() {
    let data: Vec<u8> = vec![0, 1, 127, 255, 254, 200, 3, 255];
    assert_eq!(unpremultiply(&data), data);
}

#[test]
fn unpremultiply_keeps_alpha() {
    let data: Vec<u8> = vec![5, 6, 7, 8, 0, 0, 0, 0, 30, 30, 30, 31];
    let out = unpremultiply(&data);
    assert_eq!(out[3], 8);
    assert_eq!(out[7], 0);
    assert_eq!(out[11], 31);
}

#[test]
fn render_battery_icon_fails_on_unparsable_template() {
    let levels: Vec<String> = (0..=100).map(|_| "not svg __FG__".to_string()).collect();
    let icons = IconSet::new(levels, square_svg("__FG__")).unwrap();
    let err = render_battery_icon(&icons, 50, false, 5, 15, Theme::Dark).err().unwrap();
    assert!(err.starts_with("Failed to parse SVG icon: "));
    assert!(render_battery_icon(&icons, -1, false, 5, 15, Theme::Dark).is_ok());
}
