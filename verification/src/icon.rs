//! Which icon the tray shows for a battery reading, and in which colour.

use vstd::prelude::*;
use crate::raster::{rasterize, svg_parses, is_parse_failure_message, RgbaIcon};
use crate::text::{replace_all, replaced};

verus! {

/// Which colour palette to render with, chosen to contrast the taskbar.
#[derive(Debug, Clone, Copy, PartialEq, Eq, Structural)]
pub enum Theme {
    /// Bright digits, for a dark taskbar.
    Dark,
    /// Dark digits, for a light taskbar.
    Light,
}

/// Foreground colours keyed to battery state, as `#RRGGBB` strings.
pub struct Palette {
    pub normal: &'static str,
    pub low: &'static str,
    pub critical: &'static str,
    pub charging: &'static str,
    pub unknown: &'static str,
}

/// The state of the battery that decides the icon's colour.
#[derive(Debug, Clone, Copy, PartialEq, Eq, Structural)]
pub enum ColorRole {
    Normal,
    Low,
    Critical,
    Charging,
    Unknown,
}

/// The colour strings of the palette for `theme`, in the order
/// normal, low, critical, charging, unknown.
pub open spec fn palette_colors(theme: Theme) -> Seq<Seq<char>> {
    match theme {
        Theme::Dark => seq!["#F2F2F2"@, "#FFC400"@, "#FF453A"@, "#34C759"@, "#C8CDD2"@],
        Theme::Light => seq!["#202124"@, "#9A6400"@, "#C62828"@, "#1B7A34"@, "#5F6368"@],
    }
}

/// Position of a role in `palette_colors`.
pub open spec fn role_index(role: ColorRole) -> int {
    match role {
        ColorRole::Normal => 0,
        ColorRole::Low => 1,
        ColorRole::Critical => 2,
        ColorRole::Charging => 3,
        ColorRole::Unknown => 4,
    }
}

/// The colour that `theme` gives to `role`.
pub open spec fn role_color(theme: Theme, role: ColorRole) -> Seq<char> {
    palette_colors(theme)[role_index(role)]
}

impl Palette {
    /// The colour this palette gives to `role`.
    pub open spec fn spec_color(&self, role: ColorRole) -> Seq<char> {
        match role {
            ColorRole::Normal => self.normal@,
            ColorRole::Low => self.low@,
            ColorRole::Critical => self.critical@,
            ColorRole::Charging => self.charging@,
            ColorRole::Unknown => self.unknown@,
        }
    }

    /// The colour this palette gives to `role`.
    pub fn color(&self, role: ColorRole) -> (c: &'static str)
        ensures
            c@ == self.spec_color(role),
    {
        match role {
            ColorRole::Normal => self.normal,
            ColorRole::Low => self.low,
            ColorRole::Critical => self.critical,
            ColorRole::Charging => self.charging,
            ColorRole::Unknown => self.unknown,
        }
    }
}

/// The palette for `theme`.
pub fn palette(theme: Theme) -> (p: Palette)
    ensures
        forall|role: ColorRole| #[trigger] p.spec_color(role) == role_color(theme, role),
{
    match theme {
        Theme::Dark => Palette {
            normal: "#F2F2F2",
            low: "#FFC400",
            critical: "#FF453A",
            charging: "#34C759",
            unknown: "#C8CDD2",
        },
        Theme::Light => Palette {
            normal: "#202124",
            low: "#9A6400",
            critical: "#C62828",
            charging: "#1B7A34",
            unknown: "#5F6368",
        },
    }
}

/// Law: in either theme the charging colour differs from the normal, low and
/// critical colours, so a charging icon is told apart from a discharging one
/// at the same level.
pub proof fn law_charging_color_distinct(theme: Theme)
    ensures
        role_color(theme, ColorRole::Charging) != role_color(theme, ColorRole::Normal),
        role_color(theme, ColorRole::Charging) != role_color(theme, ColorRole::Low),
        role_color(theme, ColorRole::Charging) != role_color(theme, ColorRole::Critical),
{
    reveal_strlit("#F2F2F2");
    reveal_strlit("#FFC400");
    reveal_strlit("#FF453A");
    reveal_strlit("#34C759");
    reveal_strlit("#202124");
    reveal_strlit("#9A6400");
    reveal_strlit("#C62828");
    reveal_strlit("#1B7A34");
    assert("#34C759"@[1] != "#F2F2F2"@[1]);
    assert("#34C759"@[1] != "#FFC400"@[1]);
    assert("#34C759"@[1] != "#FF453A"@[1]);
    assert("#1B7A34"@[1] != "#202124"@[1]);
    assert("#1B7A34"@[1] != "#9A6400"@[1]);
    assert("#1B7A34"@[1] != "#C62828"@[1]);
}

/// Law: the colour role of a reading. An unknown (negative) level gets the
/// placeholder colour whatever else holds; any known level gets the charging
/// colour while charging, whatever the level and thresholds; otherwise a level
/// at or below `critical` is critical, one above `critical` and at or below
/// `low` is low, and one above both is normal.
pub proof fn law_battery_role(level: int, is_charging: bool, critical: int, low: int)
    ensures
        level < 0 ==> battery_role(level, is_charging, critical, low) == ColorRole::Unknown,
        level >= 0 && is_charging ==> battery_role(level, is_charging, critical, low)
            == ColorRole::Charging,
        level >= 0 && !is_charging && level <= critical ==> battery_role(
            level,
            is_charging,
            critical,
            low,
        ) == ColorRole::Critical,
        level >= 0 && !is_charging && critical < level <= low ==> battery_role(
            level,
            is_charging,
            critical,
            low,
        ) == ColorRole::Low,
        level >= 0 && !is_charging && level > critical && level > low ==> battery_role(
            level,
            is_charging,
            critical,
            low,
        ) == ColorRole::Normal,
{
}

/// The token that the icon templates carry in place of their fill colour.
pub const COLOR_TOKEN: &'static str = "__FG__";

/// The colour role of a battery reading: the unknown placeholder for a
/// negative level, else the charging colour, else critical at or below
/// `critical`, low at or below `low`, normal above.
pub open spec fn battery_role(level: int, is_charging: bool, critical: int, low: int) -> ColorRole {
    if level < 0 {
        ColorRole::Unknown
    } else if is_charging {
        ColorRole::Charging
    } else if level <= critical {
        ColorRole::Critical
    } else if level <= low {
        ColorRole::Low
    } else {
        ColorRole::Normal
    }
}

/// The percentage shown for a non-negative level: the level clamped to 0..=100.
pub open spec fn shown_percent(level: int) -> int {
    if level < 0 {
        0
    } else if level > 100 {
        100
    } else {
        level
    }
}

/// The icon templates: one SVG document per percentage `0..=100`, and the
/// placeholder for an unknown level. Each carries `COLOR_TOKEN` where its
/// foreground colour goes.
pub struct IconSet {
    pub levels: Vec<String>,
    pub unknown: String,
}

impl IconSet {
    /// One template for every percentage from 0 to 100.
    pub open spec fn wf(&self) -> bool {
        self.levels@.len() == 101
    }

    /// The template for a battery `level`: the placeholder when it is
    /// negative, else the one of its clamped percentage.
    pub open spec fn template_for(&self, level: int) -> Seq<char> {
        if level < 0 {
            self.unknown@
        } else {
            self.levels@[shown_percent(level)]@
        }
    }

    /// The set of templates, or `None` unless there is exactly one for each
    /// percentage from 0 to 100.
    pub fn new(levels: Vec<String>, unknown: String) -> (r: Option<IconSet>)
        ensures
            r is Some <==> levels@.len() == 101,
            r matches Some(set) ==> set.wf() && set.levels@ == levels@ && set.unknown@ == unknown@,
    {
        if levels.len() == 101 {
            Some(IconSet { levels, unknown })
        } else {
            None
        }
    }
}

/// The SVG document of the tray icon for a battery reading: the template of
/// the level (the placeholder for a negative level) with its colour token set
/// to the colour that `theme` gives to the reading's role.
pub open spec fn battery_svg_text(
    icons: &IconSet,
    level: int,
    is_charging: bool,
    critical: int,
    low: int,
    theme: Theme,
) -> Seq<char> {
    replaced(
        icons.template_for(level),
        COLOR_TOKEN@,
        role_color(theme, battery_role(level, is_charging, critical, low)),
    )
}

/// The SVG document of the placeholder icon in `theme`.
pub open spec fn unknown_svg_text(icons: &IconSet, theme: Theme) -> Seq<char> {
    replaced(icons.unknown@, COLOR_TOKEN@, role_color(theme, ColorRole::Unknown))
}

/// The colour role of a battery reading (see `battery_role`).
pub fn battery_color_role(level: i32, is_charging: bool, critical: i32, low: i32) -> (r: ColorRole)
    ensures
        r == battery_role(level as int, is_charging, critical as int, low as int),
{
    if level < 0 {
        ColorRole::Unknown
    } else if is_charging {
        ColorRole::Charging
    } else if level <= critical {
        ColorRole::Critical
    } else if level <= low {
        ColorRole::Low
    } else {
        ColorRole::Normal
    }
}

/// The percentage shown for a battery `level` (see `shown_percent`).
pub fn clamp_percent(level: i32) -> (r: usize)
    ensures
        r == shown_percent(level as int),
        r <= 100,
{
    if level < 0 {
        0
    } else if level > 100 {
        100
    } else {
        level as usize
    }
}

/// The SVG document of `template` with its colour token set to `color`.
pub fn fill_color(template: &str, color: &str) -> (svg: String)
    ensures
        svg@ == replaced(template@, COLOR_TOKEN@, color@),
{
    proof {
        reveal_strlit("__FG__");
    }
    replace_all(template, COLOR_TOKEN, color)
}

/// The SVG document of the tray icon for a battery reading: the template of
/// the level (the placeholder for a negative level) with the colour that
/// `theme` gives to the reading's role.
pub fn battery_icon_svg(
    icons: &IconSet,
    level: i32,
    is_charging: bool,
    critical: i32,
    low: i32,
    theme: Theme,
) -> (svg: String)
    requires
        icons.wf(),
    ensures
        svg@ == battery_svg_text(icons, level as int, is_charging, critical as int, low as int, theme),
{
    let p = palette(theme);
    let role = battery_color_role(level, is_charging, critical, low);
    let color = p.color(role);
    if level < 0 {
        fill_color(icons.unknown.as_str(), color)
    } else {
        let lvl = clamp_percent(level);
        fill_color(icons.levels[lvl].as_str(), color)
    }
}

/// The SVG document of the placeholder icon for an unknown level in `theme`.
pub fn unknown_icon_svg(icons: &IconSet, theme: Theme) -> (svg: String)
    ensures
        svg@ == unknown_svg_text(icons, theme),
{
    let p = palette(theme);
    fill_color(icons.unknown.as_str(), p.color(ColorRole::Unknown))
}

/// Rasterise `template` with its colour token set to `color`.
pub fn render_svg(template: &str, color: &str) -> (r: Result<RgbaIcon, String>)
    ensures
        r is Ok <==> svg_parses(replaced(template@, COLOR_TOKEN@, color@)),
        r matches Ok(icon) ==> icon.is_rendered_from(replaced(template@, COLOR_TOKEN@, color@)),
        r matches Err(m) ==> is_parse_failure_message(m@),
{
    let svg = fill_color(template, color);
    rasterize(svg.as_str())
}

/// Render the tray icon for the given battery `level`.
///
/// A negative `level` (the unknown/not-yet-read sentinel) yields the searching
/// placeholder. Otherwise the level is clamped to `0..=100` and coloured by the
/// `critical` / `low` thresholds, or the charging colour, using the palette for
/// the given `theme`. The document rasterised is `battery_icon_svg`'s.
pub fn render_battery_icon(
    icons: &IconSet,
    level: i32,
    is_charging: bool,
    critical: i32,
    low: i32,
    theme: Theme,
) -> (r: Result<RgbaIcon, String>)
    requires
        icons.wf(),
    ensures
        r is Ok <==> svg_parses(
            battery_svg_text(icons, level as int, is_charging, critical as int, low as int, theme),
        ),
        r matches Ok(icon) ==> icon.is_rendered_from(
            battery_svg_text(icons, level as int, is_charging, critical as int, low as int, theme),
        ),
        r matches Err(m) ==> is_parse_failure_message(m@),
{
    let svg = battery_icon_svg(icons, level, is_charging, critical, low, theme);
    rasterize(svg.as_str())
}

/// The startup / unknown placeholder icon; the document rasterised is
/// `unknown_icon_svg`'s.
pub fn render_unknown_icon(icons: &IconSet, theme: Theme) -> (r: Result<RgbaIcon, String>)
    ensures
        r is Ok <==> svg_parses(unknown_svg_text(icons, theme)),
        r matches Ok(icon) ==> icon.is_rendered_from(unknown_svg_text(icons, theme)),
        r matches Err(m) ==> is_parse_failure_message(m@),
{
    let svg = unknown_icon_svg(icons, theme);
    rasterize(svg.as_str())
}

} // verus!
