//! The user's tray-icon theme preference: its stored form, and how it
//! resolves to a palette given the taskbar theme of the system.

use vstd::prelude::*;
use crate::icon::Theme;
use crate::text::str_eq;

verus! {

/// The user's tray-icon theme preference.
#[derive(Debug, Clone, Copy, PartialEq, Eq, Structural)]
pub enum ThemeSetting {
    /// Follow the Windows taskbar theme.
    Auto,
    /// Force the light-taskbar palette (dark digits).
    Light,
    /// Force the dark-taskbar palette (bright digits).
    Dark,
}

/// The stored form of a setting.
pub open spec fn setting_text(s: ThemeSetting) -> Seq<char> {
    match s {
        ThemeSetting::Auto => "auto"@,
        ThemeSetting::Light => "light"@,
        ThemeSetting::Dark => "dark"@,
    }
}

/// The setting a stored text stands for: `light` and `dark` stand for
/// themselves, anything else for `Auto`.
pub open spec fn setting_of_text(t: Seq<char>) -> ThemeSetting {
    if t == "light"@ {
        ThemeSetting::Light
    } else if t == "dark"@ {
        ThemeSetting::Dark
    } else {
        ThemeSetting::Auto
    }
}

/// The palette a setting resolves to when the taskbar theme of the system
/// is `system`.
pub open spec fn resolved(s: ThemeSetting, system: Theme) -> Theme {
    match s {
        ThemeSetting::Light => Theme::Light,
        ThemeSetting::Dark => Theme::Dark,
        ThemeSetting::Auto => system,
    }
}

/// The taskbar theme that the system's `SystemUsesLightTheme` value gives:
/// light for the value 1, dark for any other value or when it is unreadable.
pub open spec fn system_theme_of(light_value: Option<u32>) -> Theme {
    if light_value == Some(1u32) {
        Theme::Light
    } else {
        Theme::Dark
    }
}

impl ThemeSetting {
    /// The stored form of this setting.
    pub fn as_str(self) -> (t: &'static str)
        ensures
            t@ == setting_text(self),
    {
        match self {
            ThemeSetting::Auto => "auto",
            ThemeSetting::Light => "light",
            ThemeSetting::Dark => "dark",
        }
    }

    /// The setting that the stored text `s` stands for; unknown text gives `Auto`.
    pub fn parse(s: &str) -> (r: Self)
        ensures
            r == setting_of_text(s@),
    {
        if str_eq(s, "light") {
            ThemeSetting::Light
        } else if str_eq(s, "dark") {
            ThemeSetting::Dark
        } else {
            ThemeSetting::Auto
        }
    }

    /// Resolve to a concrete icon palette: the forced one, or for `Auto` the
    /// taskbar theme `system` detected on the machine.
    pub fn resolve(self, system: Theme) -> (t: Theme)
        ensures
            t == resolved(self, system),
    {
        match self {
            ThemeSetting::Light => Theme::Light,
            ThemeSetting::Dark => Theme::Dark,
            ThemeSetting::Auto => system,
        }
    }

    /// The palette this setting forces, or `None` for `Auto`, which follows
    /// the system's taskbar theme.
    pub fn forced_theme(self) -> (r: Option<Theme>)
        ensures
            r is None <==> self == ThemeSetting::Auto,
            r matches Some(t) ==> forall|system: Theme| #[trigger] resolved(self, system) == t,
    {
        match self {
            ThemeSetting::Light => Some(Theme::Light),
            ThemeSetting::Dark => Some(Theme::Dark),
            ThemeSetting::Auto => None,
        }
    }

    /// The persisted setting, given the stored text if it could be read:
    /// `Auto` when nothing could be read.
    pub fn from_stored(stored: Option<&str>) -> (r: Self)
        ensures
            r == match stored {
                Some(t) => setting_of_text(t@),
                None => ThemeSetting::Auto,
            },
    {
        match stored {
            Some(t) => ThemeSetting::parse(t),
            None => ThemeSetting::Auto,
        }
    }
}

/// The taskbar theme given the system's `SystemUsesLightTheme` value, if it
/// could be read (see `system_theme_of`).
pub fn system_theme(light_value: Option<u32>) -> (t: Theme)
    ensures
        t == system_theme_of(light_value),
{
    match light_value {
        Some(v) => if v == 1 {
            Theme::Light
        } else {
            Theme::Dark
        },
        None => Theme::Dark,
    }
}

/// Law: a setting saved in its stored form is read back as the same setting.
pub proof fn law_stored_round_trip(s: ThemeSetting)
    ensures
        setting_of_text(setting_text(s)) == s,
{
    reveal_strlit("auto");
    reveal_strlit("light");
    reveal_strlit("dark");
    assert("auto"@[0] != "light"@[0]);
    assert("auto"@[0] != "dark"@[0]);
    assert("light"@.len() != "dark"@.len());
}

/// Law: a forced setting resolves to its palette whatever the system theme.
pub proof fn law_forced_ignores_system(s: ThemeSetting, a: Theme, b: Theme)
    requires
        s != ThemeSetting::Auto,
    ensures
        resolved(s, a) == resolved(s, b),
{
}

} // verus!
