use razer_battery_report::icon::Theme;
use razer_battery_report::settings::{system_theme, ThemeSetting};

#[test]
fn setting_stored_form() {
    assert_eq!(ThemeSetting::Auto.as_str(), "auto");
    assert_eq!(ThemeSetting::Light.as_str(), "light");
    assert_eq!(ThemeSetting::Dark.as_str(), "dark");
}

#[test]
fn setting_parse() {
    assert_eq!(ThemeSetting::parse("light"), ThemeSetting::Light);
    assert_eq!(ThemeSetting::parse("dark"), ThemeSetting::Dark);
    assert_eq!(ThemeSetting::parse("auto"), ThemeSetting::Auto);
    assert_eq!(ThemeSetting::parse("Light"), ThemeSetting::Auto);
    assert_eq!(ThemeSetting::parse(""), ThemeSetting::Auto);
    assert_eq!(ThemeSetting::parse("darker"), ThemeSetting::Auto);
}

#[test]
fn setting_round_trip() {
    for s in [ThemeSetting::Auto, ThemeSetting::Light, ThemeSetting::Dark] {
        assert_eq!(ThemeSetting::parse(s.as_str()), s);
    }
}

#[test]
fn setting_resolve() {
    assert_eq!(ThemeSetting::Light.resolve(Theme::Dark), Theme::Light);
    assert_eq!(ThemeSetting::Dark.resolve(Theme::Light), Theme::Dark);
    assert_eq!(ThemeSetting::Auto.resolve(Theme::Light), Theme::Light);
    assert_eq!(ThemeSetting::Auto.resolve(Theme::Dark), Theme::Dark);
}

#[test]
fn setting_loaded_defaults_to_auto() {
    assert_eq!(ThemeSetting::from_stored(None), ThemeSetting::Auto);
    assert_eq!(ThemeSetting::from_stored(Some("dark")), ThemeSetting::Dark);
    assert_eq!(ThemeSetting::from_stored(Some("bogus")), ThemeSetting::Auto);
}

#[test]
fn system_theme_from_registry_value() {
    assert_eq!(system_theme(Some(1)), Theme::Light);
    assert_eq!(system_theme(Some(0)), Theme::Dark);
    assert_eq!(system_theme(Some(2)), Theme::Dark);
    assert_eq!(system_theme(None), Theme::Dark);
}

#[test]
fn forced_theme_of_settings() {
    assert_eq!(ThemeSetting::Light.forced_theme(), Some(Theme::Light));
    assert_eq!(ThemeSetting::Dark.forced_theme(), Some(Theme::Dark));
    assert_eq!(ThemeSetting::Auto.forced_theme(), None);
}
