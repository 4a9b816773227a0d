use bookos_store::process::Output;
use bookos_store::theme::{
    detect_system_theme, named_scheme, portal_color_scheme, ThemeSource, ThemeStep,
};

fn wrote(text: &str) -> Option<Output> {
    Some(Output { code: Some(0), stdout: text.as_bytes().to_vec(), stderr: Vec::new() })
}

fn found(t: &str) -> ThemeStep {
    ThemeStep::Found(t.to_string())
}

#[test]
fn the_portal_answers_with_a_number() {
    assert_eq!(portal_color_scheme("(<uint32 1>,)\n"), Some("dark".to_string()));
    assert_eq!(portal_color_scheme("(<uint32 2>,)\n"), Some("light".to_string()));
    assert_eq!(portal_color_scheme("(<uint32 0>,)\n"), None);
    assert_eq!(portal_color_scheme("(<uint32 uint32 1>,)"), None);
    assert_eq!(portal_color_scheme(""), None);
}

#[test]
fn a_scheme_tells_its_theme_by_name() {
    assert_eq!(named_scheme("breezedark"), Some("dark".to_string()));
    assert_eq!(named_scheme("'prefer-light'"), Some("light".to_string()));
    assert_eq!(named_scheme("light on dark"), Some("dark".to_string()));
    assert_eq!(named_scheme("breeze"), None);
}

#[test]
fn the_sources_are_asked_in_turn() {
    let first = detect_system_theme();
    assert_eq!(first, ThemeSource::Portal);
    assert_eq!(first.command().program, "gdbus");
    assert_eq!(first.command().args.len(), 10);
    assert_eq!(first.asked(&wrote("(<uint32 2>,)")), found("light"));
    assert_eq!(first.asked(&None), ThemeStep::Ask(ThemeSource::Kde6));
    assert_eq!(ThemeSource::Kde6.command().program, "kreadconfig6");
    assert_eq!(ThemeSource::Kde6.asked(&wrote("")), ThemeStep::Ask(ThemeSource::Kde5));
    assert_eq!(ThemeSource::Kde5.asked(&wrote("BreezeDARK\n")), found("dark"));
    assert_eq!(ThemeSource::Kde5.asked(&None), ThemeStep::Ask(ThemeSource::Gnome));
    assert_eq!(
        ThemeSource::Gnome.command().args,
        vec!["get", "org.gnome.desktop.interface", "color-scheme"]
    );
    assert_eq!(ThemeSource::Gnome.asked(&wrote("'default'")), found("auto"));
}
