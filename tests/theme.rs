use std::collections::HashSet;

use crossterm::style::Color;
use lime::config::Config;
use lime::theme::{from_rgb, theme_at, Mode, ThemeManager, DEFAULT_NAME, THEME_COUNT};

#[test]
fn unique_theme_colors() {
    let mut seen_names = HashSet::new();
    let mut seen_backgrounds = HashSet::new();
    let mut seen_foregrounds = HashSet::new();
    let mut seen_accents = HashSet::new();

    for i in 0..THEME_COUNT {
        let theme = theme_at(i);
        assert!(seen_names.insert(theme.name), "Duplicate theme name found: {}", theme.name);
        assert!(seen_backgrounds.insert(theme.background), "Duplicate background color found for theme: {}", theme.name);
        assert!(seen_foregrounds.insert(theme.foreground), "Duplicate foreground color found for theme: {}", theme.name);
        assert!(seen_accents.insert(theme.accent), "Duplicate accent color found for theme: {}", theme.name);
    }
}

#[test]
fn rgb_splits_into_bytes() {
    assert_eq!(from_rgb(0x24273A), Color::Rgb { r: 0x24, g: 0x27, b: 0x3A });
    assert_eq!(from_rgb(0xFFFFFFFF), Color::Rgb { r: 0xFF, g: 0xFF, b: 0xFF });
}

#[test]
fn selector_starts_on_default_theme() {
    let m = ThemeManager::new();
    assert_eq!(m.current_theme().name, DEFAULT_NAME);
    assert_eq!(m.current_theme().name, "Catppuccin Macchiato");
    assert_eq!(m.current_theme().mode, Mode::Dark);
}

#[test]
fn full_cycle_returns_to_start() {
    let mut m = ThemeManager::new();
    let start = m.current_theme();
    m.next_theme();
    assert_ne!(m.current_theme().name, start.name);
    for _ in 1..THEME_COUNT {
        m.next_theme();
    }
    assert_eq!(m.current_theme(), start);
}

#[test]
fn next_wraps_after_last() {
    let mut m = ThemeManager::new();
    m.next_theme();
    assert_eq!(m.current_theme().name, "Catppuccin Mocha");
    m.next_theme();
    assert_eq!(m.current_theme().name, "Gruvbox (Dark)");
    assert_eq!(m.current_theme().mode, Mode::Dark);
    m.next_theme();
    assert_eq!(m.current_theme().mode, Mode::Light);
}

#[test]
fn default_config_names_default_theme() {
    assert_eq!(Config::new().theme, "Catppuccin Macchiato");
}
