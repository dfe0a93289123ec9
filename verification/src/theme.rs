//! Light and dark.

use vstd::prelude::*;

use crate::text::same_text;

verus! {

/// Light/Dark/System appearance; `System` follows the desktop theme.
#[derive(Clone, Copy, PartialEq, Eq, Structural, Debug)]
pub enum ThemePreference {
    Dark,
    Light,
    System,
}

/// The two appearances.
#[derive(Clone, Copy, PartialEq, Eq, Structural, Debug)]
pub enum Theme {
    Dark,
    Light,
}

/// Grey levels of text: at rest, on a button, and on one that is pointed at.
#[derive(Clone, Copy, PartialEq, Eq, Structural, Debug)]
pub struct TextLevels {
    pub body: u8,
    pub button: u8,
    pub extreme: u8,
}

/// High-contrast text: near-white on dark and near-black on light, and all the way
/// there where the pointer is.
pub fn text_levels(theme: Theme) -> (levels: TextLevels)
    ensures
        levels == (match theme {
            Theme::Dark => TextLevels { body: 225, button: 235, extreme: 255 },
            Theme::Light => TextLevels { body: 30, button: 20, extreme: 0 },
        }),
{
    match theme {
        Theme::Dark => TextLevels { body: 225, button: 235, extreme: 255 },
        Theme::Light => TextLevels { body: 30, button: 20, extreme: 0 },
    }
}

/// The name a preference is saved under.
pub open spec fn saved_name(pref: ThemePreference) -> Seq<char> {
    match pref {
        ThemePreference::Dark => "dark"@,
        ThemePreference::Light => "light"@,
        ThemePreference::System => "system"@,
    }
}

/// The preference saved under a name; anything unknown follows the desktop.
pub open spec fn named(name: Seq<char>) -> ThemePreference {
    if name == "dark"@ {
        ThemePreference::Dark
    } else if name == "light"@ {
        ThemePreference::Light
    } else {
        ThemePreference::System
    }
}

/// Stable string for persisting the theme preference.
pub fn theme_pref_name(pref: ThemePreference) -> (name: &'static str)
    ensures
        name@ == saved_name(pref),
{
    match pref {
        ThemePreference::Dark => "dark",
        ThemePreference::Light => "light",
        ThemePreference::System => "system",
    }
}

/// The preference saved under `name`.
pub fn theme_pref_from_name(name: &str) -> (pref: ThemePreference)
    ensures
        pref == named(name@),
{
    if same_text(name, "dark") {
        ThemePreference::Dark
    } else if same_text(name, "light") {
        ThemePreference::Light
    } else {
        ThemePreference::System
    }
}

/// Label shown in the Settings theme dropdown.
pub fn theme_pref_label(pref: ThemePreference) -> (label: &'static str)
    ensures
        label@ == (match pref {
            ThemePreference::Dark => "Dark"@,
            ThemePreference::Light => "Light"@,
            ThemePreference::System => "Match desktop"@,
        }),
{
    match pref {
        ThemePreference::Dark => "Dark",
        ThemePreference::Light => "Light",
        ThemePreference::System => "Match desktop",
    }
}

/// A saved preference comes back.
pub proof fn law_saved_theme_comes_back(pref: ThemePreference)
    ensures
        named(saved_name(pref)) == pref,
{
    reveal_strlit("dark");
    reveal_strlit("light");
    reveal_strlit("system");
    assert("dark"@.len() == 4 && "light"@.len() == 5 && "system"@.len() == 6);
}

/// Only the two names of an appearance choose it; any other follows the desktop.
pub proof fn law_unknown_theme_follows_the_desktop(name: Seq<char>)
    ensures
        named(name) is Dark <==> name == "dark"@,
        named(name) is Light <==> name == "light"@,
        named(name) is System <==> name != "dark"@ && name != "light"@,
{
    reveal_strlit("dark");
    reveal_strlit("light");
    assert("dark"@.len() != "light"@.len());
}

} // verus!
