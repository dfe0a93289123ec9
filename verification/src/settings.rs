//! Settings that persist between sessions.

use vstd::prelude::*;

use crate::cookies::{chosen, CookieSource};
use crate::double::Double;
use crate::keybinds::{
    applied_all, ctrl_less_texts, saved_of, saved_texts, usual_binds, Keybinds, Stored,
};
use crate::theme::{
    law_saved_theme_comes_back, named, saved_name, theme_pref_from_name, theme_pref_name,
    ThemePreference,
};
use crate::ytdlp::opt;

verus! {

/// The bits of 1, the interface scale to start with.
pub const DEFAULT_UI_SCALE_BITS: u64 = 0x3ff0_0000_0000_0000;

/// The bits of 0.5, the volume to start with.
pub const DEFAULT_VOLUME_BITS: u64 = 0x3fe0_0000_0000_0000;

/// Settings that persist between sessions.
#[derive(Debug)]
pub struct Settings {
    pub ui_scale: Double,
    /// Light/Dark/System appearance; `System` follows the desktop theme.
    pub theme: ThemePreference,
    /// Where downloads are saved; `None` uses the managed cache directory.
    pub download_dir: Option<String>,
    /// Default folder the export save dialog opens in; `None` uses the system
    /// default. The dialog is always shown either way.
    pub output_dir: Option<String>,
    /// Clear the managed cache directory when the app closes.
    pub delete_cache_on_exit: bool,
    /// Reveal the saved file's folder in the system file manager after a save.
    pub open_dir_on_save: bool,
    /// When set, a saved MP4/MOV is restricted to broadly-playable codecs
    /// (H.264 8-bit + AAC/MP3), re-encoding anything else; when clear, the
    /// source codec/quality is kept (HEVC/AV1, 10-bit, HDR). On by default.
    pub compatibility_mode: bool,
    /// Output volume in `0.0..=1.0`, applied to audio playback.
    pub volume: Double,
    /// Configurable shortcuts for clip + playback actions.
    pub keybinds: Keybinds,
    /// Where fetch and download take sign-in cookies from; `None` sends none.
    pub cookies: Option<CookieSource>,
}

/// What was stored of the settings, each where it could be read.
#[derive(Debug)]
pub struct StoredSettings {
    pub ui_scale: Option<Double>,
    pub theme: Option<String>,
    pub download_dir: Option<String>,
    pub output_dir: Option<String>,
    pub delete_cache_on_exit: Option<bool>,
    pub open_dir_on_save: Option<bool>,
    pub compatibility_mode: Option<bool>,
    pub volume: Option<Double>,
    pub keybinds: Stored,
    pub cookies: Option<CookieSource>,
}

/// A stored value, or what it is without one.
pub open spec fn stored_or<T>(stored: Option<T>, usual: T) -> T {
    match stored {
        Some(value) => value,
        None => usual,
    }
}

impl Settings {
    /// The settings to start with.
    pub fn new() -> (settings: Settings)
        ensures
            settings.ui_scale == (Double { bits: DEFAULT_UI_SCALE_BITS }),
            settings.theme == ThemePreference::System,
            settings.download_dir is None,
            settings.output_dir is None,
            !settings.delete_cache_on_exit,
            !settings.open_dir_on_save,
            settings.compatibility_mode,
            settings.volume == (Double { bits: DEFAULT_VOLUME_BITS }),
            settings.keybinds@ == usual_binds(),
            settings.cookies is None,
    {
        Settings {
            ui_scale: Double { bits: DEFAULT_UI_SCALE_BITS },
            theme: ThemePreference::System,
            download_dir: None,
            output_dir: None,
            delete_cache_on_exit: false,
            open_dir_on_save: false,
            compatibility_mode: true,
            volume: Double { bits: DEFAULT_VOLUME_BITS },
            keybinds: Keybinds::new(),
            cookies: None,
        }
    }

    /// Whether `self` is what `stored` loads as.
    pub open spec fn loaded_from(self, stored: StoredSettings) -> bool {
        &&& self.ui_scale == stored_or(
            stored.ui_scale,
            Double { bits: DEFAULT_UI_SCALE_BITS },
        )
        &&& self.theme == (match stored.theme {
            Some(name) => named(name@),
            None => ThemePreference::System,
        })
        &&& opt(self.download_dir) == opt(stored.download_dir)
        &&& opt(self.output_dir) == opt(stored.output_dir)
        &&& self.delete_cache_on_exit == stored_or(stored.delete_cache_on_exit, false)
        &&& self.open_dir_on_save == stored_or(stored.open_dir_on_save, false)
        &&& self.compatibility_mode == stored_or(stored.compatibility_mode, true)
        &&& self.volume == stored_or(stored.volume, Double { bits: DEFAULT_VOLUME_BITS })
        &&& self.keybinds@ == (match stored.keybinds {
            Stored::Binds(saved) => applied_all(usual_binds(), saved_texts(saved@)),
            Stored::CtrlLess(saved) => applied_all(usual_binds(), ctrl_less_texts(saved@)),
            Stored::Nothing => usual_binds(),
        })
        &&& chosen(self.cookies) == chosen(stored.cookies)
    }

    /// Whether `stored` is what `self` is saved as.
    pub open spec fn saved_as(self, stored: StoredSettings) -> bool {
        &&& stored.ui_scale == Some(self.ui_scale)
        &&& stored.theme is Some && stored.theme->0@ == saved_name(self.theme)
        &&& opt(stored.download_dir) == opt(self.download_dir)
        &&& opt(stored.output_dir) == opt(self.output_dir)
        &&& stored.delete_cache_on_exit == Some(self.delete_cache_on_exit)
        &&& stored.open_dir_on_save == Some(self.open_dir_on_save)
        &&& stored.compatibility_mode == Some(self.compatibility_mode)
        &&& stored.volume == Some(self.volume)
        &&& stored.keybinds matches Stored::Binds(saved) && saved_texts(saved@) == saved_of(
            self.keybinds@,
        )
        &&& chosen(stored.cookies) == chosen(self.cookies)
    }

    /// Whether every setting is the same as in `other`.
    pub open spec fn same(self, other: Settings) -> bool {
        &&& self.ui_scale == other.ui_scale
        &&& self.theme == other.theme
        &&& opt(self.download_dir) == opt(other.download_dir)
        &&& opt(self.output_dir) == opt(other.output_dir)
        &&& self.delete_cache_on_exit == other.delete_cache_on_exit
        &&& self.open_dir_on_save == other.open_dir_on_save
        &&& self.compatibility_mode == other.compatibility_mode
        &&& self.volume == other.volume
        &&& self.keybinds@ == other.keybinds@
        &&& chosen(self.cookies) == chosen(other.cookies)
    }

    /// The settings that were stored; what could not be read is as it is to start
    /// with.
    pub fn load(stored: StoredSettings) -> (settings: Settings)
        ensures
            settings.loaded_from(stored),
    {
        Settings {
            ui_scale: match stored.ui_scale {
                Some(scale) => scale,
                None => Double { bits: DEFAULT_UI_SCALE_BITS },
            },
            theme: match &stored.theme {
                Some(name) => theme_pref_from_name(name.as_str()),
                None => ThemePreference::System,
            },
            download_dir: stored.download_dir,
            output_dir: stored.output_dir,
            delete_cache_on_exit: match stored.delete_cache_on_exit {
                Some(yes) => yes,
                None => false,
            },
            open_dir_on_save: match stored.open_dir_on_save {
                Some(yes) => yes,
                None => false,
            },
            compatibility_mode: match stored.compatibility_mode {
                Some(yes) => yes,
                None => true,
            },
            volume: match stored.volume {
                Some(volume) => volume,
                None => Double { bits: DEFAULT_VOLUME_BITS },
            },
            keybinds: Keybinds::load(&stored.keybinds),
            cookies: stored.cookies,
        }
    }

    /// What to store of the settings.
    pub fn save(&self) -> (stored: StoredSettings)
        ensures
            self.saved_as(stored),
    {
        StoredSettings {
            ui_scale: Some(self.ui_scale),
            theme: Some(theme_pref_name(self.theme).to_owned()),
            download_dir: copied(&self.download_dir),
            output_dir: copied(&self.output_dir),
            delete_cache_on_exit: Some(self.delete_cache_on_exit),
            open_dir_on_save: Some(self.open_dir_on_save),
            compatibility_mode: Some(self.compatibility_mode),
            volume: Some(self.volume),
            keybinds: Stored::Binds(self.keybinds.save()),
            cookies: crate::cookies::copied(&self.cookies),
        }
    }

    /// Where downloads land: the configured folder, else the managed cache dir.
    pub fn effective_download_dir(&self, managed: String) -> (dir: String)
        ensures
            dir@ == (match self.download_dir {
                Some(dir) => dir@,
                None => managed@,
            }),
    {
        match &self.download_dir {
            Some(dir) => dir.clone(),
            None => managed,
        }
    }
}

fn copied(text: &Option<String>) -> (copy: Option<String>)
    ensures
        opt(copy) == opt(*text),
{
    match text {
        Some(text) => Some(text.clone()),
        None => None,
    }
}

/// Settings that were saved load as they were.
pub proof fn law_saved_settings_come_back(
    settings: Settings,
    stored: StoredSettings,
    loaded: Settings,
)
    requires
        settings.saved_as(stored),
        loaded.loaded_from(stored),
    ensures
        crate::keybinds::all_keys(settings.keybinds@) ==> loaded.same(settings),
{
    law_saved_theme_comes_back(settings.theme);
    crate::keybinds::law_saved_shortcuts_come_back(settings.keybinds@);
}

/// Every setting that was stored is taken as it was, each apart from the others, and
/// every one that was not starts out as usual: full size, the desktop's theme, the
/// managed folders, nothing deleted or opened unasked, files that play anywhere, half
/// the volume, and no cookies.
pub proof fn law_what_is_not_stored_is_usual(settings: Settings, stored: StoredSettings)
    requires
        settings.loaded_from(stored),
    ensures
        stored.ui_scale is Some ==> settings.ui_scale == stored.ui_scale->0,
        stored.ui_scale is None ==> settings.ui_scale.bits == 0x3ff0_0000_0000_0000,
        stored.theme is None ==> settings.theme is System,
        stored.download_dir is Some <==> settings.download_dir is Some,
        stored.download_dir is Some ==> settings.download_dir->0@ == stored.download_dir->0@,
        stored.output_dir is Some <==> settings.output_dir is Some,
        stored.output_dir is Some ==> settings.output_dir->0@ == stored.output_dir->0@,
        settings.delete_cache_on_exit <==> stored.delete_cache_on_exit == Some(true),
        settings.open_dir_on_save <==> stored.open_dir_on_save == Some(true),
        !settings.compatibility_mode <==> stored.compatibility_mode == Some(false),
        stored.volume is Some ==> settings.volume == stored.volume->0,
        stored.volume is None ==> settings.volume.bits == 0x3fe0_0000_0000_0000,
        stored.keybinds is Nothing ==> settings.keybinds@ == usual_binds(),
        stored.cookies is None <==> settings.cookies is None,
{
}

} // verus!
