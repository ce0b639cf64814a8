//! Settings of the screenshot tool and the text of the default settings file.

use vstd::prelude::*;
use crate::text::{
    bool_text, contains_seq, contains_str, push_bool, replace_all, replace_str, to_owned_string,
};
use crate::winpath::{join_path, join_path_exec, same_windows_path, same_windows_path_exec};

verus! {

broadcast use vstd::string::group_string_axioms;

/// The three global hotkeys, in the `Ctrl+Alt+1` notation.
pub struct HotkeyConfig {
    pub fullscreen: String,
    pub current_window: String,
    pub square_region: String,
}

/// The settings read from the settings file.
pub struct Config {
    /// Folder the screenshots are written to.
    pub output_dir: String,
    /// `strftime` pattern of the file name, with `{Mode}` and `{App}` slots.
    pub filename_pattern: String,
    /// Pattern of the `{App}` slot, with an `{AppName}` slot.
    pub app_name_pattern: String,
    pub hotkeys: HotkeyConfig,
    pub show_notification: bool,
    /// General auto-open setting, used where `auto_open_sdr`/`auto_open_hdr` are absent.
    pub auto_open: bool,
    pub auto_open_sdr: Option<bool>,
    pub auto_open_hdr: Option<bool>,
    /// General viewer program, used where `open_command_sdr`/`open_command_hdr` are absent.
    pub open_command: Option<String>,
    pub open_command_sdr: Option<String>,
    pub open_command_hdr: Option<String>,
}

/// Folders that the `{Desktop}` … `{Videos}` placeholders of `output_dir`
/// stand for, as the system reported them (`None` where it could not).
pub struct KnownFolders {
    pub desktop: Option<String>,
    pub documents: Option<String>,
    pub downloads: Option<String>,
    pub music: Option<String>,
    pub pictures: Option<String>,
    pub videos: Option<String>,
}

/// What `output_dir` is written as in a fresh settings file when it is the default.
pub const DEFAULT_OUTPUT_DIR_PLACEHOLDER: &'static str = "{Pictures}\\Screenshots";

pub open spec fn spec_default_filename_pattern() -> Seq<char> {
    "%Y-%m-%d_%H-%M-%S_{Mode}{App}.png"@
}

pub open spec fn spec_default_app_name_pattern() -> Seq<char> {
    "_{AppName}"@
}

pub open spec fn spec_default_fullscreen_hotkey() -> Seq<char> {
    "Ctrl+Alt+1"@
}

pub open spec fn spec_default_window_hotkey() -> Seq<char> {
    "Ctrl+Alt+2"@
}

pub open spec fn spec_default_region_hotkey() -> Seq<char> {
    "Ctrl+Alt+3"@
}

/// Default file-name pattern.
pub fn default_filename_pattern() -> (s: String)
    ensures
        s@ == spec_default_filename_pattern(),
{
    to_owned_string("%Y-%m-%d_%H-%M-%S_{Mode}{App}.png")
}

/// Default pattern of the application-name slot.
pub fn default_app_name_pattern() -> (s: String)
    ensures
        s@ == spec_default_app_name_pattern(),
{
    to_owned_string("_{AppName}")
}

/// Default hotkey for a full-screen capture.
pub fn default_fullscreen_hotkey() -> (s: String)
    ensures
        s@ == spec_default_fullscreen_hotkey(),
{
    to_owned_string("Ctrl+Alt+1")
}

/// Default hotkey for a capture of the current window.
pub fn default_window_hotkey() -> (s: String)
    ensures
        s@ == spec_default_window_hotkey(),
{
    to_owned_string("Ctrl+Alt+2")
}

/// Default hotkey for a capture of a selected region.
pub fn default_region_hotkey() -> (s: String)
    ensures
        s@ == spec_default_region_hotkey(),
{
    to_owned_string("Ctrl+Alt+3")
}

/// Default of `show_notification`.
pub fn default_true() -> (b: bool)
    ensures
        b,
{
    true
}

/// The default output folder: `Screenshots` under the Pictures folder when the
/// system names one, else `Pictures\Screenshots` under the user profile, else
/// under the current folder.
pub open spec fn spec_default_output_dir(pictures: Option<Seq<char>>, user_profile: Option<Seq<char>>) -> Seq<char> {
    match pictures {
        Some(p) => join_path(p, "Screenshots"@),
        None => {
            let base = match user_profile {
                Some(u) => u,
                None => "."@,
            };
            join_path(join_path(base, "Pictures"@), "Screenshots"@)
        },
    }
}

/// The default output folder, from the Pictures folder the system reports and
/// the `USERPROFILE` variable.
pub fn default_output_dir(pictures: Option<String>, user_profile: Option<String>) -> (r: String)
    ensures
        r@ == spec_default_output_dir(
            match pictures { Some(p) => Some(p@), None => None },
            match user_profile { Some(u) => Some(u@), None => None },
        ),
{
    match pictures {
        Some(p) => join_path_exec(p.as_str(), "Screenshots"),
        None => {
            let base = match user_profile {
                Some(u) => u,
                None => to_owned_string("."),
            };
            let pics = join_path_exec(base.as_str(), "Pictures");
            join_path_exec(pics.as_str(), "Screenshots")
        },
    }
}

impl HotkeyConfig {
    /// The default hotkeys `Ctrl+Alt+1`, `Ctrl+Alt+2` and `Ctrl+Alt+3`.
    pub open spec fn is_default(&self) -> bool {
        &&& self.fullscreen@ == spec_default_fullscreen_hotkey()
        &&& self.current_window@ == spec_default_window_hotkey()
        &&& self.square_region@ == spec_default_region_hotkey()
    }
}

impl Default for HotkeyConfig {
    fn default() -> (h: Self)
        ensures
            h.is_default(),
    {
        HotkeyConfig {
            fullscreen: default_fullscreen_hotkey(),
            current_window: default_window_hotkey(),
            square_region: default_region_hotkey(),
        }
    }
}

/// The value of an optional setting, or its fallback.
pub open spec fn or_else<T>(o: Option<T>, fallback: T) -> T {
    match o {
        Some(v) => v,
        None => fallback,
    }
}

/// The first present one of two optional settings.
pub open spec fn first_some<T>(a: Option<T>, b: Option<T>) -> Option<T> {
    match a {
        Some(v) => Some(v),
        None => b,
    }
}

/// View of an optional string.
pub open spec fn opt_view(o: Option<String>) -> Option<Seq<char>> {
    match o {
        Some(s) => Some(s@),
        None => None,
    }
}

impl Config {
    /// Whether a capture is opened once saved: the HDR or SDR setting where
    /// given, else the general `auto_open`.
    pub open spec fn spec_auto_open_for(&self, hdr: bool) -> bool {
        if hdr {
            or_else(self.auto_open_hdr, self.auto_open)
        } else {
            or_else(self.auto_open_sdr, self.auto_open)
        }
    }

    /// The program a capture is opened with: the HDR or SDR command where
    /// given, else the general `open_command`, else none.
    pub open spec fn spec_open_command_for(&self, hdr: bool) -> Option<Seq<char>> {
        if hdr {
            first_some(opt_view(self.open_command_hdr), opt_view(self.open_command))
        } else {
            first_some(opt_view(self.open_command_sdr), opt_view(self.open_command))
        }
    }

    /// The settings in force when there is no settings file.
    pub open spec fn is_default_for(&self, output_dir: Seq<char>) -> bool {
        &&& self.output_dir@ == output_dir
        &&& self.filename_pattern@ == spec_default_filename_pattern()
        &&& self.app_name_pattern@ == spec_default_app_name_pattern()
        &&& self.hotkeys.is_default()
        &&& self.show_notification
        &&& !self.auto_open
        &&& self.auto_open_sdr is None
        &&& self.auto_open_hdr is None
        &&& self.open_command is None
        &&& self.open_command_sdr is None
        &&& self.open_command_hdr is None
    }

    /// Default settings, writing screenshots to `output_dir` (the default
    /// output folder of this machine, see `default_output_dir`).
    pub fn default(output_dir: String) -> (c: Self)
        ensures
            c.is_default_for(output_dir@),
    {
        Config {
            output_dir,
            filename_pattern: default_filename_pattern(),
            app_name_pattern: default_app_name_pattern(),
            hotkeys: HotkeyConfig::default(),
            show_notification: true,
            auto_open: false,
            auto_open_sdr: None,
            auto_open_hdr: None,
            open_command: None,
            open_command_sdr: None,
            open_command_hdr: None,
        }
    }

    /// Whether a capture is opened once saved.
    pub fn auto_open_for(&self, hdr: bool) -> (b: bool)
        ensures
            b == self.spec_auto_open_for(hdr),
    {
        if hdr {
            match self.auto_open_hdr {
                Some(v) => v,
                None => self.auto_open,
            }
        } else {
            match self.auto_open_sdr {
                Some(v) => v,
                None => self.auto_open,
            }
        }
    }

    /// The program a capture is opened with, if one is configured.
    pub fn open_command_for(&self, hdr: bool) -> (r: Option<&str>)
        ensures
            match r {
                Some(s) => self.spec_open_command_for(hdr) == Some(s@),
                None => self.spec_open_command_for(hdr) is None,
            },
    {
        let specific = if hdr {
            &self.open_command_hdr
        } else {
            &self.open_command_sdr
        };
        match specific {
            Some(s) => Some(s.as_str()),
            None => match &self.open_command {
                Some(s) => Some(s.as_str()),
                None => None,
            },
        }
    }
}

/// How `output_dir` is written in a fresh settings file: the placeholder
/// form when it is the same path as the default folder, else the folder with
/// `/` written as `\`.
pub open spec fn spec_output_dir_text(output_dir: Seq<char>, default_dir: Seq<char>) -> Seq<char> {
    if same_windows_path(output_dir, default_dir) {
        "{Pictures}\\Screenshots"@
    } else {
        replace_all(output_dir, "/"@, "\\"@)
    }
}

/// The text of a fresh settings file for `c`.
pub open spec fn spec_example_text(c: Config, default_dir: Seq<char>) -> Seq<char> {
    "output_dir = '"@ + spec_output_dir_text(c.output_dir@, default_dir) + "'\nfilename_pattern = \""@
        + c.filename_pattern@ + "\"\napp_name_pattern = \""@ + c.app_name_pattern@
        + "\"\nshow_notification = "@ + bool_text(c.show_notification) + "\nauto_open_sdr = "@
        + bool_text(c.spec_auto_open_for(false)) + "\nauto_open_hdr = "@ + bool_text(
        c.spec_auto_open_for(true),
    ) + "\n# open_command_sdr = \"mspaint.exe\"\n# open_command_hdr = \"hdr-viewer.exe\"\n\n[hotkeys]\nfullscreen = \""@
        + c.hotkeys.fullscreen@ + "\"\ncurrent_window = \""@ + c.hotkeys.current_window@
        + "\"\nsquare_region = \""@ + c.hotkeys.square_region@ + "\"\n"@
}

/// The `{Desktop}` … `{Videos}` placeholders with the folders they stand for,
/// in the order they are expanded.
pub open spec fn spec_folder_slots(folders: KnownFolders) -> Seq<(Seq<char>, Option<Seq<char>>)> {
    seq![
        ("{Desktop}"@, opt_view(folders.desktop)),
        ("{Documents}"@, opt_view(folders.documents)),
        ("{Downloads}"@, opt_view(folders.downloads)),
        ("{Music}"@, opt_view(folders.music)),
        ("{Pictures}"@, opt_view(folders.pictures)),
        ("{Videos}"@, opt_view(folders.videos)),
    ]
}

/// One expansion step: a placeholder that occurs in the path and whose folder
/// is known is replaced everywhere by that folder.
pub open spec fn expand_one(path: Seq<char>, slot: (Seq<char>, Option<Seq<char>>)) -> Seq<char> {
    match slot.1 {
        Some(folder) => if contains_seq(path, slot.0) {
            replace_all(path, slot.0, folder)
        } else {
            path
        },
        None => path,
    }
}

/// `path` after the first `n` expansion steps.
pub open spec fn expand_first(path: Seq<char>, slots: Seq<(Seq<char>, Option<Seq<char>>)>, n: nat) -> Seq<char>
    decreases n,
{
    if n == 0 {
        path
    } else {
        expand_one(expand_first(path, slots, (n - 1) as nat), slots[n - 1])
    }
}

/// `path` with every known-folder placeholder expanded.
pub open spec fn spec_expand_path_placeholders(path: Seq<char>, folders: KnownFolders) -> Seq<char> {
    expand_first(path, spec_folder_slots(folders), 6)
}

fn expand_step(value: String, placeholder: &str, folder: &Option<String>) -> (r: String)
    requires
        placeholder@.len() > 0,
    ensures
        r@ == expand_one(value@, (placeholder@, opt_view(*folder))),
{
    match folder {
        Some(f) => if contains_str(value.as_str(), placeholder) {
            replace_str(value.as_str(), placeholder, f.as_str())
        } else {
            value
        },
        None => value,
    }
}

/// Expands the known-folder placeholders of an output folder.
pub fn expand_path_placeholders(path: &str, folders: &KnownFolders) -> (r: String)
    ensures
        r@ == spec_expand_path_placeholders(path@, *folders),
{
    proof {
        reveal_strlit("{Desktop}");
        reveal_strlit("{Documents}");
        reveal_strlit("{Downloads}");
        reveal_strlit("{Music}");
        reveal_strlit("{Pictures}");
        reveal_strlit("{Videos}");
    }
    let ghost slots = spec_folder_slots(*folders);
    assert(expand_first(path@, slots, 0) == path@);
    assert(slots[0] == ("{Desktop}"@, opt_view(folders.desktop)));
    assert(slots[1] == ("{Documents}"@, opt_view(folders.documents)));
    assert(slots[2] == ("{Downloads}"@, opt_view(folders.downloads)));
    assert(slots[3] == ("{Music}"@, opt_view(folders.music)));
    assert(slots[4] == ("{Pictures}"@, opt_view(folders.pictures)));
    assert(slots[5] == ("{Videos}"@, opt_view(folders.videos)));
    let mut value = to_owned_string(path);
    value = expand_step(value, "{Desktop}", &folders.desktop);
    assert(value@ == expand_first(path@, slots, 1));
    value = expand_step(value, "{Documents}", &folders.documents);
    assert(value@ == expand_first(path@, slots, 2));
    value = expand_step(value, "{Downloads}", &folders.downloads);
    assert(value@ == expand_first(path@, slots, 3));
    value = expand_step(value, "{Music}", &folders.music);
    assert(value@ == expand_first(path@, slots, 4));
    value = expand_step(value, "{Pictures}", &folders.pictures);
    assert(value@ == expand_first(path@, slots, 5));
    value = expand_step(value, "{Videos}", &folders.videos);
    value
}

impl Config {
    /// Expands the known-folder placeholders of `output_dir`; nothing else changes.
    pub fn expand_placeholders(&mut self, folders: &KnownFolders)
        ensures
            final(self).output_dir@ == spec_expand_path_placeholders(old(self).output_dir@, *folders),
            final(self).filename_pattern == old(self).filename_pattern,
            final(self).app_name_pattern == old(self).app_name_pattern,
            final(self).hotkeys == old(self).hotkeys,
            final(self).show_notification == old(self).show_notification,
            final(self).auto_open == old(self).auto_open,
            final(self).auto_open_sdr == old(self).auto_open_sdr,
            final(self).auto_open_hdr == old(self).auto_open_hdr,
            final(self).open_command == old(self).open_command,
            final(self).open_command_sdr == old(self).open_command_sdr,
            final(self).open_command_hdr == old(self).open_command_hdr,
    {
        self.output_dir = expand_path_placeholders(self.output_dir.as_str(), folders);
    }

    /// The text of a fresh settings file holding these settings; `default_dir`
    /// is the default output folder of this machine.
    pub fn example_text(&self, default_dir: &str) -> (r: String)
        ensures
            r@ == spec_example_text(*self, default_dir@),
    {
        let output_dir = if same_windows_path_exec(self.output_dir.as_str(), default_dir) {
            to_owned_string(DEFAULT_OUTPUT_DIR_PLACEHOLDER)
        } else {
            proof {
                reveal_strlit("/");
            }
            replace_str(self.output_dir.as_str(), "/", "\\")
        };
        let mut r = String::new();
        r.append("output_dir = '");
        r.append(output_dir.as_str());
        r.append("'\nfilename_pattern = \"");
        r.append(self.filename_pattern.as_str());
        r.append("\"\napp_name_pattern = \"");
        r.append(self.app_name_pattern.as_str());
        r.append("\"\nshow_notification = ");
        push_bool(&mut r, self.show_notification);
        r.append("\nauto_open_sdr = ");
        push_bool(&mut r, self.auto_open_for(false));
        r.append("\nauto_open_hdr = ");
        push_bool(&mut r, self.auto_open_for(true));
        r.append("\n# open_command_sdr = \"mspaint.exe\"\n# open_command_hdr = \"hdr-viewer.exe\"\n\n[hotkeys]\nfullscreen = \"");
        r.append(self.hotkeys.fullscreen.as_str());
        r.append("\"\ncurrent_window = \"");
        r.append(self.hotkeys.current_window.as_str());
        r.append("\"\nsquare_region = \"");
        r.append(self.hotkeys.square_region.as_str());
        r.append("\"\n");
        r
    }
}

} // verus!
