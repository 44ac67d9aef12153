//! The application's settings record and the store that holds it in memory.
//!
//! Reading and writing the settings file is the caller's part; what was read
//! comes in as a [`StoredSettings`], and a failed write is turned into its
//! message by [`save_outcome`].

use crate::discovery::info_views;
use crate::probe::{JavaInfo, JavaInfoView};
use vstd::prelude::*;
use vstd::string::*;

verus! {

/// What the user has chosen, and the runtimes found last.
#[derive(Debug)]
pub struct AppSettings {
    pub close_servers_on_exit: bool,
    pub auto_accept_eula: bool,
    pub default_max_memory: u32,
    pub default_min_memory: u32,
    pub default_port: u16,
    pub default_java_path: String,
    pub default_jvm_args: String,
    pub console_font_size: u32,
    pub max_log_lines: u32,
    pub cached_java_list: Vec<JavaInfo>,
}

/// The mathematical content of an [`AppSettings`].
pub ghost struct AppSettingsView {
    pub close_servers_on_exit: bool,
    pub auto_accept_eula: bool,
    pub default_max_memory: u32,
    pub default_min_memory: u32,
    pub default_port: u16,
    pub default_java_path: Seq<char>,
    pub default_jvm_args: Seq<char>,
    pub console_font_size: u32,
    pub max_log_lines: u32,
    pub cached_java_list: Seq<JavaInfoView>,
}

impl View for AppSettings {
    type V = AppSettingsView;

    open spec fn view(&self) -> AppSettingsView {
        AppSettingsView {
            close_servers_on_exit: self.close_servers_on_exit,
            auto_accept_eula: self.auto_accept_eula,
            default_max_memory: self.default_max_memory,
            default_min_memory: self.default_min_memory,
            default_port: self.default_port,
            default_java_path: self.default_java_path@,
            default_jvm_args: self.default_jvm_args@,
            console_font_size: self.console_font_size,
            max_log_lines: self.max_log_lines,
            cached_java_list: info_views(self.cached_java_list@),
        }
    }
}

/// The settings of a fresh installation.
pub open spec fn default_settings() -> AppSettingsView {
    AppSettingsView {
        close_servers_on_exit: true,
        auto_accept_eula: true,
        default_max_memory: 2048,
        default_min_memory: 512,
        default_port: 25565,
        default_java_path: Seq::empty(),
        default_jvm_args: Seq::empty(),
        console_font_size: 13,
        max_log_lines: 5000,
        cached_java_list: Seq::empty(),
    }
}

/// The value of a switch that a settings file leaves out.
pub fn default_true() -> (r: bool)
    ensures
        r,
{
    true
}

/// The upper memory limit, in megabytes, where a settings file names none.
pub fn default_max_memory() -> (r: u32)
    ensures
        r == default_settings().default_max_memory,
{
    2048
}

/// The lower memory limit, in megabytes, where a settings file names none.
pub fn default_min_memory() -> (r: u32)
    ensures
        r == default_settings().default_min_memory,
{
    512
}

/// The server port where a settings file names none.
pub fn default_port() -> (r: u16)
    ensures
        r == default_settings().default_port,
{
    25565
}

/// The console's font size where a settings file names none.
pub fn default_console_font() -> (r: u32)
    ensures
        r == default_settings().console_font_size,
{
    13
}

/// The number of log lines kept where a settings file names none.
pub fn default_log_lines() -> (r: u32)
    ensures
        r == default_settings().max_log_lines,
{
    5000
}

/// A copy of a list of descriptors.
pub fn copy_infos(infos: &Vec<JavaInfo>) -> (r: Vec<JavaInfo>)
    ensures
        info_views(r@) == info_views(infos@),
{
    let mut out: Vec<JavaInfo> = Vec::new();
    let mut i: usize = 0;
    while i < infos.len()
        invariant
            i <= infos@.len(),
            out@.len() == i,
            forall|j: int| 0 <= j < i ==> out@[j]@ == infos@[j]@,
        decreases infos@.len() - i,
    {
        out.push(infos[i].clone());
        i = i + 1;
    }
    proof {
        assert(info_views(out@) =~= info_views(infos@));
    }
    out
}

impl Default for AppSettings {
    fn default() -> (r: Self)
        ensures
            r@ == default_settings(),
    {
        let r = AppSettings {
            close_servers_on_exit: default_true(),
            auto_accept_eula: default_true(),
            default_max_memory: default_max_memory(),
            default_min_memory: default_min_memory(),
            default_port: default_port(),
            default_java_path: String::new(),
            default_jvm_args: String::new(),
            console_font_size: default_console_font(),
            max_log_lines: default_log_lines(),
            cached_java_list: Vec::new(),
        };
        proof {
            assert(info_views(r.cached_java_list@) =~= Seq::<JavaInfoView>::empty());
        }
        r
    }
}

impl Clone for AppSettings {
    fn clone(&self) -> (r: Self)
        ensures
            r@ == self@,
    {
        AppSettings {
            close_servers_on_exit: self.close_servers_on_exit,
            auto_accept_eula: self.auto_accept_eula,
            default_max_memory: self.default_max_memory,
            default_min_memory: self.default_min_memory,
            default_port: self.default_port,
            default_java_path: self.default_java_path.clone(),
            default_jvm_args: self.default_jvm_args.clone(),
            console_font_size: self.console_font_size,
            max_log_lines: self.max_log_lines,
            cached_java_list: copy_infos(&self.cached_java_list),
        }
    }
}

/// What the host found where the settings file should be.
#[derive(Debug)]
pub enum StoredSettings {
    /// There is no settings file.
    Missing,
    /// The file is there and could not be read.
    Unreadable,
    /// The file was read and does not hold settings.
    Malformed,
    /// The settings that the file holds.
    Loaded(AppSettings),
}

/// The mathematical content of a [`StoredSettings`].
pub ghost enum StoredSettingsView {
    Missing,
    Unreadable,
    Malformed,
    Loaded(AppSettingsView),
}

impl View for StoredSettings {
    type V = StoredSettingsView;

    open spec fn view(&self) -> StoredSettingsView {
        match self {
            StoredSettings::Missing => StoredSettingsView::Missing,
            StoredSettings::Unreadable => StoredSettingsView::Unreadable,
            StoredSettings::Malformed => StoredSettingsView::Malformed,
            StoredSettings::Loaded(s) => StoredSettingsView::Loaded(s@),
        }
    }
}

/// The settings to begin with: those of the file where it holds any, the
/// defaults otherwise.
pub open spec fn initial_settings(stored: StoredSettingsView) -> AppSettingsView {
    match stored {
        StoredSettingsView::Loaded(s) => s,
        _ => default_settings(),
    }
}

/// Chooses the settings to begin with.
pub fn load_settings(stored: StoredSettings) -> (r: AppSettings)
    ensures
        r@ == initial_settings(stored@),
{
    match stored {
        StoredSettings::Loaded(s) => s,
        _ => AppSettings::default(),
    }
}

/// Whether the settings chosen by [`load_settings`] are to be written out at
/// once: only a missing file is created.
pub fn needs_first_save(stored: &StoredSettings) -> (r: bool)
    ensures
        r == (stored@ is Missing),
{
    match stored {
        StoredSettings::Missing => true,
        _ => false,
    }
}

/// The name of the settings file inside the data directory.
pub fn settings_file_name() -> (r: &'static str)
    ensures
        r@ == "sea_lantern_settings.json"@,
{
    "sea_lantern_settings.json"
}

/// The data directory: the directory of the running executable where the
/// host knows it, the current directory otherwise.
pub fn get_data_dir(executable_dir: Option<String>) -> (r: String)
    ensures
        r@ == match executable_dir {
            Some(dir) => dir@,
            None => "."@,
        },
{
    match executable_dir {
        Some(dir) => dir,
        None => String::from_str("."),
    }
}

/// Why settings could not be saved, with the host's own description.
#[derive(Debug)]
pub enum SaveFailure {
    /// The settings could not be turned into text.
    Serialize(String),
    /// The text could not be written to the file.
    Write(String),
}

/// The message for a failed save.
pub open spec fn save_failure_message(failure: SaveFailure) -> Seq<char> {
    match failure {
        SaveFailure::Serialize(detail) => "Failed to serialize settings: "@ + detail@,
        SaveFailure::Write(detail) => "Failed to save settings: "@ + detail@,
    }
}

/// Turns the host's report of a save into the result handed to the user.
pub fn save_outcome(failure: Option<SaveFailure>) -> (r: Result<(), String>)
    ensures
        match failure {
            None => r is Ok,
            Some(f) => r is Err && r->Err_0@ == save_failure_message(f),
        },
{
    match failure {
        None => Ok(()),
        Some(SaveFailure::Serialize(detail)) => Err(
            String::from_str("Failed to serialize settings: ").concat(detail.as_str()),
        ),
        Some(SaveFailure::Write(detail)) => Err(
            String::from_str("Failed to save settings: ").concat(detail.as_str()),
        ),
    }
}

/// The settings held in memory, and the directory that their file lives in.
#[derive(Debug)]
pub struct SettingsManager {
    pub settings: AppSettings,
    pub data_dir: String,
}

impl SettingsManager {
    /// Begins with what the settings file held, or with the defaults.
    pub fn new(data_dir: String, stored: StoredSettings) -> (r: Self)
        ensures
            r.settings@ == initial_settings(stored@),
            r.data_dir@ == data_dir@,
    {
        SettingsManager { settings: load_settings(stored), data_dir }
    }

    /// A copy of the current settings.
    pub fn get(&self) -> (r: AppSettings)
        ensures
            r@ == self.settings@,
    {
        self.settings.clone()
    }

    /// Replaces the current settings and hands back the copy that is to be
    /// written out.
    pub fn update(&mut self, new_settings: AppSettings) -> (r: AppSettings)
        ensures
            final(self).settings@ == new_settings@,
            final(self).data_dir@ == old(self).data_dir@,
            r@ == new_settings@,
    {
        let copy = new_settings.clone();
        self.settings = new_settings;
        copy
    }

    /// Goes back to the defaults and hands them back.
    pub fn reset(&mut self) -> (r: AppSettings)
        ensures
            final(self).settings@ == default_settings(),
            final(self).data_dir@ == old(self).data_dir@,
            r@ == default_settings(),
    {
        let defaults = AppSettings::default();
        self.settings = defaults.clone();
        defaults
    }
}

/// One documented entry of a server's properties file.
#[derive(Debug)]
pub struct ConfigEntry {
    pub key: String,
    pub value: String,
    pub description: String,
    pub value_type: String,
    pub default_value: String,
    pub category: String,
}

/// A server's properties: the documented entries and every raw pair.
#[derive(Debug)]
pub struct ServerProperties {
    pub entries: Vec<ConfigEntry>,
    pub raw: std::collections::HashMap<String, String>,
}

} // verus!
