//! The settings and where they are kept.

use crate::util::path;
use vstd::prelude::*;

verus! {

/// The file that holds the settings.
pub const SETTINGS_FILENAME: &'static str = "settings.json";

/// A page of the window.
#[derive(Debug, Clone, Copy, PartialEq, Eq, Structural)]
pub enum UiPage {
    Devices,
    Training,
    Inference,
    Debug,
}

impl UiPage {
    pub open spec fn spec_label(self) -> Seq<char> {
        match self {
            UiPage::Devices => "设备"@,
            UiPage::Training => "训练"@,
            UiPage::Inference => "推理"@,
            UiPage::Debug => "调试"@,
        }
    }

    pub fn label(self) -> (r: &'static str)
        ensures
            r@ == self.spec_label(),
    {
        match self {
            UiPage::Devices => "设备",
            UiPage::Training => "训练",
            UiPage::Inference => "推理",
            UiPage::Debug => "调试",
        }
    }

    /// All pages, in the order of the navigation.
    pub fn all() -> (r: [UiPage; 4])
        ensures
            r@ == seq![UiPage::Devices, UiPage::Training, UiPage::Inference, UiPage::Debug],
    {
        [UiPage::Devices, UiPage::Training, UiPage::Inference, UiPage::Debug]
    }
}

impl Default for UiPage {
    fn default() -> (r: Self)
        ensures
            r == UiPage::Devices,
    {
        UiPage::Devices
    }
}

/// What is done with the input.
#[derive(Debug, Clone, Copy, PartialEq, Eq, Structural)]
pub enum InferenceMode {
    Passthrough,
    BasicFilter,
    StrongIsolation,
}

impl InferenceMode {
    pub open spec fn spec_label(self) -> Seq<char> {
        match self {
            InferenceMode::Passthrough => "Passthrough"@,
            InferenceMode::BasicFilter => "Basic Filter"@,
            InferenceMode::StrongIsolation => "Strong Isolation (实验性)"@,
        }
    }

    pub fn label(self) -> (r: &'static str)
        ensures
            r@ == self.spec_label(),
    {
        match self {
            InferenceMode::Passthrough => "Passthrough",
            InferenceMode::BasicFilter => "Basic Filter",
            InferenceMode::StrongIsolation => "Strong Isolation (实验性)",
        }
    }
}

impl Default for InferenceMode {
    fn default() -> (r: Self)
        ensures
            r == InferenceMode::Passthrough,
    {
        InferenceMode::Passthrough
    }
}

/// What the user has set.
#[derive(Debug)]
pub struct AppSettings {
    pub selected_page: UiPage,
    pub selected_input_device: Option<String>,
    pub selected_output_device: Option<String>,
    pub inference_mode: InferenceMode,
}

fn copied_name(name: &Option<String>) -> (r: Option<String>)
    ensures
        r == *name,
{
    match name {
        Some(given) => Some(given.clone()),
        None => None,
    }
}

fn same_name(left: &Option<String>, right: &Option<String>) -> (r: bool)
    ensures
        r == match (*left, *right) {
            (Some(a), Some(b)) => a@ == b@,
            (None, None) => true,
            _ => false,
        },
{
    match (left, right) {
        (Some(a), Some(b)) => *a == *b,
        (None, None) => true,
        _ => false,
    }
}

impl Clone for AppSettings {
    fn clone(&self) -> (r: Self)
        ensures
            r == *self,
    {
        AppSettings {
            selected_page: self.selected_page,
            selected_input_device: copied_name(&self.selected_input_device),
            selected_output_device: copied_name(&self.selected_output_device),
            inference_mode: self.inference_mode,
        }
    }
}

impl Default for AppSettings {
    fn default() -> (r: Self)
        ensures
            r == AppSettings::spec_default(),
    {
        AppSettings {
            selected_page: UiPage::Devices,
            selected_input_device: None,
            selected_output_device: None,
            inference_mode: InferenceMode::Passthrough,
        }
    }
}

/// Two names that read the same, or none twice.
pub open spec fn names_agree(left: Option<String>, right: Option<String>) -> bool {
    match (left, right) {
        (Some(a), Some(b)) => a@ == b@,
        (None, None) => true,
        _ => false,
    }
}

impl AppSettings {
    /// The settings of a new user.
    pub open spec fn spec_default() -> AppSettings {
        AppSettings {
            selected_page: UiPage::Devices,
            selected_input_device: None,
            selected_output_device: None,
            inference_mode: InferenceMode::Passthrough,
        }
    }

    /// Whether two settings read the same.
    pub open spec fn agrees(self, other: AppSettings) -> bool {
        &&& self.selected_page == other.selected_page
        &&& names_agree(self.selected_input_device, other.selected_input_device)
        &&& names_agree(self.selected_output_device, other.selected_output_device)
        &&& self.inference_mode == other.inference_mode
    }

    /// Whether two settings read the same, so that they need not be saved.
    pub fn same_as(&self, other: &AppSettings) -> (r: bool)
        ensures
            r == self.agrees(*other),
    {
        self.selected_page == other.selected_page && same_name(
            &self.selected_input_device,
            &other.selected_input_device,
        ) && same_name(&self.selected_output_device, &other.selected_output_device)
            && self.inference_mode == other.inference_mode
    }
}

/// Where the settings are kept.
#[derive(Debug)]
pub struct SettingsStore {
    pub path: String,
}

impl SettingsStore {
    /// A store in the configuration directory.
    pub fn new(config_dir: &str) -> (r: Self)
        ensures
            r.path@ == path::below(config_dir@, SETTINGS_FILENAME@),
    {
        SettingsStore { path: path::join_path(config_dir, SETTINGS_FILENAME) }
    }

    pub fn path(&self) -> (r: &str)
        ensures
            r@ == self.path@,
    {
        self.path.as_str()
    }

    /// The settings, given what stands in the file; those of a new user where
    /// there is no file.
    pub fn load(&self, stored: Option<AppSettings>) -> (r: AppSettings)
        ensures
            r == match stored {
                Some(settings) => settings,
                None => AppSettings::spec_default(),
            },
    {
        match stored {
            Some(settings) => settings,
            None => AppSettings::default(),
        }
    }
}

/// Settings read the same exactly where every choice does; reading the same carries over.
pub proof fn agreement_is_in_every_choice(a: AppSettings, b: AppSettings, c: AppSettings)
    ensures
        a.agrees(a),
        a.agrees(b) ==> b.agrees(a),
        a.agrees(b) && b.agrees(c) ==> a.agrees(c),
        a.selected_page != b.selected_page ==> !a.agrees(b),
        a.inference_mode != b.inference_mode ==> !a.agrees(b),
        (a.selected_input_device is Some) != (b.selected_input_device is Some) ==> !a.agrees(b),
        (a.selected_output_device is Some) != (b.selected_output_device is Some) ==> !a.agrees(b),
        a.selected_input_device is Some && b.selected_input_device is Some
            && a.selected_input_device->0@ != b.selected_input_device->0@ ==> !a.agrees(b),
        a.selected_output_device is Some && b.selected_output_device is Some
            && a.selected_output_device->0@ != b.selected_output_device->0@ ==> !a.agrees(b),
{
}

} // verus!
