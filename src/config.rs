//! Where the program keeps its settings and history, and which model it asks.
use vstd::prelude::*;

verus! {

pub const DEFAULT_MODEL: &'static str = "gpt-3.5-turbo";

pub const DEFAULT_FILE_NAME: &'static str = "rustgpt/conversation.json";

pub const DEFAULT_CONFIG_FILE: &'static str = "rustgpt/config.json";

#[derive(Debug)]
pub struct Settings {
    model: String,
    history_file: String,
    config_file: String,
}

pub struct SettingsView {
    pub model: Seq<char>,
    pub history_file: Seq<char>,
    pub config_file: Seq<char>,
}

impl View for Settings {
    type V = SettingsView;

    closed spec fn view(&self) -> SettingsView {
        SettingsView {
            model: self.model@,
            history_file: self.history_file@,
            config_file: self.config_file@,
        }
    }
}

impl Settings {
    pub fn create(history_file: &str, settings_file: &str, model: &str) -> (r: Settings)
        ensures
            r@ == (SettingsView {
                model: model@,
                history_file: history_file@,
                config_file: settings_file@,
            }),
    {
        Settings {
            model: String::from_str(model),
            history_file: String::from_str(history_file),
            config_file: String::from_str(settings_file),
        }
    }

    pub fn default() -> (r: Settings)
        ensures
            r@ == (SettingsView {
                model: DEFAULT_MODEL@,
                history_file: DEFAULT_FILE_NAME@,
                config_file: DEFAULT_CONFIG_FILE@,
            }),
    {
        Self::create(DEFAULT_FILE_NAME, DEFAULT_CONFIG_FILE, DEFAULT_MODEL)
    }

    pub fn model(&self) -> (r: &str)
        ensures
            r@ == self@.model,
    {
        self.model.as_str()
    }

    pub fn history_file(&self) -> (r: &str)
        ensures
            r@ == self@.history_file,
    {
        self.history_file.as_str()
    }

    pub fn config_file(&self) -> (r: &str)
        ensures
            r@ == self@.config_file,
    {
        self.config_file.as_str()
    }
}

} // verus!
