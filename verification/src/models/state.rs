//! The settings that the running application holds.

use vstd::prelude::*;
use crate::models::config::{Config, ConfigView, default_config};

verus! {

/// The current settings of the application.
pub struct ConfigState {
    config: Config,
}

impl View for ConfigState {
    type V = ConfigView;

    closed spec fn view(&self) -> ConfigView {
        self.config@
    }
}

impl ConfigState {
    /// Holds the default settings.
    pub fn new() -> (s: Self)
        ensures
            s@ == default_config(),
    {
        ConfigState { config: Config::default() }
    }

    /// Replaces the settings.
    pub fn set(&mut self, config: Config)
        ensures
            final(self)@ == config@,
    {
        self.config = config;
    }

    /// A copy of the settings.
    pub fn get(&self) -> (c: Config)
        ensures
            c@ == self@,
    {
        self.config.copy()
    }
}

} // verus!
