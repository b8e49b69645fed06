//! The configuration of the program as a whole.

use vstd::prelude::*;
use vstd::string::*;
use crate::app::Mode;
use crate::config::bindings::{filled, KeyBindings};
use crate::config::style::{parse_style, style_of};
use crate::pages::PageId;
use crate::style::Style;

verus! {

/// Where the program keeps its files.
#[derive(Debug, Default)]
pub struct AppConfig {
    pub _data_dir: String,
    pub _config_dir: String,
}

impl Clone for AppConfig {
    fn clone(&self) -> (c: AppConfig)
        ensures
            c == *self,
    {
        AppConfig { _data_dir: self._data_dir.clone(), _config_dir: self._config_dir.clone() }
    }
}

/// The configuration.
pub struct Config {
    pub config: AppConfig,
    pub keybindings: KeyBindings,
}

impl Config {
    /// Enters each default binding whose key stroke the configuration does
    /// not bind itself, scope by scope.
    pub fn merge_defaults(&mut self, default_config: &Config)
        ensures
            final(self).config == old(self).config,
            final(self).keybindings.global@
                == default_config.keybindings.global@.union_prefer_right(
                old(self).keybindings.global@,
            ),
            forall|page: PageId|
                final(self).keybindings.page_table(page) == filled(
                    #[trigger] old(self).keybindings.page_table(page),
                    default_config.keybindings.page_table(page),
                ),
    {
        self.keybindings.merge_defaults(&default_config.keybindings);
    }
}

/// The styles of a mode, each under its name, as the configuration writes
/// them.
pub struct RawStyles {
    pub mode: Mode,
    pub styles: Vec<(String, String)>,
}

/// The styles of a mode, each under its name.
pub struct ModeStyles {
    pub mode: Mode,
    pub styles: Vec<(String, Style)>,
}

/// The styles of every mode.
pub struct Styles(pub Vec<ModeStyles>);

/// Whether the styles `read` are those that `raw` writes: name for name,
/// each the style that its text stands for.
pub open spec fn styles_read(read: ModeStyles, raw: RawStyles) -> bool {
    &&& read.mode == raw.mode
    &&& read.styles.len() == raw.styles.len()
    &&& forall|i: int|
        0 <= i < raw.styles.len() ==> (#[trigger] read.styles@[i]).0@ == raw.styles@[i].0@
            && read.styles@[i].1 == style_of(raw.styles@[i].1@)
}

impl Styles {
    /// Reads the styles of every mode.
    pub fn from_raw(raw: &Vec<RawStyles>) -> (styles: Styles)
        ensures
            styles.0.len() == raw.len(),
            forall|m: int| 0 <= m < raw.len() ==> styles_read(#[trigger] styles.0@[m], raw@[m]),
    {
        let mut modes: Vec<ModeStyles> = Vec::new();
        let mut m: usize = 0;
        while m < raw.len()
            invariant
                m <= raw.len(),
                modes.len() == m,
                forall|k: int| 0 <= k < m ==> styles_read(#[trigger] modes@[k], raw@[k]),
            decreases raw.len() - m,
        {
            let mut read: Vec<(String, Style)> = Vec::new();
            let mut i: usize = 0;
            while i < raw[m as usize].styles.len()
                invariant
                    m < raw.len(),
                    i <= raw@[m as int].styles.len(),
                    read.len() == i,
                    forall|k: int|
                        0 <= k < i ==> (#[trigger] read@[k]).0@ == raw@[m as int].styles@[k].0@
                            && read@[k].1 == style_of(raw@[m as int].styles@[k].1@),
                decreases raw@[m as int].styles.len() - i,
            {
                let name = raw[m].styles[i].0.clone();
                let style = parse_style(raw[m].styles[i].1.as_str());
                read.push((name, style));
                i += 1;
            }
            modes.push(ModeStyles { mode: raw[m].mode, styles: read });
            m += 1;
        }
        Styles(modes)
    }
}

} // verus!
