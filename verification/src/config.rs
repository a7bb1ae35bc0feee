//! The settings that outlive a session: the scripts on offer, the one that
//! is chosen, where output goes, and whether a log is kept.

use crate::paths::{join_path, path_join};
use std::path::PathBuf;
use vstd::prelude::*;

verus! {

/// The settings of the application.
#[derive(Debug, Clone)]
pub struct Config {
    pub selected_script: Option<String>,
    pub output_directory: Option<PathBuf>,
    pub logging_enabled: bool,
    pub available_scripts: Vec<String>,
}

/// The mathematical value of a [`Config`].
pub struct ConfigView {
    pub selected_script: Option<Seq<char>>,
    pub output_directory: Option<PathBuf>,
    pub logging_enabled: bool,
    pub available_scripts: Seq<Seq<char>>,
}

/// The value of an optional string.
pub open spec fn text_view(text: Option<String>) -> Option<Seq<char>> {
    match text {
        Some(t) => Some(t@),
        None => None,
    }
}

/// The values of a sequence of strings, in order.
pub open spec fn text_views(texts: Seq<String>) -> Seq<Seq<char>> {
    texts.map_values(|text: String| text@)
}

impl View for Config {
    type V = ConfigView;

    open spec fn view(&self) -> ConfigView {
        ConfigView {
            selected_script: text_view(self.selected_script),
            output_directory: self.output_directory,
            logging_enabled: self.logging_enabled,
            available_scripts: text_views(self.available_scripts@),
        }
    }
}

impl ConfigView {
    /// The settings after the script at `index` was taken off the list: if
    /// it was the chosen one, none is chosen any more. An index past the
    /// end changes nothing.
    pub open spec fn script_removed(self, index: int) -> ConfigView {
        if 0 <= index < self.available_scripts.len() {
            ConfigView {
                selected_script: if self.selected_script == Some(self.available_scripts[index]) {
                    None
                } else {
                    self.selected_script
                },
                available_scripts: self.available_scripts.remove(index),
                ..self
            }
        } else {
            self
        }
    }

    /// The settings after the script at `index`, if one is given, was taken
    /// off the list.
    pub open spec fn script_removed_or_same(self, index: Option<usize>) -> ConfigView {
        match index {
            Some(i) => self.script_removed(i as int),
            None => self,
        }
    }

    /// The settings after `script` was put on the list and chosen. A script
    /// that is on the list already changes nothing.
    pub open spec fn script_added(self, script: Seq<char>) -> ConfigView {
        if self.available_scripts.contains(script) {
            self
        } else {
            ConfigView {
                selected_script: Some(script),
                available_scripts: self.available_scripts.push(script),
                ..self
            }
        }
    }
}

/// The settings of a first start: nothing chosen, no log, no scripts.
pub open spec fn initial_config() -> ConfigView {
    ConfigView {
        selected_script: None,
        output_directory: None,
        logging_enabled: false,
        available_scripts: Seq::empty(),
    }
}

impl Default for Config {
    fn default() -> (config: Config)
        ensures
            config@ == initial_config(),
    {
        let config = Config {
            selected_script: None,
            output_directory: None,
            logging_enabled: false,
            available_scripts: Vec::new(),
        };
        proof {
            assert(config@.available_scripts =~= Seq::<Seq<char>>::empty());
        }
        config
    }
}

/// Calls `dirs::config_dir`, which gives the directory that the platform
/// keeps a user's configuration in, or nothing where it cannot tell. The
/// result depends on the environment, so nothing is claimed of it.
#[verifier::external_body]
fn user_config_dir() -> (dir: Option<PathBuf>) {
    dirs::config_dir()
}

/// Where the settings are kept if the user's configuration directory is
/// `dir`.
pub open spec fn settings_file_in(dir: Option<PathBuf>) -> Option<PathBuf> {
    match dir {
        Some(d) => Some(path_join(path_join(d, "taskflow"@), "config.json"@)),
        None => None,
    }
}

impl Config {
    /// Whether `script` is on the list of scripts.
    pub fn has_script(&self, script: &String) -> (found: bool)
        ensures
            found == self@.available_scripts.contains(script@),
    {
        let mut i: usize = 0;
        while i < self.available_scripts.len()
            invariant
                i <= self.available_scripts.len(),
                forall|k: int| 0 <= k < i ==> (#[trigger] self.available_scripts@[k])@ != script@,
            decreases self.available_scripts.len() - i,
        {
            if self.available_scripts[i] == *script {
                proof {
                    assert(self@.available_scripts[i as int] == script@);
                }
                return true;
            }
            i += 1;
        }
        proof {
            assert forall|k: int|
                0 <= k < self@.available_scripts.len() implies self@.available_scripts[k]
                != script@ by {
                assert(self@.available_scripts[k] == self.available_scripts@[k]@);
            }
        }
        false
    }

    /// Puts `script` on the list and chooses it, unless it is on the list
    /// already. Says whether the settings changed.
    pub fn add_script(&mut self, script: String) -> (changed: bool)
        ensures
            final(self)@ == old(self)@.script_added(script@),
            changed == !old(self)@.available_scripts.contains(script@),
    {
        if self.has_script(&script) {
            false
        } else {
            let ghost before = self.available_scripts@;
            self.selected_script = Some(script.clone());
            self.available_scripts.push(script);
            proof {
                assert(text_views(self.available_scripts@) =~= text_views(before).push(script@));
            }
            true
        }
    }

    /// Takes the script at `index` off the list. If it was the chosen one,
    /// none is chosen any more. Says whether the settings changed, which
    /// they do not for an index past the end.
    pub fn remove_script(&mut self, index: usize) -> (changed: bool)
        ensures
            final(self)@ == old(self)@.script_removed(index as int),
            changed == (index < old(self)@.available_scripts.len()),
    {
        if index < self.available_scripts.len() {
            let ghost before = self.available_scripts@;
            let removed = self.available_scripts.remove(index);
            let was_selected = match &self.selected_script {
                Some(selected) => *selected == removed,
                None => false,
            };
            if was_selected {
                self.selected_script = None;
            }
            proof {
                assert(text_views(before)[index as int] == removed@);
                assert(text_views(self.available_scripts@) =~= text_views(before).remove(
                    index as int,
                ));
            }
            true
        } else {
            false
        }
    }

    /// The settings file below the configuration directory `dir`:
    /// `taskflow/config.json`.
    pub fn config_path_in(dir: Option<PathBuf>) -> (path: Option<PathBuf>)
        ensures
            path == settings_file_in(dir),
    {
        match dir {
            Some(d) => Some(join_path(&join_path(&d, "taskflow"), "config.json")),
            None => None,
        }
    }

    /// The settings file of the present user, if the platform says where
    /// configuration is kept.
    pub fn config_path() -> (path: Option<PathBuf>)
        ensures
            exists|dir: Option<PathBuf>| path == #[trigger] settings_file_in(dir),
    {
        Config::config_path_in(user_config_dir())
    }
}

} // verus!
