//! Plugin instances and the places plugins are looked for.
use vstd::prelude::*;
use crate::explorer::{path_file_name, spec_path_file_name};

verus! {

/// A loaded CLAP plugin, known by the file name it was loaded from.
pub struct ClapInstance {
    name: String,
}

impl View for ClapInstance {
    type V = Seq<char>;

    closed spec fn view(&self) -> Seq<char> {
        self.name@
    }
}

impl ClapInstance {
    /// Loads a plugin; its name is the path's final component. The path
    /// must have one.
    pub fn load(path: &str) -> (r: Result<ClapInstance, String>)
        requires
            spec_path_file_name(path@) is Some,
        ensures
            r is Ok,
            r->Ok_0@ == spec_path_file_name(path@)->0,
    {
        match path_file_name(path) {
            Some(name) => Ok(ClapInstance { name }),
            None => Ok(ClapInstance { name: String::new() }),
        }
    }

    /// Loads a plugin when the path has a final component to name it by;
    /// `None` otherwise.
    pub fn try_load(path: &str) -> (r: Option<ClapInstance>)
        ensures
            match spec_path_file_name(path@) {
                Some(n) => r is Some && r->0@ == n,
                None => r is None,
            },
    {
        match path_file_name(path) {
            Some(_) => match Self::load(path) {
                Ok(inst) => Some(inst),
                Err(_) => None,
            },
            None => None,
        }
    }

    /// The plugin's name.
    pub fn get_name(&self) -> (name: &str)
        ensures
            name@ == self@,
    {
        self.name.as_str()
    }
}

/// The host that finds and loads plugins.
pub struct PluginHost;

impl PluginHost {
    /// The folders searched for plugins: `~/.vst3`, `/usr/lib/vst3` and
    /// `~/.clap`.
    pub fn search_paths() -> (paths: Vec<String>)
        ensures
            paths@.len() == 3,
            paths@[0]@ == "~/.vst3"@,
            paths@[1]@ == "/usr/lib/vst3"@,
            paths@[2]@ == "~/.clap"@,
    {
        let mut v: Vec<String> = Vec::new();
        v.push("~/.vst3".to_owned());
        v.push("/usr/lib/vst3".to_owned());
        v.push("~/.clap".to_owned());
        v
    }
}

} // verus!
