//! Server configuration: where templates and static files live.

use vstd::prelude::*;
use vstd::string::StringExecFns;

verus! {

/// The mathematical content of a configuration.
pub ghost struct ConfigModel {
    /// Directory searched for templates.
    pub template_path: Seq<char>,
    /// Directory served for static files.
    pub static_path: Seq<char>,
}

/// Internal configuration for the server.
pub struct Config {
    template_path: String,
    static_path: String,
}

impl View for Config {
    type V = ConfigModel;

    closed spec fn view(&self) -> ConfigModel {
        ConfigModel { template_path: self.template_path@, static_path: self.static_path@ }
    }
}

impl Config {
    /// Constructs the default configuration: templates under "templates",
    /// static files under "static".
    pub fn new() -> (r: Config)
        ensures
            r@.template_path == "templates"@,
            r@.static_path == "static"@,
    {
        Config {
            template_path: String::from_str("templates"),
            static_path: String::from_str("static"),
        }
    }

    /// Set the path for templates, defaults to "templates".
    pub fn template_path(&mut self, path: &str)
        ensures
            final(self)@ == (ConfigModel {
                template_path: path@,
                static_path: old(self)@.static_path,
            }),
    {
        self.template_path = path.to_owned();
    }

    /// Set the path for static files, defaults to "static".
    pub fn static_path(&mut self, path: &str)
        ensures
            final(self)@ == (ConfigModel {
                template_path: old(self)@.template_path,
                static_path: path@,
            }),
    {
        self.static_path = path.to_owned();
    }

    /// The configured template directory.
    pub fn template_dir(&self) -> (r: &String)
        ensures
            r@ == self@.template_path,
    {
        &self.template_path
    }

    /// The configured static-file directory.
    pub fn static_dir(&self) -> (r: &String)
        ensures
            r@ == self@.static_path,
    {
        &self.static_path
    }
}

impl Default for Config {
    /// The default configuration, as `new` builds it.
    fn default() -> (r: Config)
        ensures
            r@.template_path == "templates"@,
            r@.static_path == "static"@,
    {
        Config::new()
    }
}

} // verus!
