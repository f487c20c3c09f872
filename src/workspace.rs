//! Workspace configuration: the settings a project file holds.

use vstd::prelude::*;
use std::collections::HashMap;

verus! {

#[derive(Debug, Clone, PartialEq, Eq)]
pub struct ProjectInfo {
    pub name: String,
    pub version: String,
    pub description: Option<String>,
}

#[derive(Debug, Clone, PartialEq, Eq)]
pub struct Packages {
    pub dependencies: Option<Vec<String>>,
    pub dev_dependencies: Option<Vec<String>>,
}

#[derive(Debug, Clone, PartialEq, Eq)]
pub struct Scan {
    /// Glob patterns of the files to scan.
    pub included: Option<Vec<String>>,
    pub exclude: Option<Vec<String>>,
}

/// Settings of the utility-class engine; absent fields mean disabled and unset.
#[derive(Debug, Clone, PartialEq, Eq)]
pub struct UnoCSS {
    pub enabled: bool,
    pub preset: Option<String>,
    pub config_file: Option<String>,
    pub scan: Option<Scan>,
}

impl Default for UnoCSS {
    fn default() -> (r: UnoCSS)
        ensures
            !r.enabled && r.preset is None && r.config_file is None && r.scan is None,
    {
        UnoCSS { enabled: false, preset: None, config_file: None, scan: None }
    }
}

#[derive(Debug, Clone, PartialEq, Eq)]
pub struct Routes {
    pub auto_register: Option<bool>,
    pub pages_dir: Option<String>,
    pub exclude: Option<Vec<String>>,
    pub not_found_page: Option<String>,
}

#[derive(Debug, Clone, PartialEq, Eq)]
pub struct Theme {
    pub default: Option<String>,
    pub available: Option<Vec<String>>,
    pub custom_stylesheet: Option<String>,
}

#[derive(Debug, Clone, PartialEq, Eq)]
pub struct Components {
    pub auto_register: Option<bool>,
    pub directories: Option<Vec<String>>,
    pub aliases: Option<HashMap<String, String>>,
}

#[derive(Debug, Clone, PartialEq, Eq)]
pub struct Build {
    pub output_dir: Option<String>,
    pub target: Option<Vec<String>>,
    pub minify: Option<bool>,
    pub source_maps: Option<bool>,
}

#[derive(Debug, Clone, PartialEq, Eq)]
pub struct DevServer {
    pub port: Option<u16>,
    pub hot_reload: Option<bool>,
    pub open_browser: Option<bool>,
}

/// The whole project file.
#[derive(Debug, Clone, PartialEq, Eq)]
pub struct WorkspaceConfig {
    pub project: ProjectInfo,
    pub packages: Option<Packages>,
    pub unocss: Option<UnoCSS>,
    pub routes: Option<Routes>,
    pub theme: Option<Theme>,
    pub components: Option<Components>,
    pub build: Option<Build>,
    pub dev_server: Option<DevServer>,
}

impl WorkspaceConfig {
    /// Whether the utility-class engine is configured and enabled.
    pub fn is_unocss_enabled(&self) -> (r: bool)
        ensures
            r == (self.unocss is Some && self.unocss->0.enabled),
    {
        match &self.unocss {
            Some(u) => u.enabled,
            None => false,
        }
    }
}

/// Why processing a file failed.
#[derive(Debug)]
pub enum FileProcessorError {
    WorkspaceNotFound(String),
    ProcessingError(crate::error::DesignTimeError),
    IoError(String),
}

} // verus!
