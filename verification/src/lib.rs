//! A project-scaffolding engine: scroll packages carry templates and
//! layered variables; a generator resolves qualified names, merges and
//! evaluates the variables, and plans which files to emit.

use vstd::prelude::*;

pub mod action;
pub mod ansi;
pub mod chain;
pub mod config;
pub mod errors;
pub mod evaluate;
pub mod generator;
pub mod luau;
pub mod paths;
pub mod renderer;
pub mod scroll;
pub mod tera_renderer;
pub mod utils;
pub mod value;

use crate::config::PackageConfig;

verus! {

/// The working directory's state before a descriptor has been demanded.
#[derive(Debug)]
pub struct Context {
    pub config_path: String,
    pub directory_path: String,
    pub directory_name: String,
    pub current_config: Option<PackageConfig>,
}

/// A context whose descriptor is known to exist.
#[derive(Debug)]
pub struct ResolvedContext {
    pub config_path: String,
    pub directory_path: String,
    pub directory_name: String,
    pub current_config: PackageConfig,
}

impl Context {
    /// Demands the descriptor: a context without one cannot be resolved.
    pub fn resolve(&self) -> (r: Result<ResolvedContext, String>)
        ensures
            match r {
                Ok(rc) => {
                    &&& self.current_config is Some
                    &&& rc.config_path@ == self.config_path@
                    &&& rc.directory_path@ == self.directory_path@
                    &&& rc.directory_name@ == self.directory_name@
                    &&& rc.current_config.deep_view() == self.current_config->0.deep_view()
                },
                Err(msg) => self.current_config is None && msg@
                    == "Unable to resolve context. No valid configuration file was found in the working directory. Please check your ggcode-info.yaml file location."@,
            },
    {
        match &self.current_config {
            Some(config) => Ok(
                ResolvedContext {
                    config_path: self.config_path.clone(),
                    directory_path: self.directory_path.clone(),
                    directory_name: self.directory_name.clone(),
                    current_config: config.clone(),
                },
            ),
            None => Err(
                "Unable to resolve context. No valid configuration file was found in the working directory. Please check your ggcode-info.yaml file location.".to_owned(),
            ),
        }
    }
}

} // verus!
