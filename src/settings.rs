//! The declared project state: metadata, pinned packages and scripts.
use vstd::prelude::*;
use vstd::string::*;
use crate::reconcile::{entries, keys_unique};

verus! {

/// The environment directory used when the project names none.
pub open spec fn default_venv() -> Seq<char> {
    seq!['v', 'e', 'n', 'v']
}

#[derive(Clone, Debug)]
pub struct Project {
    pub name: String,
    pub version: String,
    pub description: String,
    pub main_script: String,
    pub venv: Option<String>,
}

impl Project {
    pub fn new(
        name: String,
        version: String,
        description: String,
        main_script: String,
        venv: Option<String>,
    ) -> (r: Project)
        ensures
            r.name == name,
            r.version == version,
            r.description == description,
            r.main_script == main_script,
            r.venv == venv,
    {
        Project { name, version, description, main_script, venv }
    }

    /// The project's environment directory, `venv` when none is configured.
    pub fn venv_root(&self) -> (r: String)
        ensures
            r@ == (match self.venv {
                Some(v) => v@,
                None => default_venv(),
            }),
    {
        match &self.venv {
            Some(v) => v.clone(),
            None => {
                proof { reveal_strlit("venv"); }
                String::from_str("venv")
            },
        }
    }
}

/// A project with its package manifest (name to pinned version) and its
/// scripts (name to command), each kept in a stable order.
#[derive(Clone, Debug)]
pub struct Config {
    pub project: Project,
    pub packages: Vec<(String, String)>,
    pub scripts: Vec<(String, String)>,
}

impl Config {
    /// Each package and each script name occurs once.
    pub open spec fn wf(&self) -> bool {
        keys_unique(entries(self.packages@)) && keys_unique(entries(self.scripts@))
    }

    pub fn new(project: Project, packages: Vec<(String, String)>, scripts: Vec<(String, String)>) -> (r:
        Config)
        requires
            keys_unique(entries(packages@)),
            keys_unique(entries(scripts@)),
        ensures
            r.wf(),
            r.project == project,
            r.packages == packages,
            r.scripts == scripts,
    {
        Config { project, packages, scripts }
    }
}

} // verus!
