//! A project manager for Python projects: the declared config, package
//! specs, environment paths, and the batch update of all packages.
use vstd::prelude::*;

pub mod paths;
pub mod reconcile;
pub mod index;
pub mod laws;
pub mod package;
pub mod settings;

verus! {

} // verus!
