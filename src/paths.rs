use vstd::prelude::*;
use vstd::string::*;

verus! {

/// The platform family that decides how an environment lays out its binaries.
#[derive(Clone, Copy, Debug, PartialEq, Eq, Structural)]
pub enum Target {
    Windows,
    Unix,
}

/// The name of the directory that holds an environment's binaries.
pub open spec fn bin_dir_name(t: Target) -> Seq<char> {
    match t {
        Target::Windows => seq!['S', 'c', 'r', 'i', 'p', 't', 's'],
        Target::Unix => seq!['b', 'i', 'n'],
    }
}

/// `./<root>/<bin>/`
pub open spec fn bin_dir_path(root: Seq<char>, t: Target) -> Seq<char> {
    seq!['.', '/'] + root + seq!['/'] + bin_dir_name(t) + seq!['/']
}

fn bin_dir_str(t: Target) -> (r: &'static str)
    ensures
        r@ == bin_dir_name(t),
{
    match t {
        Target::Windows => {
            proof { reveal_strlit("Scripts"); }
            "Scripts"
        },
        Target::Unix => {
            proof { reveal_strlit("bin"); }
            "bin"
        },
    }
}

/// The directory that holds the environment's binaries.
pub fn get_venv_bin_dir(venv_root: &str, target: Target) -> (r: String)
    ensures
        r@ == bin_dir_path(venv_root@, target),
{
    proof { reveal_strlit("./"); reveal_strlit("/"); }
    let mut s = String::from_str("./");
    s.append(venv_root);
    s.append("/");
    s.append(bin_dir_str(target));
    s.append("/");
    proof { assert(s@ =~= bin_dir_path(venv_root@, target)); }
    s
}

/// The interpreter's file name.
pub open spec fn python_name(t: Target) -> Seq<char> {
    match t {
        Target::Windows => seq!['p', 'y', 't', 'h', 'o', 'n', '.', 'e', 'x', 'e'],
        Target::Unix => seq!['p', 'y', 't', 'h', 'o', 'n'],
    }
}

/// The installer's file name.
pub open spec fn pip_name(t: Target) -> Seq<char> {
    match t {
        Target::Windows => seq!['p', 'i', 'p', '.', 'e', 'x', 'e'],
        Target::Unix => seq!['p', 'i', 'p'],
    }
}

fn python_str(t: Target) -> (r: &'static str)
    ensures
        r@ == python_name(t),
{
    match t {
        Target::Windows => {
            proof { reveal_strlit("python.exe"); }
            "python.exe"
        },
        Target::Unix => {
            proof { reveal_strlit("python"); }
            "python"
        },
    }
}

fn pip_str(t: Target) -> (r: &'static str)
    ensures
        r@ == pip_name(t),
{
    match t {
        Target::Windows => {
            proof { reveal_strlit("pip.exe"); }
            "pip.exe"
        },
        Target::Unix => {
            proof { reveal_strlit("pip"); }
            "pip"
        },
    }
}

/// The environment's interpreter binary.
pub fn get_venv_python_path(venv_root: &str, target: Target) -> (r: String)
    ensures
        r@ == bin_dir_path(venv_root@, target) + python_name(target),
{
    let mut s = get_venv_bin_dir(venv_root, target);
    s.append(python_str(target));
    s
}

/// The environment's installer binary.
pub fn get_venv_pip_path(venv_root: &str, target: Target) -> (r: String)
    ensures
        r@ == bin_dir_path(venv_root@, target) + pip_name(target),
{
    let mut s = get_venv_bin_dir(venv_root, target);
    s.append(pip_str(target));
    s
}

pub open spec fn config_file_name() -> Seq<char> {
    seq!['p', 'r', 'o', 'j', 'e', 'c', 't', '.', 't', 'o', 'm', 'l']
}

pub open spec fn requirements_file_name() -> Seq<char> {
    seq!['r', 'e', 'q', 'u', 'i', 'r', 'e', 'm', 'e', 'n', 't', 's', '.', 't', 'x', 't']
}

/// The project's config file, relative to the project directory.
pub fn get_project_config_file() -> (r: &'static str)
    ensures
        r@ == config_file_name(),
{
    proof { reveal_strlit("project.toml"); }
    "project.toml"
}

/// The generated requirements file.
pub fn get_requirements_file() -> (r: &'static str)
    ensures
        r@ == requirements_file_name(),
{
    proof { reveal_strlit("requirements.txt"); }
    "requirements.txt"
}

} // verus!
