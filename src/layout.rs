//! Fixed names of the project layout and the choice of the project directory.
use vstd::prelude::*;
use vstd::string::*;

verus! {

/// Where the application project was found.
#[derive(Clone, Copy, Debug, PartialEq, Eq, Structural)]
pub enum ProjectDirChoice {
    /// `<working directory>/<project dir name>`.
    Current,
    /// `<parent of the working directory>/<project dir name>`.
    Parent,
    /// `<installation root>/<project dir name>`, whether it exists or not.
    Fallback,
}

/// The first candidate that is an existing directory, the fallback when
/// neither is.
pub fn choose_project_dir(in_current: bool, in_parent: bool) -> (r: ProjectDirChoice)
    ensures
        r == (if in_current {
            ProjectDirChoice::Current
        } else if in_parent {
            ProjectDirChoice::Parent
        } else {
            ProjectDirChoice::Fallback
        }),
{
    if in_current {
        ProjectDirChoice::Current
    } else if in_parent {
        ProjectDirChoice::Parent
    } else {
        ProjectDirChoice::Fallback
    }
}

/// Name of the application project directory.
pub fn project_dir_name() -> (r: &'static str)
    ensures
        r@ == "kimi-electron-client"@,
{
    "kimi-electron-client"
}

/// Name of the release tree's root, inside the project directory.
pub fn release_dir_name() -> (r: &'static str)
    ensures
        r@ == "releases"@,
{
    "releases"
}

/// Name of the directory, inside the project, where the packaging tool
/// writes its output.
pub fn build_output_dir_name() -> (r: &'static str)
    ensures
        r@ == "dist"@,
{
    "dist"
}

/// The package manager that installs and builds the project.
pub fn package_manager() -> (r: &'static str)
    ensures
        r@ == "npm"@,
{
    "npm"
}

/// Arguments of the package manager's dependency installation.
pub fn install_args() -> (r: Vec<String>)
    ensures
        r.deep_view() == seq!["install"@],
{
    let mut r: Vec<String> = Vec::new();
    r.push(String::from_str("install"));
    proof {
        assert(r.deep_view() =~= seq!["install"@]);
    }
    r
}

} // verus!
