//! Deciding which package manager a project uses.
//!
//! The decision is a pure function of what the caller found in the project
//! directory; probing the directory itself stays with the caller.

use crate::text;
use vstd::prelude::*;

verus! {

/// The package managers a conversion can start from.
#[derive(Debug, Clone, Copy, PartialEq, Eq, Structural)]
pub enum PackageManager {
    Pipenv,
    Poetry,
}

impl PackageManager {
    /// The manager's name.
    pub fn name(&self) -> (r: String)
        ensures
            *self == PackageManager::Pipenv ==> r@ == "Pipenv"@,
            *self == PackageManager::Poetry ==> r@ == "Poetry"@,
    {
        match self {
            PackageManager::Pipenv => text::string_from_chars(&text::chars_of("Pipenv")),
            PackageManager::Poetry => text::string_from_chars(&text::chars_of("Poetry")),
        }
    }
}

/// What the caller found in the project directory.
#[derive(Debug, Clone, Copy, PartialEq, Eq, Structural)]
pub struct ProjectProbe {
    pub path_exists: bool,
    pub is_dir: bool,
    pub pyproject_exists: bool,
    pub pyproject_has_poetry_section: bool,
    pub pipfile_exists: bool,
}

pub open spec fn msg_no_file(file: Seq<char>) -> Seq<char> {
    "Directory does not contain a "@ + file + " file."@
}

pub open spec fn msg_no_poetry_section() -> Seq<char> {
    "pyproject.toml does not contain a [tool.poetry] section."@
}

pub open spec fn msg_does_not_exist(path: Seq<char>) -> Seq<char> {
    path + " does not exist."@
}

pub open spec fn msg_not_a_directory(path: Seq<char>) -> Seq<char> {
    path + " is not a directory."@
}

pub open spec fn msg_undetected() -> Seq<char> {
    "Could not determine which package manager is used from the ones that are supported."@
}

/// Whether the probe shows the manager's own manifest.
pub open spec fn spec_detected(m: PackageManager, probe: ProjectProbe) -> bool {
    match m {
        PackageManager::Poetry => probe.pyproject_exists && probe.pyproject_has_poetry_section,
        PackageManager::Pipenv => probe.pipfile_exists,
    }
}

/// What a failed detection of the manager reports.
pub open spec fn spec_detect_error(m: PackageManager, probe: ProjectProbe) -> Seq<char> {
    match m {
        PackageManager::Poetry => if !probe.pyproject_exists {
            msg_no_file("pyproject.toml"@)
        } else {
            msg_no_poetry_section()
        },
        PackageManager::Pipenv => msg_no_file("Pipfile"@),
    }
}

fn detect_error(m: PackageManager, probe: ProjectProbe) -> (r: String)
    ensures
        r@ == spec_detect_error(m, probe),
{
    match m {
        PackageManager::Poetry => {
            if !probe.pyproject_exists {
                let mut out: Vec<char> = Vec::new();
                text::append_str(&mut out, "Directory does not contain a ");
                text::append_str(&mut out, "pyproject.toml");
                text::append_str(&mut out, " file.");
                proof {
                    assert(out@ =~= msg_no_file("pyproject.toml"@));
                }
                text::string_from_chars(&out)
            } else {
                text::string_from_chars(
                    &text::chars_of("pyproject.toml does not contain a [tool.poetry] section."),
                )
            }
        },
        PackageManager::Pipenv => {
            let mut out: Vec<char> = Vec::new();
            text::append_str(&mut out, "Directory does not contain a ");
            text::append_str(&mut out, "Pipfile");
            text::append_str(&mut out, " file.");
            proof {
                assert(out@ =~= msg_no_file("Pipfile"@));
            }
            text::string_from_chars(&out)
        },
    }
}

/// Decide which converter a project takes: an enforced manager must be
/// detected; otherwise Poetry is tried before Pipenv; a path that is missing
/// or not a directory, or a project no manager claims, is an error naming the
/// problem.
pub fn get_converter(
    project_path: &str,
    probe: ProjectProbe,
    enforced_package_manager: Option<PackageManager>,
) -> (r: Result<PackageManager, String>)
    ensures
        !probe.path_exists ==> (r matches Err(e) && e@ == msg_does_not_exist(project_path@)),
        probe.path_exists && !probe.is_dir ==> (r matches Err(e) && e@ == msg_not_a_directory(
            project_path@,
        )),
        probe.path_exists && probe.is_dir ==> match enforced_package_manager {
            Some(m) => {
                if spec_detected(m, probe) {
                    r == Ok::<PackageManager, String>(m)
                } else {
                    (r matches Err(e) && e@ == spec_detect_error(m, probe))
                }
            },
            None => {
                if spec_detected(PackageManager::Poetry, probe) {
                    r == Ok::<PackageManager, String>(PackageManager::Poetry)
                } else if spec_detected(PackageManager::Pipenv, probe) {
                    r == Ok::<PackageManager, String>(PackageManager::Pipenv)
                } else {
                    (r matches Err(e) && e@ == msg_undetected())
                }
            },
        },
{
    if !probe.path_exists {
        let mut out: Vec<char> = Vec::new();
        text::append_str(&mut out, project_path);
        text::append_str(&mut out, " does not exist.");
        proof {
            assert(out@ =~= msg_does_not_exist(project_path@));
        }
        return Err(text::string_from_chars(&out));
    }
    if !probe.is_dir {
        let mut out: Vec<char> = Vec::new();
        text::append_str(&mut out, project_path);
        text::append_str(&mut out, " is not a directory.");
        proof {
            assert(out@ =~= msg_not_a_directory(project_path@));
        }
        return Err(text::string_from_chars(&out));
    }
    match enforced_package_manager {
        Some(m) => {
            let detected = match m {
                PackageManager::Poetry => probe.pyproject_exists
                    && probe.pyproject_has_poetry_section,
                PackageManager::Pipenv => probe.pipfile_exists,
            };
            if detected {
                Ok(m)
            } else {
                Err(detect_error(m, probe))
            }
        },
        None => {
            if probe.pyproject_exists && probe.pyproject_has_poetry_section {
                Ok(PackageManager::Poetry)
            } else if probe.pipfile_exists {
                Ok(PackageManager::Pipenv)
            } else {
                Err(
                    text::string_from_chars(
                        &text::chars_of(
                            "Could not determine which package manager is used from the ones that are supported.",
                        ),
                    ),
                )
            }
        },
    }
}

} // verus!
