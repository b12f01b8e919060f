//! Updating the installed program in place.
use vstd::prelude::*;

use crate::paths;
use crate::text;

verus! {

/// What is needed to install the program anew where it is.
#[derive(Clone, Debug)]
pub struct UpdatePlan {
    pub executable: String,
    pub install_root: String,
}

/// Why the program cannot be updated in place.
#[derive(Clone, Copy, Debug, PartialEq, Eq, Structural)]
pub enum UpdateError {
    /// The program has another name.
    Renamed,
    /// The program is in no directory.
    NoDirectory,
    /// The program is not in a directory of programs.
    OutsideBin,
    /// The directory of programs is in no directory.
    NoInstallRoot,
}

/// Where the program was installed, told by its name, its directory, and the name and the
/// directory of that.
pub open spec fn install_root_of(
    name: Option<Seq<char>>,
    directory: Option<Seq<char>>,
    directory_name: Option<Seq<char>>,
    root: Option<Seq<char>>,
) -> Result<Seq<char>, UpdateError> {
    if name != Some("codex-agent-indicator"@) {
        Err(UpdateError::Renamed)
    } else if directory is None {
        Err(UpdateError::NoDirectory)
    } else if directory_name != Some("bin"@) {
        Err(UpdateError::OutsideBin)
    } else {
        match root {
            Some(root) => Ok(root),
            None => Err(UpdateError::NoInstallRoot),
        }
    }
}

/// The last component of a path is the program.
pub open spec fn names_program(executable: Seq<char>) -> bool {
    let all = paths::components(executable);
    all.len() > 0 && all.last() == "codex-agent-indicator"@
}

/// The last but one component of a path is the directory of programs.
pub open spec fn lies_in_bin(executable: Seq<char>) -> bool {
    let all = paths::components(executable);
    all.len() > 1 && all[all.len() - 2] == "bin"@
}

/// The characters of an optional string.
pub open spec fn shown(text: Option<&str>) -> Option<Seq<char>> {
    match text {
        Some(text) => Some(text@),
        None => None,
    }
}

/// Whether an optional string is given and equal to `expected`.
fn is_text(text: Option<&str>, expected: &str) -> (r: bool)
    ensures
        r == (shown(text) == Some(expected@)),
{
    match text {
        Some(text) => text::same_text(text, expected),
        None => false,
    }
}

/// An optional string as a reference.
fn borrowed(text: &Option<String>) -> (r: Option<&str>)
    ensures
        shown(r) == (match *text {
            Some(text) => Some(text@),
            None => None,
        }),
{
    match text {
        Some(text) => Some(text.as_str()),
        None => None,
    }
}

/// Where the program was installed, told by its name, its directory, and the name and the
/// directory of that.
pub fn check_layout(
    name: Option<&str>,
    directory: Option<&str>,
    directory_name: Option<&str>,
    root: Option<&str>,
) -> (r: Result<String, UpdateError>)
    ensures
        match r {
            Ok(found) => install_root_of(
                shown(name),
                shown(directory),
                shown(directory_name),
                shown(root),
            ) == Ok::<Seq<char>, UpdateError>(found@),
            Err(error) => install_root_of(
                shown(name),
                shown(directory),
                shown(directory_name),
                shown(root),
            ) == Err::<Seq<char>, UpdateError>(error),
        },
{
    if !is_text(name, "codex-agent-indicator") {
        return Err(UpdateError::Renamed);
    }
    if directory.is_none() {
        return Err(UpdateError::NoDirectory);
    }
    if !is_text(directory_name, "bin") {
        return Err(UpdateError::OutsideBin);
    }
    match root {
        Some(root) => Ok(root.to_owned()),
        None => Err(UpdateError::NoInstallRoot),
    }
}

impl UpdateError {
    /// What is wrong with the program `executable`.
    pub fn message(&self, executable: &str) -> (r: String)
        ensures
            r@ == (match *self {
                UpdateError::Renamed => "cannot update executable "@ + executable@
                    + "; expected it to be named codex-agent-indicator"@,
                UpdateError::NoDirectory => "cannot determine the executable directory"@,
                UpdateError::OutsideBin => "cannot determine the install root for "@ + executable@
                    + "; expected the executable inside a bin directory"@,
                UpdateError::NoInstallRoot => "cannot determine the Cargo install root"@,
            }),
    {
        match self {
            UpdateError::Renamed => {
                let mut r: String = "cannot update executable ".to_owned();
                r.append(executable);
                r.append("; expected it to be named codex-agent-indicator");
                r
            },
            UpdateError::NoDirectory => "cannot determine the executable directory".to_owned(),
            UpdateError::OutsideBin => {
                let mut r: String = "cannot determine the install root for ".to_owned();
                r.append(executable);
                r.append("; expected the executable inside a bin directory");
                r
            },
            UpdateError::NoInstallRoot => "cannot determine the Cargo install root".to_owned(),
        }
    }
}

impl UpdatePlan {
    /// The plan for the program `executable`: its path ends in the directory of programs and its
    /// name, and it was installed in what stands before them.
    pub fn from_executable(executable: &str) -> (r: Result<Self, UpdateError>)
        ensures
            match r {
                Ok(plan) => {
                    let all = paths::components(executable@);
                    &&& names_program(executable@)
                    &&& lies_in_bin(executable@)
                    &&& plan.executable@ == executable@
                    &&& paths::components(plan.install_root@) == all.take(all.len() - 2)
                    &&& paths::parent_of(executable@) matches Some(directory) && paths::parent_of(
                        directory,
                    ) == Some(plan.install_root@)
                },
                Err(UpdateError::Renamed) => !names_program(executable@),
                Err(UpdateError::OutsideBin) => names_program(executable@) && !lies_in_bin(
                    executable@,
                ),
                Err(UpdateError::NoDirectory) => false,
                Err(UpdateError::NoInstallRoot) => false,
            },
    {
        proof {
            reveal_strlit("codex-agent-indicator");
            reveal_strlit("bin");
            reveal_strlit("/");
            reveal_strlit(".");
            reveal_strlit("..");
            assert("bin"@.len() == 3);
            assert("codex-agent-indicator"@.len() == 21);
        }
        let name: Option<String> = paths::file_name(executable);
        let directory: Option<String> = paths::parent(executable);
        let directory_name: Option<String> = match &directory {
            Some(directory) => paths::file_name(directory.as_str()),
            None => None,
        };
        let root: Option<String> = match &directory {
            Some(directory) => paths::parent(directory.as_str()),
            None => None,
        };
        match check_layout(
            borrowed(&name),
            borrowed(&directory),
            borrowed(&directory_name),
            borrowed(&root),
        ) {
            Ok(install_root) => Ok(UpdatePlan { executable: executable.to_owned(), install_root }),
            Err(error) => Err(error),
        }
    }

    /// What to tell `cargo` to install the program anew where it is.
    pub fn cargo_arguments(&self) -> (r: Vec<String>)
        ensures
            r@.map_values(|argument: String| argument@) == seq![
                "install"@,
                "codex-agent-indicator"@,
                "--registry"@,
                "crates-io"@,
                "--locked"@,
                "--force"@,
                "--root"@,
                self.install_root@,
            ],
    {
        let r: Vec<String> = vec![
            "install".to_owned(),
            "codex-agent-indicator".to_owned(),
            "--registry".to_owned(),
            "crates-io".to_owned(),
            "--locked".to_owned(),
            "--force".to_owned(),
            "--root".to_owned(),
            self.install_root.clone(),
        ];
        assert(r@.map_values(|argument: String| argument@) =~= seq![
            "install"@,
            "codex-agent-indicator"@,
            "--registry"@,
            "crates-io"@,
            "--locked"@,
            "--force"@,
            "--root"@,
            self.install_root@,
        ]);
        r
    }

    /// Whether the program is the one that the login service runs, so that the service has to be
    /// restarted. `service_installed` says whether there is such a service.
    pub fn is_managed(&self, home: &str, service_installed: bool) -> (r: bool)
        ensures
            r == (service_installed && paths::components(self.executable@) == paths::components(
                managed_program(home@),
            )),
    {
        let directory: String = paths::join(home, ".local/bin");
        let program: String = paths::join(directory.as_str(), "codex-agent-indicator");
        service_installed && paths::is_same(self.executable.as_str(), program.as_str())
    }
}

/// The program that the login service runs.
pub open spec fn managed_program(home: Seq<char>) -> Seq<char> {
    paths::joined(paths::joined(home, ".local/bin"@), "codex-agent-indicator"@)
}

/// The program that the login service runs lies in the user's own directory of programs.
pub proof fn law_managed_program_lies_in_home(home: Seq<char>)
    ensures
        paths::components(managed_program(home)) == paths::components(home) + seq![
            ".local"@,
            "bin"@,
            "codex-agent-indicator"@,
        ],
        names_program(managed_program(home)),
        lies_in_bin(managed_program(home)),
{
    reveal_strlit(".local/bin");
    reveal_strlit(".local");
    reveal_strlit("bin");
    reveal_strlit("codex-agent-indicator");
    reveal_strlit(".");
    assert("codex-agent-indicator"@.len() == 21);
    let local = paths::joined(home, ".local"@);
    let bin = paths::joined(local, "bin"@);
    assert(".local/bin"@ =~= ".local"@.push('/') + "bin"@);
    assert(bin =~= paths::joined(home, ".local/bin"@));
    paths::law_joining_adds_a_component(home, ".local"@);
    paths::law_joining_adds_a_component(local, "bin"@);
    paths::law_joining_adds_a_component(bin, "codex-agent-indicator"@);
    assert(paths::components(managed_program(home)) =~= paths::components(home) + seq![
        ".local"@,
        "bin"@,
        "codex-agent-indicator"@,
    ]);
}

/// The file that describes the login service.
pub fn service_file(home: &str) -> (r: String)
    ensures
        r@ == paths::joined(
            paths::joined(home@, "Library/LaunchAgents"@),
            "com.codex-agent-indicator.plist"@,
        ),
{
    let directory: String = paths::join(home, "Library/LaunchAgents");
    paths::join(directory.as_str(), "com.codex-agent-indicator.plist")
}

/// The name of the login service of a user.
pub fn service_name(user_id: &str) -> (r: String)
    ensures
        r@ == "gui/"@ + text::trimmed(user_id@) + "/com.codex-agent-indicator"@,
{
    let mut r: String = "gui/".to_owned();
    r.append(text::trim(user_id));
    r.append("/com.codex-agent-indicator");
    r
}

} // verus!
