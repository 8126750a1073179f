//! Environment profiles: named sets of scripts to begin with.

use vstd::prelude::*;
use vstd::string::*;

verus! {

/// What a machine is set up for.
#[derive(Debug, Clone, Copy, PartialEq, Eq, Structural)]
pub enum EnvironmentProfile {
    Development,
    Server,
    EdgeRuntime,
    Minimal,
    Custom,
}

impl EnvironmentProfile {
    /// The name of the profile as it is shown.
    pub open spec fn label(self) -> Seq<char> {
        match self {
            EnvironmentProfile::Development => "Development Machine"@,
            EnvironmentProfile::Server => "Server"@,
            EnvironmentProfile::EdgeRuntime => "Edge Runtime"@,
            EnvironmentProfile::Minimal => "Minimal"@,
            EnvironmentProfile::Custom => "Custom"@,
        }
    }

    /// The file names of the scripts that the profile starts with.
    pub open spec fn default_scripts(self) -> Seq<Seq<char>> {
        match self {
            EnvironmentProfile::Development => seq![
                "apt.sh"@,
                "git.sh"@,
                "python.sh"@,
                "nodejs.sh"@,
                "flutter.sh"@,
                "docker-desktop.sh"@,
                "neovim.sh"@,
            ],
            EnvironmentProfile::Server => seq![
                "apt.sh"@,
                "git.sh"@,
                "python.sh"@,
                "nodejs.sh"@,
                "openssh-server.sh"@,
                "podman.sh"@,
            ],
            EnvironmentProfile::EdgeRuntime => seq![
                "apt.sh"@,
                "git.sh"@,
                "python.sh"@,
                "nodejs.sh"@,
            ],
            EnvironmentProfile::Minimal => seq!["apt.sh"@, "git.sh"@],
            EnvironmentProfile::Custom => Seq::empty(),
        }
    }

    /// All profiles, in the order in which they are offered.
    pub fn all() -> (profiles: Vec<EnvironmentProfile>)
        ensures
            profiles@ == seq![
                EnvironmentProfile::Development,
                EnvironmentProfile::Server,
                EnvironmentProfile::EdgeRuntime,
                EnvironmentProfile::Minimal,
                EnvironmentProfile::Custom,
            ],
    {
        let mut profiles: Vec<EnvironmentProfile> = Vec::new();
        profiles.push(EnvironmentProfile::Development);
        profiles.push(EnvironmentProfile::Server);
        profiles.push(EnvironmentProfile::EdgeRuntime);
        profiles.push(EnvironmentProfile::Minimal);
        profiles.push(EnvironmentProfile::Custom);
        assert(profiles@ =~= seq![
            EnvironmentProfile::Development,
            EnvironmentProfile::Server,
            EnvironmentProfile::EdgeRuntime,
            EnvironmentProfile::Minimal,
            EnvironmentProfile::Custom,
        ]);
        profiles
    }

    /// The file names of the scripts that the profile starts with.
    pub fn get_default_scripts(&self) -> (scripts: Vec<&'static str>)
        ensures
            scripts.len() == self.default_scripts().len(),
            forall|i: int| 0 <= i < scripts.len() ==> scripts[i]@ == self.default_scripts()[i],
    {
        let mut scripts: Vec<&'static str> = Vec::new();
        match self {
            EnvironmentProfile::Development => {
                scripts.push("apt.sh");
                scripts.push("git.sh");
                scripts.push("python.sh");
                scripts.push("nodejs.sh");
                scripts.push("flutter.sh");
                scripts.push("docker-desktop.sh");
                scripts.push("neovim.sh");
            },
            EnvironmentProfile::Server => {
                scripts.push("apt.sh");
                scripts.push("git.sh");
                scripts.push("python.sh");
                scripts.push("nodejs.sh");
                scripts.push("openssh-server.sh");
                scripts.push("podman.sh");
            },
            EnvironmentProfile::EdgeRuntime => {
                scripts.push("apt.sh");
                scripts.push("git.sh");
                scripts.push("python.sh");
                scripts.push("nodejs.sh");
            },
            EnvironmentProfile::Minimal => {
                scripts.push("apt.sh");
                scripts.push("git.sh");
            },
            EnvironmentProfile::Custom => {},
        }
        scripts
    }

    /// The name of the profile as it is shown.
    pub fn to_string(&self) -> (text: String)
        ensures
            text@ == self.label(),
    {
        match self {
            EnvironmentProfile::Development => String::from_str("Development Machine"),
            EnvironmentProfile::Server => String::from_str("Server"),
            EnvironmentProfile::EdgeRuntime => String::from_str("Edge Runtime"),
            EnvironmentProfile::Minimal => String::from_str("Minimal"),
            EnvironmentProfile::Custom => String::from_str("Custom"),
        }
    }
}

} // verus!
