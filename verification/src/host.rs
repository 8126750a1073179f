//! The host operating system, as the caller detected it, and the family of
//! scripts that belongs to it.

use vstd::prelude::*;
use vstd::string::*;

verus! {

/// The operating system of the host. `Other` stands for every system that has
/// no scripts of its own.
#[derive(Clone, Copy, PartialEq, Eq, Debug, Structural)]
pub enum HostOs {
    Ubuntu,
    Pop,
    Raspbian,
    Kali,
    Debian,
    Macos,
    Alpine,
    Windows,
    Other,
}

/// A family of operating systems that share one directory of scripts.
#[derive(Clone, Copy, PartialEq, Eq, Debug, Structural)]
pub enum OsFamily {
    Debian,
    Darwin,
    Alpine,
    Windows,
}

/// A host whose operating system has no family.
#[derive(Clone, Copy, PartialEq, Eq, Debug, Structural)]
pub struct UnsupportedOs {
    pub os: HostOs,
}

impl OsFamily {
    /// The name of the family's directory below the scripts directory.
    pub open spec fn tag(self) -> Seq<char> {
        match self {
            OsFamily::Debian => "debian"@,
            OsFamily::Darwin => "darwin"@,
            OsFamily::Alpine => "alpine"@,
            OsFamily::Windows => "windows"@,
        }
    }

    /// The name of the family's directory below the scripts directory.
    pub fn dir_name(self) -> (name: &'static str)
        ensures
            name@ == self.tag(),
    {
        match self {
            OsFamily::Debian => "debian",
            OsFamily::Darwin => "darwin",
            OsFamily::Alpine => "alpine",
            OsFamily::Windows => "windows",
        }
    }
}

impl HostOs {
    /// The family of the host: the Debian derivatives form one, macOS, Alpine
    /// and Windows one each, and no other system has one.
    pub open spec fn family(self) -> Option<OsFamily> {
        match self {
            HostOs::Ubuntu | HostOs::Pop | HostOs::Raspbian | HostOs::Kali | HostOs::Debian => Some(
                OsFamily::Debian,
            ),
            HostOs::Macos => Some(OsFamily::Darwin),
            HostOs::Alpine => Some(OsFamily::Alpine),
            HostOs::Windows => Some(OsFamily::Windows),
            HostOs::Other => None,
        }
    }

    /// Whether the host belongs to the Windows family.
    pub open spec fn is_windows(self) -> bool {
        self == HostOs::Windows
    }

    /// The family of the host, where it has one.
    pub fn os_family(self) -> (family: Option<OsFamily>)
        ensures
            family == self.family(),
    {
        match self {
            HostOs::Ubuntu | HostOs::Pop | HostOs::Raspbian | HostOs::Kali | HostOs::Debian => Some(
                OsFamily::Debian,
            ),
            HostOs::Macos => Some(OsFamily::Darwin),
            HostOs::Alpine => Some(OsFamily::Alpine),
            HostOs::Windows => Some(OsFamily::Windows),
            HostOs::Other => None,
        }
    }

    /// Whether the host belongs to the Windows family.
    pub fn windows(self) -> (w: bool)
        ensures
            w == self.is_windows(),
    {
        match self {
            HostOs::Windows => true,
            _ => false,
        }
    }
}

/// The name of the directory that holds the scripts of the host's family, or
/// the host itself where it has no family.
pub fn resolve_os_script_directory(os_type: HostOs) -> (dir: Result<String, UnsupportedOs>)
    ensures
        match dir {
            Ok(name) => os_type.family() matches Some(family) && name@ == family.tag(),
            Err(e) => os_type.family() is None && e.os == os_type,
        },
{
    match os_type.os_family() {
        Some(family) => Ok(String::from_str(family.dir_name())),
        None => Err(UnsupportedOs { os: os_type }),
    }
}

} // verus!
