//! The settings page's Java 8 upgrade: the three runtimes it offers, where
//! each is downloaded from, where the game's runtime lies, and the choices
//! made while installing one.

use vstd::prelude::*;

use crate::jre::{infer_is_gz, spec_is_gz, FindBy, JRE_BACKUP, ORIGINAL_JRE_BACKUP};
use crate::text::{push_str, string_of};
use crate::vmparams::TargetOs;

verus! {

/// A Java 8 runtime the settings page can install.
#[derive(Debug, Clone, Copy, PartialEq, Eq, Structural)]
pub enum Flavour {
    Coretto,
    Hotspot,
    Wisp,
}

/// What the marker file in the game's runtime folder holds.
#[derive(Debug, Clone, Copy, PartialEq, Eq, Structural)]
pub enum Marker {
    Missing,
    Holds(Flavour),
    Unreadable,
}

/// How the new runtime takes the place of the game's own.
#[derive(Debug, Clone, Copy, PartialEq, Eq, Structural)]
pub enum Placement {
    /// The game's runtime folder is moved aside and the new one moved in.
    Move,
    /// The game's runtime folder is moved aside (or, when it is a link,
    /// removed) and a link to the kept copy put in its place.
    Link,
}

pub const CORETTO_WINDOWS: &'static str = "https://corretto.aws/downloads/resources/8.272.10.3/amazon-corretto-8.272.10.3-windows-x64-jre.zip";
pub const HOTSPOT_WINDOWS: &'static str = "https://github.com/AdoptOpenJDK/openjdk8-binaries/releases/download/jdk8u272-b10/OpenJDK8U-jre_x64_windows_hotspot_8u272b10.zip";
pub const WISP_WINDOWS: &'static str = "https://drive.google.com/uc?export=download&id=155Lk0ml9AUGp5NwtTZGpdu7e7Ehdyeth&confirm=t";

pub const CORETTO_MACOS: &'static str = "https://corretto.aws/downloads/resources/8.272.10.3/amazon-corretto-8.272.10.3-linux-x64.tar.gz";
pub const HOTSPOT_MACOS: &'static str = "https://github.com/AdoptOpenJDK/openjdk8-binaries/releases/download/jdk8u272-b10/OpenJDK8U-jre_x64_linux_hotspot_8u272b10.tar.gz";
pub const WISP_MACOS: &'static str = "https://drive.google.com/uc?export=download&id=1PW9v_CL719buKHe69GaN9fCXcPIqDOIi&confirm=t";

pub const CORETTO_LINUX: &'static str = "https://corretto.aws/downloads/resources/8.272.10.3/amazon-corretto-8.272.10.3-macosx-x64.tar.gz";
pub const HOTSPOT_LINUX: &'static str = "https://github.com/AdoptOpenJDK/openjdk8-binaries/releases/download/jdk8u272-b10/OpenJDK8U-jre_x64_mac_hotspot_8u272b10.tar.gz";
pub const WISP_LINUX: &'static str = "https://drive.google.com/uc?export=download&id=1TRHjle6-MOpn1zJhtSA9yvwXIQip_F_n&confirm=t";

/// The download address of each runtime on each system, as this page has
/// them (the macOS build carries the Linux archives and the Linux build the
/// macOS ones).
pub open spec fn spec_url(f: Flavour, os: TargetOs) -> Seq<char> {
    match os {
        TargetOs::Windows => match f {
            Flavour::Coretto => CORETTO_WINDOWS@,
            Flavour::Hotspot => HOTSPOT_WINDOWS@,
            Flavour::Wisp => WISP_WINDOWS@,
        },
        TargetOs::MacOs => match f {
            Flavour::Coretto => CORETTO_MACOS@,
            Flavour::Hotspot => HOTSPOT_MACOS@,
            Flavour::Wisp => WISP_MACOS@,
        },
        TargetOs::Linux => match f {
            Flavour::Coretto => CORETTO_LINUX@,
            Flavour::Hotspot => HOTSPOT_LINUX@,
            Flavour::Wisp => WISP_LINUX@,
        },
    }
}

/// The game's runtime folder on each system, as this page has it.
pub open spec fn spec_jre_path(os: TargetOs) -> Seq<char> {
    match os {
        TargetOs::Windows => "jre"@,
        TargetOs::MacOs => "jre_linux"@,
        TargetOs::Linux => "Contents/Home"@,
    }
}

/// The runtime's name.
pub open spec fn flavour_name(f: Flavour) -> Seq<char> {
    match f {
        Flavour::Coretto => "Coretto"@,
        Flavour::Hotspot => "Hotspot"@,
        Flavour::Wisp => "Wisp"@,
    }
}

/// The folder name a replaced runtime is moved to (see
/// `crate::jre::spec_backup_name`).
pub open spec fn spec_backup_name(is_java_7: bool, marker: Marker) -> Option<Seq<char>> {
    if is_java_7 {
        Some(ORIGINAL_JRE_BACKUP@)
    } else {
        match marker {
            Marker::Holds(f) => Some("jre_"@ + flavour_name(f)),
            Marker::Missing => Some(JRE_BACKUP@),
            Marker::Unreadable => None,
        }
    }
}

/// The game's runtime folder on `os`.
pub fn jre_path(os: TargetOs) -> (r: &'static str)
    ensures
        r@ == spec_jre_path(os),
{
    match os {
        TargetOs::Windows => "jre",
        TargetOs::MacOs => "jre_linux",
        TargetOs::Linux => "Contents/Home",
    }
}

/// Whether a downloaded archive is a gzip file; anything else is handed to
/// the general unpacker.
pub fn is_gzip(buf: &[u8]) -> (r: bool)
    ensures
        r == spec_is_gz(buf@),
{
    infer_is_gz(buf)
}

/// The name of the folder a replaced runtime is moved to.
pub fn backup_name(is_java_7: bool, marker: Marker) -> (r: Option<String>)
    ensures
        r.deep_view() == spec_backup_name(is_java_7, marker),
{
    if is_java_7 {
        Some(String::from_str(ORIGINAL_JRE_BACKUP))
    } else {
        match marker {
            Marker::Holds(f) => Some(f.dir_name()),
            Marker::Missing => Some(String::from_str(JRE_BACKUP)),
            Marker::Unreadable => None,
        }
    }
}

impl Flavour {
    /// The runtime's name.
    pub fn name(&self) -> (r: &'static str)
        ensures
            r@ == flavour_name(*self),
    {
        match self {
            Flavour::Coretto => "Coretto",
            Flavour::Hotspot => "Hotspot",
            Flavour::Wisp => "Wisp",
        }
    }

    /// `jre_` followed by the runtime's name: the folder the downloaded
    /// runtime is kept in.
    pub fn dir_name(&self) -> (r: String)
        ensures
            r@ == "jre_"@ + flavour_name(*self),
    {
        let mut out: Vec<char> = Vec::new();
        push_str(&mut out, "jre_");
        push_str(&mut out, self.name());
        string_of(&out)
    }

    /// The download address of the runtime on `os`.
    pub fn get_url(&self, os: TargetOs) -> (r: String)
        ensures
            r@ == spec_url(*self, os),
    {
        let url = match os {
            TargetOs::Windows => match self {
                Flavour::Coretto => CORETTO_WINDOWS,
                Flavour::Hotspot => HOTSPOT_WINDOWS,
                Flavour::Wisp => WISP_WINDOWS,
            },
            TargetOs::MacOs => match self {
                Flavour::Coretto => CORETTO_MACOS,
                Flavour::Hotspot => HOTSPOT_MACOS,
                Flavour::Wisp => WISP_MACOS,
            },
            TargetOs::Linux => match self {
                Flavour::Coretto => CORETTO_LINUX,
                Flavour::Hotspot => HOTSPOT_LINUX,
                Flavour::Wisp => WISP_LINUX,
            },
        };
        String::from_str(url)
    }

    /// How the runtime is found in its unpacked archive: by its `bin` folder
    /// on Windows, as a folder named `jre` elsewhere.
    pub fn search_strategy(os: TargetOs) -> (r: FindBy)
        ensures
            r == (if os == TargetOs::Windows {
                FindBy::Bin
            } else {
                FindBy::Jre
            }),
    {
        if os == TargetOs::Windows {
            FindBy::Bin
        } else {
            FindBy::Jre
        }
    }

    /// Whether this runtime is already the game's: its marker file names it.
    pub fn is_installed(&self, marker: Marker) -> (r: bool)
        ensures
            r == (marker == Marker::Holds(*self)),
    {
        match marker {
            Marker::Holds(f) => f == *self,
            _ => false,
        }
    }

    /// How the runtime is put in place: linked to the kept copy when the
    /// manager keeps its own copies, moved in otherwise.
    pub fn placement(managed: bool) -> (r: Placement)
        ensures
            r == (if managed {
                Placement::Link
            } else {
                Placement::Move
            }),
    {
        if managed {
            Placement::Link
        } else {
            Placement::Move
        }
    }
}

} // verus!
