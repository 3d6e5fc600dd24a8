//! The Java runtime swapper: which runtimes can be installed, where each one
//! is downloaded from and how it is found in its archive, what the folders of
//! the installed and cached runtimes are called, and the choices the swapper
//! makes from what it finds on disk.

use vstd::prelude::*;

use crate::text::{
    ascii_words, chars_eq_ignore_ascii_case, chars_of, eq_ignore_ascii_case, first_ascii_word, first_word,
    push_str, string_of,
};
use crate::version::{parse_game_version, spec_parse_game_version, GameVersion, VERSION_SEPARATORS};
use crate::patterns::regex_split_result;
use crate::vmparams::TargetOs;

verus! {

/// A Java runtime the swapper can install.
#[derive(Debug, Clone, Copy, PartialEq, Eq, Structural)]
pub enum Flavour {
    Miko,
    Coretto,
    Hotspot,
    Wisp,
    Azul,
    Original,
}

/// How the runtime's root folder is found in its unpacked archive: as the
/// folder holding a `bin` folder, or as a folder named `jre`.
#[derive(Debug, Clone, Copy, PartialEq, Eq, Structural)]
pub enum FindBy {
    Bin,
    Jre,
}

/// The kind of a downloaded archive, told by its first bytes.
#[derive(Debug, Clone, Copy, PartialEq, Eq, Structural)]
pub enum ArchiveKind {
    Gzip,
    Zip,
    Other,
}

/// What the swapper's marker file in a runtime folder holds.
#[derive(Debug, Clone, Copy, PartialEq, Eq, Structural)]
pub enum DotFile {
    Missing,
    Holds(Flavour),
    Unreadable,
}

/// What the swapper does when a runtime is picked.
#[derive(Debug, Clone, Copy, PartialEq, Eq, Structural)]
pub enum SwapAction {
    /// Only the parameter file is saved.
    SaveOnly,
    /// The parameter file is saved and the original runtime restored.
    Revert,
    /// The parameter file is saved and the runtime installed.
    Install(Flavour),
}

/// How swapping in a runtime proceeds.
#[derive(Debug, Clone, Copy, PartialEq, Eq, Structural)]
pub enum SwapPlan {
    /// The runtime is installed already: nothing is done.
    AlreadyInstalled,
    /// The runtime is moved into place: first downloaded and unpacked into
    /// its own folder when that folder is missing, and the runtime in place
    /// is first renamed to its backup name when there is one.
    Swap { unpack: bool, backup_current: bool },
}

/// What is at the game's runtime path.
#[derive(Debug, Clone, Copy, PartialEq, Eq, Structural)]
pub enum RuntimeEntry {
    Missing,
    Folder,
    Link,
}

/// How restoring the original runtime proceeds.
#[derive(Debug, Clone, Copy, PartialEq, Eq, Structural)]
pub enum RevertPlan {
    /// The original is installed already.
    AlreadyOriginal,
    /// There is no backup of the original to restore.
    NoBackup,
    /// The backup is moved into place, after the runtime in place is kept
    /// under its backup name (a folder), removed (a link), or nothing.
    Restore(RuntimeEntry),
}

/// What one folder of the archive search gives.
#[derive(Debug, Clone, Copy, PartialEq, Eq, Structural)]
pub enum SearchStep {
    /// The folder being read is the runtime.
    ThisFolder,
    /// Its sub-folder at this position is the runtime.
    SubFolder(usize),
    /// Neither: its sub-folders are searched in turn.
    Descend,
}

/// The folder the original runtime is kept in while another is installed.
pub const ORIGINAL_JRE_BACKUP: &'static str = "jre7";

/// The folder an unknown runtime is kept in while another is installed.
pub const JRE_BACKUP: &'static str = "jre.bak";

/// The first word of a Java 7 runtime's `release` file.
pub const JAVA_7_RELEASE: &'static str = "JAVA_VERSION=\"1.7.0\"";

/// The game version that the Miko runtime is offered for.
pub const MIKO_GAME_VERSION: &'static str = "0.97a-RC11";

pub const CORETTO_WINDOWS: &'static str = "https://corretto.aws/downloads/resources/8.272.10.3/amazon-corretto-8.272.10.3-windows-x64-jre.zip";
pub const HOTSPOT_WINDOWS: &'static str = "https://github.com/AdoptOpenJDK/openjdk8-binaries/releases/download/jdk8u272-b10/OpenJDK8U-jre_x64_windows_hotspot_8u272b10.zip";
pub const WISP_WINDOWS: &'static str = "https://github.com/wispborne/JRE/releases/download/jre8-271/jre8-271-Windows.zip";
pub const AZUL_WINDOWS: &'static str = "https://cdn.azul.com/zulu/bin/zulu8.68.0.21-ca-jre8.0.362-win_x64.zip";
pub const MIKO_JDK_WINDOWS: &'static str = "https://github.com/adoptium/temurin23-binaries/releases/download/jdk-23%2B7-ea-beta/OpenJDK-jdk_x64_windows_hotspot_ea_23-0-7.zip";
pub const MIKO_JDK_VER_WINDOWS: &'static str = "jdk-23+7";
pub const MIKO_KIT_WINDOWS: &'static str = "https://github.com/Yumeris/Mikohime_Repo/releases/download/26.4d/Mikohime_23_R26.4f_097a-RC11_win.zip";

pub const CORETTO_LINUX: &'static str = "https://corretto.aws/downloads/resources/8.272.10.3/amazon-corretto-8.272.10.3-linux-x64.tar.gz";
pub const HOTSPOT_LINUX: &'static str = "https://github.com/AdoptOpenJDK/openjdk8-binaries/releases/download/jdk8u272-b10/OpenJDK8U-jre_x64_linux_hotspot_8u272b10.tar.gz";
pub const WISP_LINUX: &'static str = "https://github.com/wispborne/JRE/releases/download/jre8-271/jre8-271-Linux-x64.tar.gz";
pub const AZUL_LINUX: &'static str = "https://cdn.azul.com/zulu/bin/zulu8.68.0.21-ca-jre8.0.362-linux_x64.zip";
pub const MIKO_JDK_LINUX: &'static str = "https://github.com/adoptium/temurin23-binaries/releases/download/jdk-23%2B9-ea-beta/OpenJDK-jdk_x64_linux_hotspot_23_9-ea.tar.gz";
pub const MIKO_JDK_VER_LINUX: &'static str = "jdk-23+9";
pub const MIKO_KIT_LINUX: &'static str = "https://github.com/Yumeris/Mikohime_Repo/releases/download/26.4d/Kitsunebi_23_R26.4f_097a-RC11_linux.zip";

pub const CORETTO_MACOS: &'static str = "https://corretto.aws/downloads/resources/8.272.10.3/amazon-corretto-8.272.10.3-macosx-x64.tar.gz";
pub const HOTSPOT_MACOS: &'static str = "https://github.com/AdoptOpenJDK/openjdk8-binaries/releases/download/jdk8u272-b10/OpenJDK8U-jre_x64_mac_hotspot_8u272b10.tar.gz";
pub const WISP_MACOS: &'static str = "https://github.com/wispborne/JRE/releases/download/jre8-271/jre8-271-MacOS.zip";
pub const AZUL_MACOS: &'static str = "https://cdn.azul.com/zulu/bin/zulu8.68.0.21-ca-jre8.0.362-macosx_x64.zip";
pub const MIKO_JDK_MACOS: &'static str = "0.0.0.0";
pub const MIKO_JDK_VER_MACOS: &'static str = "";
pub const MIKO_KIT_MACOS: &'static str = "";

/// Every flavour, in the order the swapper lists them.
pub open spec fn all_flavours() -> Seq<Flavour> {
    seq![Flavour::Miko, Flavour::Coretto, Flavour::Hotspot, Flavour::Wisp, Flavour::Azul, Flavour::Original]
}

/// The flavour's name as it is written in folder names and marker files.
pub open spec fn flavour_name(f: Flavour) -> Seq<char> {
    match f {
        Flavour::Miko => "Miko"@,
        Flavour::Coretto => "Coretto"@,
        Flavour::Hotspot => "Hotspot"@,
        Flavour::Wisp => "Wisp"@,
        Flavour::Azul => "Azul"@,
        Flavour::Original => "Original"@,
    }
}

/// Where each downloadable flavour comes from on each system, and how its
/// runtime is found in the archive.
pub open spec fn flavour_source(f: Flavour, os: TargetOs) -> (Seq<char>, FindBy) {
    match os {
        TargetOs::Windows => match f {
            Flavour::Coretto => (CORETTO_WINDOWS@, FindBy::Bin),
            Flavour::Hotspot => (HOTSPOT_WINDOWS@, FindBy::Bin),
            Flavour::Wisp => (WISP_WINDOWS@, FindBy::Bin),
            Flavour::Azul => (AZUL_WINDOWS@, FindBy::Bin),
            _ => (MIKO_JDK_WINDOWS@, FindBy::Bin),
        },
        TargetOs::Linux => match f {
            Flavour::Coretto => (CORETTO_LINUX@, FindBy::Jre),
            Flavour::Hotspot => (HOTSPOT_LINUX@, FindBy::Bin),
            Flavour::Wisp => (WISP_LINUX@, FindBy::Bin),
            Flavour::Azul => (AZUL_LINUX@, FindBy::Bin),
            _ => (MIKO_JDK_LINUX@, FindBy::Bin),
        },
        TargetOs::MacOs => match f {
            Flavour::Coretto => (CORETTO_MACOS@, FindBy::Jre),
            Flavour::Hotspot => (HOTSPOT_MACOS@, FindBy::Bin),
            Flavour::Wisp => (WISP_MACOS@, FindBy::Bin),
            Flavour::Azul => (AZUL_MACOS@, FindBy::Bin),
            _ => (MIKO_JDK_MACOS@, FindBy::Bin),
        },
    }
}

/// The folder of the game's own runtime on each system.
pub open spec fn spec_jre_path(os: TargetOs) -> Seq<char> {
    match os {
        TargetOs::Windows => "jre"@,
        TargetOs::Linux => "jre_linux"@,
        TargetOs::MacOs => "Contents/Home"@,
    }
}

/// The folder of the Miko development kit on each system.
pub open spec fn spec_miko_jdk_ver(os: TargetOs) -> Seq<char> {
    match os {
        TargetOs::Windows => MIKO_JDK_VER_WINDOWS@,
        TargetOs::Linux => MIKO_JDK_VER_LINUX@,
        TargetOs::MacOs => MIKO_JDK_VER_MACOS@,
    }
}

/// The address of the Miko kit on each system.
pub open spec fn spec_miko_kit(os: TargetOs) -> Seq<char> {
    match os {
        TargetOs::Windows => MIKO_KIT_WINDOWS@,
        TargetOs::Linux => MIKO_KIT_LINUX@,
        TargetOs::MacOs => MIKO_KIT_MACOS@,
    }
}

/// `jre_` followed by the flavour's name.
pub open spec fn flavour_dir(f: Flavour) -> Seq<char> {
    "jre_"@ + flavour_name(f)
}

/// Whether the text of a `release` file marks a Java 7 runtime: its first
/// whitespace-separated word is `JAVA_VERSION="1.7.0"`, in any case.
pub open spec fn spec_is_java_7(release: Seq<char>) -> bool {
    match first_word(ascii_words(release)) {
        Some(w) => eq_ignore_ascii_case(w, JAVA_7_RELEASE@),
        None => false,
    }
}

/// The folder name the installed runtime is moved to when it is replaced: the
/// original runtime's own folder when it is Java 7, the folder of the flavour
/// its marker file names, or `jre.bak`; no name when the marker file cannot be
/// read.
pub open spec fn spec_backup_name(is_java_7: bool, dot: DotFile) -> Option<Seq<char>> {
    if is_java_7 {
        Some(ORIGINAL_JRE_BACKUP@)
    } else {
        match dot {
            DotFile::Holds(f) => Some(flavour_dir(f)),
            DotFile::Missing => Some(JRE_BACKUP@),
            DotFile::Unreadable => None,
        }
    }
}

/// The flavours among `fs` whose flag in `present` is set, in order.
pub open spec fn flavours_present(fs: Seq<Flavour>, present: Seq<bool>) -> Seq<Flavour>
    decreases fs.len(),
{
    if fs.len() == 0 {
        seq![]
    } else if present.len() > 0 && present[0] {
        seq![fs[0]] + flavours_present(fs.skip(1), present.skip(1))
    } else {
        flavours_present(fs.skip(1), present.skip(1))
    }
}

/// The runtimes the swapper offers as available: each flavour whose folder
/// exists (flags in the order of `all_flavours`), then Miko when its kit is
/// present (not on macOS), then the installed one.
pub open spec fn spec_available(present: Seq<bool>, miko_kit: bool, current: Flavour, os: TargetOs) -> Seq<Flavour> {
    let found = flavours_present(all_flavours(), present);
    let with_miko = if os != TargetOs::MacOs && miko_kit {
        found.push(Flavour::Miko)
    } else {
        found
    };
    with_miko.push(current)
}

/// Whether `infer::archive::is_gz` accepts the bytes: the gzip magic number
/// followed by the deflate method.
pub open spec fn spec_is_gz(buf: Seq<u8>) -> bool {
    buf.len() > 2 && buf[0] == 0x1F && buf[1] == 0x8B && buf[2] == 0x8
}

/// Whether `infer::archive::is_zip` accepts the bytes: `PK` followed by one of
/// the three record signatures, or the WinZip spanning marker.
pub open spec fn spec_is_zip(buf: Seq<u8>) -> bool {
    buf.len() > 3 && buf[0] == 0x50 && buf[1] == 0x4B && (((buf[2] == 0x3 && buf[3] == 0x4) || (buf[2] == 0x5
        && buf[3] == 0x6) || (buf[2] == 0x7 && buf[3] == 0x8)) || (buf.len() > 7 && (buf[2] == 0x30 && buf[3]
        == 0x30 && buf[4] == 0x50 && buf[5] == 0x4B && buf[6] == 0x3 && buf[7] == 0x4)))
}

/// Calls `infer::archive::is_gz`, whose whole test is `spec_is_gz`.
#[verifier::external_body]
pub(crate) fn infer_is_gz(buf: &[u8]) -> (r: bool)
    ensures
        r == spec_is_gz(buf@),
{
    infer::archive::is_gz(buf)
}

/// Calls `infer::archive::is_zip`, whose whole test is `spec_is_zip`.
#[verifier::external_body]
fn infer_is_zip(buf: &[u8]) -> (r: bool)
    ensures
        r == spec_is_zip(buf@),
{
    infer::archive::is_zip(buf)
}

/// The kind of an archive: gzip is tried first, then zip.
pub fn archive_kind(buf: &[u8]) -> (r: ArchiveKind)
    ensures
        r == (if spec_is_gz(buf@) {
            ArchiveKind::Gzip
        } else if spec_is_zip(buf@) {
            ArchiveKind::Zip
        } else {
            ArchiveKind::Other
        }),
{
    if infer_is_gz(buf) {
        ArchiveKind::Gzip
    } else if infer_is_zip(buf) {
        ArchiveKind::Zip
    } else {
        ArchiveKind::Other
    }
}

/// The game's own runtime folder on `os`.
pub fn jre_path(os: TargetOs) -> (r: &'static str)
    ensures
        r@ == spec_jre_path(os),
{
    match os {
        TargetOs::Windows => "jre",
        TargetOs::Linux => "jre_linux",
        TargetOs::MacOs => "Contents/Home",
    }
}

/// The folder of the Miko development kit on `os`.
pub fn miko_jdk_ver(os: TargetOs) -> (r: &'static str)
    ensures
        r@ == spec_miko_jdk_ver(os),
{
    match os {
        TargetOs::Windows => MIKO_JDK_VER_WINDOWS,
        TargetOs::Linux => MIKO_JDK_VER_LINUX,
        TargetOs::MacOs => MIKO_JDK_VER_MACOS,
    }
}

/// The address of the Miko kit on `os`.
pub fn miko_kit(os: TargetOs) -> (r: &'static str)
    ensures
        r@ == spec_miko_kit(os),
{
    match os {
        TargetOs::Windows => MIKO_KIT_WINDOWS,
        TargetOs::Linux => MIKO_KIT_LINUX,
        TargetOs::MacOs => MIKO_KIT_MACOS,
    }
}

/// Whether a `release` file's text marks a Java 7 runtime (see
/// `spec_is_java_7`).
pub fn is_java_7(release: &str) -> (r: bool)
    ensures
        r == spec_is_java_7(release@),
{
    let s = chars_of(release);
    match first_ascii_word(&s) {
        None => false,
        Some(w) => {
            let target = chars_of(JAVA_7_RELEASE);
            chars_eq_ignore_ascii_case(&w, &target)
        },
    }
}

/// The name of the folder the installed runtime is moved to when another is
/// installed (see `spec_backup_name`).
pub fn backup_name(is_java_7: bool, dot: DotFile) -> (r: Option<String>)
    ensures
        r.deep_view() == spec_backup_name(is_java_7, dot),
{
    if is_java_7 {
        Some(String::from_str(ORIGINAL_JRE_BACKUP))
    } else {
        match dot {
            DotFile::Holds(f) => Some(f.dir_name()),
            DotFile::Missing => Some(String::from_str(JRE_BACKUP)),
            DotFile::Unreadable => None,
        }
    }
}

/// The runtimes the swapper offers, with the installed one first (see
/// `spec_available`). `present` has one flag for each flavour, in the order of
/// `Flavour::all`, telling whether its folder exists.
pub fn available_flavours(present: &Vec<bool>, miko_kit: bool, current: Flavour, os: TargetOs) -> (r: (
    Flavour,
    Vec<Flavour>,
))
    requires
        present@.len() == all_flavours().len(),
    ensures
        r.0 == current,
        r.1@ == spec_available(present@, miko_kit, current, os),
{
    let all = Flavour::all();
    let mut found: Vec<Flavour> = Vec::new();
    let mut i: usize = 0;
    proof {
        assert(all@.skip(0) =~= all@);
        assert(present@.skip(0) =~= present@);
        assert(found@ + flavours_present(all@, present@) =~= flavours_present(all@, present@));
    }
    while i < all.len()
        invariant
            i <= all@.len(),
            all@ == all_flavours(),
            present@.len() == all@.len(),
            found@ + flavours_present(all@.skip(i as int), present@.skip(i as int)) == flavours_present(all@, present@),
        decreases all@.len() - i,
    {
        let ghost fs = all@.skip(i as int);
        let ghost ps = present@.skip(i as int);
        proof {
            assert(fs[0] == all@[i as int]);
            assert(fs.skip(1) =~= all@.skip(i + 1));
            assert(ps.skip(1) =~= present@.skip(i + 1));
            if ps.len() > 0 {
                assert(ps[0] == present@[i as int]);
            }
        }
        if present[i] {
            proof {
                assert(found@.push(all@[i as int]) + flavours_present(all@.skip(i + 1), present@.skip(i + 1)) =~= found@
                    + (seq![fs[0]] + flavours_present(fs.skip(1), ps.skip(1))));
            }
            found.push(all[i]);
        }
        i = i + 1;
    }
    proof {
        assert(found@ + Seq::<Flavour>::empty() =~= found@);
    }
    if os != TargetOs::MacOs && miko_kit {
        found.push(Flavour::Miko);
    }
    found.push(current);
    (current, found)
}

/// What picking runtime `new` in place of `old` does: the new setting of
/// whether the Miko runtime is in use, and the action taken.
pub open spec fn spec_on_pick(old: Flavour, new: Flavour, jre_23: bool) -> (bool, SwapAction) {
    if new == Flavour::Miko && old != Flavour::Miko {
        (true, SwapAction::SaveOnly)
    } else if new == Flavour::Original {
        (false, SwapAction::Revert)
    } else if new == Flavour::Miko {
        (jre_23, SwapAction::Install(new))
    } else {
        (false, SwapAction::Install(new))
    }
}

/// What picking runtime `new` in place of `old` does: picking Miko from
/// another runtime only turns the Miko setting on and saves the parameter
/// file; picking the original restores it; picking any other runtime turns
/// the setting off and installs it.
pub fn on_pick(old: Flavour, new: Flavour, jre_23: bool) -> (r: (bool, SwapAction))
    ensures
        r == spec_on_pick(old, new, jre_23),
{
    let mut jre_23 = jre_23;
    if new.is_miko() {
        if !old.is_miko() {
            return (true, SwapAction::SaveOnly);
        }
    } else {
        jre_23 = false;
    }
    match new {
        Flavour::Original => (jre_23, SwapAction::Revert),
        _ => (jre_23, SwapAction::Install(new)),
    }
}

/// Whether a runtime can be picked: the original always, any other when it
/// is installed or downloaded.
pub fn can_pick(flavour: Flavour, current: Flavour, cached: &Vec<Flavour>) -> (r: bool)
    ensures
        r == (flavour == Flavour::Original || current == flavour || cached@.contains(flavour)),
{
    flavour == Flavour::Original || current == flavour || is_downloaded(flavour, current, cached)
}

/// Whether a runtime is installed or downloaded.
pub fn is_downloaded(flavour: Flavour, current: Flavour, cached: &Vec<Flavour>) -> (r: bool)
    ensures
        r == (current == flavour || cached@.contains(flavour)),
{
    if current == flavour {
        return true;
    }
    let mut i: usize = 0;
    while i < cached.len()
        invariant
            i <= cached@.len(),
            forall|j: int| 0 <= j < i ==> cached@[j] != flavour,
        decreases cached@.len() - i,
    {
        if cached[i] == flavour {
            return true;
        }
        i = i + 1;
    }
    false
}

/// Whether the row of a runtime is shown for the game version found: every
/// runtime but Miko always, Miko only for game version `0.97a-RC11` (read as
/// `parse_game_version` reads it).
pub fn is_offered(flavour: Flavour, game_version: &Option<GameVersion>) -> (r: bool)
    ensures
        r == (flavour != Flavour::Miko || (game_version matches Some(g) && g.deep_view() == spec_parse_game_version(
            regex_split_result(VERSION_SEPARATORS@, MIKO_GAME_VERSION@),
            MIKO_GAME_VERSION@,
        ))),
{
    if !flavour.is_miko() {
        return true;
    }
    match game_version {
        None => false,
        Some(g) => {
            let target = parse_game_version(MIKO_GAME_VERSION);
            same_version(g, &target)
        },
    }
}

fn same_option_text(a: &Option<String>, b: &Option<String>) -> (r: bool)
    ensures
        r == (a.deep_view() == b.deep_view()),
{
    match (a, b) {
        (None, None) => true,
        (Some(x), Some(y)) => {
            let r = x.eq(y);
            proof {
                if r {
                    assert(a.deep_view() == b.deep_view());
                }
            }
            r
        },
        _ => false,
    }
}

fn same_version(a: &GameVersion, b: &GameVersion) -> (r: bool)
    ensures
        r == (a.deep_view() == b.deep_view()),
{
    same_option_text(&a.0, &b.0) && same_option_text(&a.1, &b.1) && same_option_text(&a.2, &b.2)
        && same_option_text(&a.3, &b.3)
}

impl Flavour {
    /// Every flavour, in the order the swapper lists them.
    pub fn all() -> (r: Vec<Flavour>)
        ensures
            r@ == all_flavours(),
    {
        let mut r: Vec<Flavour> = Vec::new();
        r.push(Flavour::Miko);
        r.push(Flavour::Coretto);
        r.push(Flavour::Hotspot);
        r.push(Flavour::Wisp);
        r.push(Flavour::Azul);
        r.push(Flavour::Original);
        proof {
            assert(r@ =~= all_flavours());
        }
        r
    }

    /// The flavour's name.
    pub fn name(&self) -> (r: &'static str)
        ensures
            r@ == flavour_name(*self),
    {
        match self {
            Flavour::Miko => "Miko",
            Flavour::Coretto => "Coretto",
            Flavour::Hotspot => "Hotspot",
            Flavour::Wisp => "Wisp",
            Flavour::Azul => "Azul",
            Flavour::Original => "Original",
        }
    }

    /// The flavour's name, as a new string.
    pub fn to_string(&self) -> (r: String)
        ensures
            r@ == flavour_name(*self),
    {
        String::from_str(self.name())
    }

    /// `jre_` followed by the flavour's name: the folder a downloaded runtime
    /// is kept in, and the folder a replaced one is moved to.
    pub fn dir_name(&self) -> (r: String)
        ensures
            r@ == flavour_dir(*self),
    {
        let mut out: Vec<char> = Vec::new();
        push_str(&mut out, "jre_");
        push_str(&mut out, self.name());
        string_of(&out)
    }

    /// The folder a download of this flavour is kept in: the development
    /// kit's folder for Miko (except on macOS), `jre_` and the name otherwise.
    pub fn download_dir(&self, os: TargetOs) -> (r: String)
        ensures
            r@ == (if *self == Flavour::Miko && os != TargetOs::MacOs {
                spec_miko_jdk_ver(os)
            } else {
                flavour_dir(*self)
            }),
    {
        if self.is_miko() && os != TargetOs::MacOs {
            String::from_str(miko_jdk_ver(os))
        } else {
            self.dir_name()
        }
    }

    /// The folder whose presence shows that this flavour is available: the
    /// original runtime's backup for the original, `jre_` and the name
    /// otherwise.
    pub fn cached_dir(&self) -> (r: String)
        ensures
            r@ == (if *self == Flavour::Original {
                ORIGINAL_JRE_BACKUP@
            } else {
                flavour_dir(*self)
            }),
    {
        if *self == Flavour::Original {
            String::from_str(ORIGINAL_JRE_BACKUP)
        } else {
            self.dir_name()
        }
    }

    /// The download address of the flavour and how its runtime is found in
    /// the archive. The original runtime has none.
    pub fn as_const(&self, os: TargetOs) -> (r: (&'static str, FindBy))
        requires
            *self != Flavour::Original,
        ensures
            (r.0@, r.1) == flavour_source(*self, os),
    {
        match os {
            TargetOs::Windows => match self {
                Flavour::Coretto => (CORETTO_WINDOWS, FindBy::Bin),
                Flavour::Hotspot => (HOTSPOT_WINDOWS, FindBy::Bin),
                Flavour::Wisp => (WISP_WINDOWS, FindBy::Bin),
                Flavour::Azul => (AZUL_WINDOWS, FindBy::Bin),
                _ => (MIKO_JDK_WINDOWS, FindBy::Bin),
            },
            TargetOs::Linux => match self {
                Flavour::Coretto => (CORETTO_LINUX, FindBy::Jre),
                Flavour::Hotspot => (HOTSPOT_LINUX, FindBy::Bin),
                Flavour::Wisp => (WISP_LINUX, FindBy::Bin),
                Flavour::Azul => (AZUL_LINUX, FindBy::Bin),
                _ => (MIKO_JDK_LINUX, FindBy::Bin),
            },
            TargetOs::MacOs => match self {
                Flavour::Coretto => (CORETTO_MACOS, FindBy::Jre),
                Flavour::Hotspot => (HOTSPOT_MACOS, FindBy::Bin),
                Flavour::Wisp => (WISP_MACOS, FindBy::Bin),
                Flavour::Azul => (AZUL_MACOS, FindBy::Bin),
                _ => (MIKO_JDK_MACOS, FindBy::Bin),
            },
        }
    }

    /// The download address of the flavour.
    pub fn get_url(&self, os: TargetOs) -> (r: &'static str)
        requires
            *self != Flavour::Original,
        ensures
            r@ == flavour_source(*self, os).0,
    {
        self.as_const(os).0
    }

    /// How the flavour's runtime is found in its archive.
    pub fn get_search_strategy(&self, os: TargetOs) -> (r: FindBy)
        requires
            *self != Flavour::Original,
        ensures
            r == flavour_source(*self, os).1,
    {
        self.as_const(os).1
    }

    /// Whether this is the Miko runtime.
    pub fn is_miko(&self) -> (r: bool)
        ensures
            r == (*self == Flavour::Miko),
    {
        match self {
            Flavour::Miko => true,
            _ => false,
        }
    }

    /// The installed flavour, from what its marker file holds: the flavour
    /// named there, or the original runtime when there is none.
    pub fn installed(marker: Option<Flavour>) -> (r: Flavour)
        ensures
            r == (match marker {
                Some(f) => f,
                None => Flavour::Original,
            }),
    {
        match marker {
            Some(f) => f,
            None => Flavour::Original,
        }
    }
}

/// How swapping in `target` proceeds, given the runtime installed, whether
/// `target`'s own folder exists and whether a runtime is in place.
pub open spec fn spec_swap_plan(installed: Flavour, target: Flavour, cached: bool, in_place: bool) -> SwapPlan {
    if installed == target {
        SwapPlan::AlreadyInstalled
    } else {
        SwapPlan::Swap { unpack: !cached, backup_current: in_place }
    }
}

/// How swapping in `target` proceeds (see `spec_swap_plan`).
pub fn swap_plan(installed: Flavour, target: Flavour, cached: bool, in_place: bool) -> (r: SwapPlan)
    ensures
        r == spec_swap_plan(installed, target, cached, in_place),
{
    if installed == target {
        SwapPlan::AlreadyInstalled
    } else {
        SwapPlan::Swap { unpack: !cached, backup_current: in_place }
    }
}

/// What the swap reports when it is done: `true` only when nothing had to
/// be done.
pub fn swap_reports(plan: SwapPlan) -> (r: bool)
    ensures
        r == (plan == SwapPlan::AlreadyInstalled),
{
    match plan {
        SwapPlan::AlreadyInstalled => true,
        SwapPlan::Swap { .. } => false,
    }
}

/// How restoring the original proceeds, given the runtime installed,
/// whether the original's backup exists and what is in place.
pub open spec fn spec_revert_plan(installed: Flavour, backup: bool, in_place: RuntimeEntry) -> RevertPlan {
    if installed == Flavour::Original {
        RevertPlan::AlreadyOriginal
    } else if !backup {
        RevertPlan::NoBackup
    } else {
        RevertPlan::Restore(in_place)
    }
}

/// How restoring the original proceeds (see `spec_revert_plan`).
pub fn revert_plan(installed: Flavour, backup: bool, in_place: RuntimeEntry) -> (r: RevertPlan)
    ensures
        r == spec_revert_plan(installed, backup, in_place),
{
    if installed == Flavour::Original {
        RevertPlan::AlreadyOriginal
    } else if !backup {
        RevertPlan::NoBackup
    } else {
        RevertPlan::Restore(in_place)
    }
}

/// What restoring reports: `false` only when there was no backup.
pub fn revert_reports(plan: RevertPlan) -> (r: bool)
    ensures
        r == (plan != RevertPlan::NoBackup),
{
    match plan {
        RevertPlan::NoBackup => false,
        _ => true,
    }
}

impl FindBy {
    /// The folder name searched for: `bin` or `jre`.
    pub fn target(&self) -> (r: &'static str)
        ensures
            r@ == (match *self {
                FindBy::Bin => "bin"@,
                FindBy::Jre => "jre"@,
            }),
    {
        match self {
            FindBy::Bin => "bin",
            FindBy::Jre => "jre",
        }
    }

    /// One folder of the search for the runtime in an unpacked archive, given
    /// the names of its sub-folders in the order they are read: at the first
    /// one named `bin` (any case) the folder being read is the runtime, at
    /// the first one named `jre` (any case) that sub-folder is; otherwise the
    /// search goes on in the sub-folders.
    pub fn visit(&self, names: &Vec<String>) -> (r: SearchStep)
        ensures
            match r {
                SearchStep::ThisFolder => *self == FindBy::Bin && exists|i: int|
                    0 <= i < names@.len() && eq_ignore_ascii_case(#[trigger] names@[i]@, "bin"@),
                SearchStep::SubFolder(i) => *self == FindBy::Jre && i < names@.len() && eq_ignore_ascii_case(
                    names@[i as int]@,
                    "jre"@,
                ) && forall|j: int| 0 <= j < i ==> !eq_ignore_ascii_case(#[trigger] names@[j]@, "jre"@),
                SearchStep::Descend => forall|j: int|
                    0 <= j < names@.len() ==> !eq_ignore_ascii_case(#[trigger] names@[j]@, self.target_spec()),
            },
    {
        let target = chars_of(self.target());
        let mut i: usize = 0;
        while i < names.len()
            invariant
                i <= names@.len(),
                target@ == self.target_spec(),
                forall|j: int| 0 <= j < i ==> !eq_ignore_ascii_case(#[trigger] names@[j]@, self.target_spec()),
            decreases names@.len() - i,
        {
            let name = chars_of(names[i].as_str());
            if chars_eq_ignore_ascii_case(&name, &target) {
                return match self {
                    FindBy::Bin => SearchStep::ThisFolder,
                    FindBy::Jre => SearchStep::SubFolder(i),
                };
            }
            i = i + 1;
        }
        SearchStep::Descend
    }

    /// The folder name searched for.
    pub open spec fn target_spec(&self) -> Seq<char> {
        match *self {
            FindBy::Bin => "bin"@,
            FindBy::Jre => "jre"@,
        }
    }
}

} // verus!
