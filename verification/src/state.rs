//! State records of the manager's pages and services: the saved
//! configuration, the install menu, the tools page, the install-folder text
//! box, archive errors, self-updates, request time-outs, themes and the mod
//! list's column headings.

use vstd::prelude::*;

use crate::vmparams::{TargetOs, VMParams};

verus! {

/// The manager's saved configuration.
#[derive(Debug)]
pub struct Config {
    pub install_dir: Option<String>,
    pub last_browsed: Option<String>,
    pub git_warn: bool,
    pub experimental_launch: bool,
    pub experimental_resolution: (u32, u32),
}

impl Config {
    /// The configuration used when none is saved: nothing chosen, no
    /// warnings, the experimental launch off at 1280 by 768.
    pub fn fresh() -> (r: Self)
        ensures
            r.install_dir is None,
            r.last_browsed is None,
            !r.git_warn,
            !r.experimental_launch,
            r.experimental_resolution == (1280u32, 768u32),
    {
        Config {
            install_dir: None,
            last_browsed: None,
            git_warn: false,
            experimental_launch: false,
            experimental_resolution: (1280, 768),
        }
    }
}

/// Why the configuration could not be read.
#[derive(Debug, Clone, Copy, PartialEq, Eq, Structural)]
pub enum LoadError {
    NoSuchFile,
    ReadError,
    FormatError,
}

/// Why the configuration could not be written.
#[derive(Debug, Clone, Copy, PartialEq, Eq, Structural)]
pub enum SaveError {
    FileError,
    WriteError,
    FormatError,
}

/// Whether the install menu is hovered and open.
#[derive(Debug, Clone, Copy, PartialEq, Eq, Structural)]
pub struct InstallState {
    pub hovered: bool,
    pub open: bool,
}

impl Default for InstallState {
    fn default() -> (r: Self)
        ensures
            !r.hovered,
            !r.open,
    {
        InstallState { hovered: false, open: false }
    }
}

/// The confirmation shown before installing a mod from a link.
#[derive(Debug, Clone, PartialEq, Eq)]
pub struct BrowserInstall {
    pub url: String,
}

impl BrowserInstall {
    /// The confirmation for `url`.
    pub fn new(url: String) -> (r: Self)
        ensures
            r.url == url,
    {
        BrowserInstall { url }
    }
}

/// What the settings page is asked to do with the installation folder.
#[derive(Debug, Clone, PartialEq, Eq)]
pub enum SettingsCommand {
    UpdateInstallDir(String),
    SelectInstallDir,
}

/// What happened in the installation folder's text box.
#[derive(Debug, Clone, PartialEq, Eq)]
pub enum TextBoxEvent {
    Changed,
    Complete,
    Invalid,
    Other,
}

/// What the text box does in reply.
#[derive(Debug, Clone, PartialEq, Eq)]
pub enum TextBoxReply {
    Nothing,
    Send(SettingsCommand),
    CancelEditing,
}

/// The rules of the installation folder's text box.
#[derive(Debug, Clone, Copy)]
pub struct InstallDirDelegate;

impl InstallDirDelegate {
    /// The reply to an event of the text box holding `text`: a changed or
    /// completed text naming an existing folder becomes the installation
    /// folder; an invalid one ends the editing.
    pub fn event(&self, event: TextBoxEvent, text: &str, exists: bool) -> (r: TextBoxReply)
        ensures
            (event == TextBoxEvent::Changed || event == TextBoxEvent::Complete) && exists ==> (r matches TextBoxReply::Send(
                SettingsCommand::UpdateInstallDir(p),
            ) && p@ == text@),
            (event == TextBoxEvent::Changed || event == TextBoxEvent::Complete) && !exists ==> r == TextBoxReply::Nothing,
            event == TextBoxEvent::Invalid ==> r == TextBoxReply::CancelEditing,
            event == TextBoxEvent::Other ==> r == TextBoxReply::Nothing,
    {
        match event {
            TextBoxEvent::Changed | TextBoxEvent::Complete => {
                if exists {
                    TextBoxReply::Send(SettingsCommand::UpdateInstallDir(String::from_str(text)))
                } else {
                    TextBoxReply::Nothing
                }
            },
            TextBoxEvent::Invalid => TextBoxReply::CancelEditing,
            TextBoxEvent::Other => TextBoxReply::Nothing,
        }
    }
}

/// The tools page: the installation, the parameter file's settings and the
/// runtime choices.
#[derive(Debug, Clone)]
pub struct Tools {
    pub install_dir: Option<String>,
    pub vmparams: Option<VMParams>,
    pub vmparams_linked: bool,
    pub jre_23: bool,
}

impl Tools {
    /// What is written when the parameter file is saved: the settings and
    /// the installation they go into, when both are known.
    pub fn write_vmparams(&self) -> (r: Option<(String, VMParams)>)
        ensures
            match (self.install_dir, self.vmparams) {
                (Some(d), Some(p)) => r matches Some(w) && w.0@ == d@ && w.1 == p,
                _ => r is None,
            },
    {
        match (&self.install_dir, &self.vmparams) {
            (Some(d), Some(p)) => Some((d.clone(), *p)),
            _ => None,
        }
    }
}

/// The error reported when a RAR archive cannot be read.
#[derive(Debug, Clone, PartialEq, Eq)]
pub struct UnrarErr {
    pub err: String,
}

/// The text of that error.
pub const UNRAR_MESSAGE: &'static str = "Opaque Unrarr Error. Cannot extrapolate due to library limitation.";

impl UnrarErr {
    /// The error, with its fixed text.
    pub fn new() -> (r: Self)
        ensures
            r.err@ == UNRAR_MESSAGE@,
    {
        UnrarErr { err: String::from_str(UNRAR_MESSAGE) }
    }
}

/// Whether the manager can update itself on this system: everywhere but
/// macOS.
pub fn support_self_update(os: TargetOs) -> (r: bool)
    ensures
        r == (os != TargetOs::MacOs),
{
    match os {
        TargetOs::MacOs => false,
        _ => true,
    }
}

/// The release file a self-update downloads and the name it is first saved
/// under, for each system and kind of Linux build; macOS has none.
pub open spec fn update_files(os: TargetOs, static_build: bool) -> Option<(Seq<char>, Seq<char>)> {
    match os {
        TargetOs::Windows => Some(("starsector_mod_manager.exe"@, "tmp_starsector_mod_manager.exe"@)),
        TargetOs::Linux => if static_build {
            Some(("starsector_mod_manager_linux_dynamic"@, "tmp_starsector_mod_manager_linux_dynamic"@))
        } else {
            Some(("starsector_mod_manager_linux_static"@, "tmp_starsector_mod_manager_linux_static"@))
        },
        TargetOs::MacOs => None,
    }
}

/// The release file a self-update downloads and its temporary name (see
/// `update_files`).
pub fn self_update_files(os: TargetOs, static_build: bool) -> (r: Option<(&'static str, &'static str)>)
    ensures
        match update_files(os, static_build) {
            Some((a, b)) => r matches Some(f) && f.0@ == a && f.1@ == b,
            None => r is None,
        },
{
    match os {
        TargetOs::Windows => Some(("starsector_mod_manager.exe", "tmp_starsector_mod_manager.exe")),
        TargetOs::Linux => if static_build {
            Some(("starsector_mod_manager_linux_dynamic", "tmp_starsector_mod_manager_linux_dynamic"))
        } else {
            Some(("starsector_mod_manager_linux_static", "tmp_starsector_mod_manager_linux_static"))
        },
        TargetOs::MacOs => None,
    }
}

/// The web client's settings.
#[derive(Debug, Clone, Copy)]
pub struct WebClient;

impl WebClient {
    /// The first request's time-out, in milliseconds.
    pub const TIMEOUT: u64 = 75;

    /// The time-out of the next try of a request: twice the last.
    pub fn next_timeout(current: u64) -> (r: u64)
        requires
            current <= u64::MAX / 2,
        ensures
            r == 2 * current,
    {
        current * 2
    }
}

/// The colour themes.
#[derive(Debug, Clone, Copy, PartialEq, Eq, Structural)]
pub enum Themes {
    Retro,
    Legacy,
    Troutman,
    Gates,
    WardTwo,
    Custom,
}

/// Each theme's name.
pub open spec fn theme_name(t: Themes) -> Seq<char> {
    match t {
        Themes::Retro => "Retro"@,
        Themes::Legacy => "Legacy"@,
        Themes::Troutman => "Troutman"@,
        Themes::Gates => "Gates"@,
        Themes::WardTwo => "Ward Two"@,
        Themes::Custom => "Custom"@,
    }
}

impl Default for Themes {
    fn default() -> (r: Self)
        ensures
            r == Themes::Retro,
    {
        Themes::Retro
    }
}

impl Themes {
    /// The theme's name.
    pub fn as_str(&self) -> (r: &'static str)
        ensures
            r@ == theme_name(*self),
    {
        match self {
            Themes::Retro => "Retro",
            Themes::Legacy => "Legacy",
            Themes::Troutman => "Troutman",
            Themes::Gates => "Gates",
            Themes::WardTwo => "Ward Two",
            Themes::Custom => "Custom",
        }
    }

    /// Every theme, in the order the picker lists them.
    pub fn all() -> (r: Vec<Themes>)
        ensures
            r@ == seq![Themes::Retro, Themes::Legacy, Themes::Troutman, Themes::Gates, Themes::WardTwo, Themes::Custom],
    {
        let mut r: Vec<Themes> = Vec::new();
        r.push(Themes::Retro);
        r.push(Themes::Legacy);
        r.push(Themes::Troutman);
        r.push(Themes::Gates);
        r.push(Themes::WardTwo);
        r.push(Themes::Custom);
        proof {
            assert(r@ =~= seq![Themes::Retro, Themes::Legacy, Themes::Troutman, Themes::Gates, Themes::WardTwo, Themes::Custom]);
        }
        r
    }
}

/// The mod list's columns.
#[derive(Debug, Clone, Copy, PartialEq, Eq, Structural)]
pub enum Heading {
    ID,
    Name,
    Author,
    GameVersion,
    Enabled,
    Version,
    Score,
    AutoUpdateSupport,
    InstallDate,
}

/// Each column's title.
pub open spec fn heading_title(h: Heading) -> Seq<char> {
    match h {
        Heading::ID => "ID"@,
        Heading::Name => "Name"@,
        Heading::Author => "Author(s)"@,
        Heading::GameVersion => "Game Version"@,
        Heading::Enabled => "Enabled"@,
        Heading::Version => "Version"@,
        Heading::Score => "score"@,
        Heading::AutoUpdateSupport => "Auto-Update Supported"@,
        Heading::InstallDate => "Install Date"@,
    }
}

impl Heading {
    /// The column's title.
    pub fn title(&self) -> (r: &'static str)
        ensures
            r@ == heading_title(*self),
    {
        match self {
            Heading::ID => "ID",
            Heading::Name => "Name",
            Heading::Author => "Author(s)",
            Heading::GameVersion => "Game Version",
            Heading::Enabled => "Enabled",
            Heading::Version => "Version",
            Heading::Score => "score",
            Heading::AutoUpdateSupport => "Auto-Update Supported",
            Heading::InstallDate => "Install Date",
        }
    }

    /// The columns shown at first, in order.
    pub fn titles() -> (r: Vec<Heading>)
        ensures
            r@ == seq![Heading::Name, Heading::ID, Heading::Author, Heading::Version, Heading::AutoUpdateSupport, Heading::GameVersion],
    {
        let mut r: Vec<Heading> = Vec::new();
        r.push(Heading::Name);
        r.push(Heading::ID);
        r.push(Heading::Author);
        r.push(Heading::Version);
        r.push(Heading::AutoUpdateSupport);
        r.push(Heading::GameVersion);
        proof {
            assert(r@ =~= seq![Heading::Name, Heading::ID, Heading::Author, Heading::Version, Heading::AutoUpdateSupport, Heading::GameVersion]);
        }
        r
    }
}

/// The columns that can be added, in their declared order: all but the
/// enabled toggle and the search score.
pub open spec fn column_choices() -> Seq<Heading> {
    seq![
        Heading::ID,
        Heading::Name,
        Heading::Author,
        Heading::GameVersion,
        Heading::Version,
        Heading::AutoUpdateSupport,
        Heading::InstallDate,
    ]
}

/// Whether a heading is not among `hs`.
pub open spec fn not_in(hs: Seq<Heading>) -> spec_fn(Heading) -> bool {
    |x: Heading| !hs.contains(x)
}

/// The columns the settings page offers to add: the choices not shown yet.
pub fn addable_headings(headings: &Vec<Heading>) -> (r: Vec<Heading>)
    ensures
        r@ == column_choices().filter(not_in(headings@)),
{
    let mut choices: Vec<Heading> = Vec::new();
    choices.push(Heading::ID);
    choices.push(Heading::Name);
    choices.push(Heading::Author);
    choices.push(Heading::GameVersion);
    choices.push(Heading::Version);
    choices.push(Heading::AutoUpdateSupport);
    choices.push(Heading::InstallDate);
    proof {
        assert(choices@ =~= column_choices());
    }
    let mut r: Vec<Heading> = Vec::new();
    let mut i: usize = 0;
    while i < choices.len()
        invariant
            i <= choices@.len(),
            choices@ == column_choices(),
            r@ == column_choices().take(i as int).filter(not_in(headings@)),
        decreases choices@.len() - i,
    {
        let c = choices[i];
        proof {
            assert(column_choices().take(i + 1) =~= column_choices().take(i as int).push(c));
            column_choices().take(i as int).lemma_filter_push(c, not_in(headings@));
        }
        let mut shown = false;
        let mut k: usize = 0;
        while k < headings.len()
            invariant
                k <= headings@.len(),
                shown == exists|m: int| 0 <= m < k && headings@[m] == c,
            decreases headings@.len() - k,
        {
            if headings[k] == c {
                shown = true;
            }
            k = k + 1;
        }
        proof {
            if shown {
                let m = choose|m: int| 0 <= m < k && headings@[m] == c;
                assert(headings@.contains(c));
            } else {
                assert(!headings@.contains(c));
            }
        }
        if !shown {
            r.push(c);
        }
        i = i + 1;
    }
    proof {
        assert(column_choices().take(7) =~= column_choices());
    }
    r
}

/// Adds a column at the end of the shown ones.
pub fn add_heading(headings: &mut Vec<Heading>, h: Heading)
    ensures
        final(headings)@ == old(headings)@.push(h),
{
    headings.push(h);
}

/// The headings without `h`, in order.
pub open spec fn without_heading(hs: Seq<Heading>, h: Heading) -> Seq<Heading> {
    hs.filter(other_than(h))
}

/// Whether a heading is not `h`.
pub open spec fn other_than(h: Heading) -> spec_fn(Heading) -> bool {
    |x: Heading| x != h
}

/// Removes every occurrence of `h` from the shown columns.
pub fn remove_heading(headings: &mut Vec<Heading>, h: Heading)
    ensures
        final(headings)@ == without_heading(old(headings)@, h),
{
    let ghost orig = headings@;
    let mut kept: Vec<Heading> = Vec::new();
    let mut i: usize = 0;
    while i < headings.len()
        invariant
            i <= headings@.len(),
            headings@ == orig,
            kept@ == without_heading(orig.take(i as int), h),
        decreases headings@.len() - i,
    {
        proof {
            assert(orig.take(i + 1) =~= orig.take(i as int).push(orig[i as int]));
            orig.take(i as int).lemma_filter_push(orig[i as int], other_than(h));
        }
        if headings[i] != h {
            kept.push(headings[i]);
        }
        i = i + 1;
    }
    proof {
        assert(orig.take(orig.len() as int) =~= orig);
    }
    *headings = kept;
}

/// Swaps the columns at `i` and `j`.
pub fn swap_headings(headings: &mut Vec<Heading>, i: usize, j: usize)
    requires
        i < old(headings)@.len(),
        j < old(headings)@.len(),
    ensures
        final(headings)@ == old(headings)@.update(i as int, old(headings)@[j as int]).update(j as int, old(headings)@[i as int]),
{
    let a = headings[i];
    let b = headings[j];
    headings.set(i, b);
    headings.set(j, a);
}

} // verus!
