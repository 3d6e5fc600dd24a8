//! The mod list's own state between messages: the game folder, the folder
//! last browsed, the highlighted mod, the running installations, and the game
//! version the list compares mods with; and what each message does to it.

use vstd::prelude::*;

use crate::mod_list::{
    apply_filter, enabled_ids, enabled_ids_of, filter_shows, find_id, first_at_path, first_with_id, folder_exists_question,
    heading_pressed, id_exists_question, id_of_folder, install_summary, installation_summary, master_version_received,
    same_but_shown_enabled, search, searched, set_all_enabled, set_enabled_of, spec_folder_exists_question,
    spec_id_exists_question, with_master_version, ModEntry, ModEntryComp, ToolOptions,
};
use crate::mod_version::{differences_fit, ModVersionMeta};
use crate::patterns::regex_split_result;
use crate::version::{
    get_quoted_version, parse_game_version, spec_parse_game_version, spec_quoted_version, GameVersion, VERSION_SEPARATORS,
};

verus! {

/// The state of the mod list that its messages change.
#[derive(Debug)]
pub struct ModList {
    /// The game's folder, once it is known.
    pub root_dir: Option<String>,
    /// The folder the last file dialog ended in.
    pub last_browsed: Option<String>,
    /// The ID of the highlighted mod.
    pub currently_highlighted: Option<String>,
    /// The IDs of the installations that are running.
    pub installs: Vec<u16>,
    /// The ID the next installation gets.
    pub installation_id: u16,
    /// The game version the mods are compared with.
    pub starsector_version: GameVersion,
    /// The column the list is sorted by, and whether in descending order.
    pub sorting: (ModEntryComp, bool),
    /// The text last typed into the search box.
    pub search_query: Option<String>,
}

/// A message to the mod list, with what the front end found out for it (the
/// folder a dialog picked, the outcome of an installation).
pub enum ModListMessage {
    SetVersion(String),
    SetRoot(Option<String>),
    SetLastBrowsed(Option<String>),
    /// A column's heading was pressed.
    HeadingPressed(ModEntryComp),
    /// An entry of the tool menu was picked.
    ToolsPressed(ToolOptions),
    /// The text of the search box changed.
    SearchChanged(String),
    /// The mod with this ID was clicked.
    Highlighted(String),
    /// The mod with this ID was enabled (`true`) or disabled.
    ToggleEnabled(String, bool),
    /// Files or a folder to install from were picked; the folder they lie in
    /// becomes the last browsed one.
    SourcePicked(Option<String>),
    /// A mod is to be downloaded and installed.
    DownloadRequested,
    /// An installation found a folder of the same name in the mods folder;
    /// the clashing folder and its name.
    DuplicateFolder(String, String),
    /// An installation found a mod with the same ID; the ID and the name of
    /// the mod being installed.
    DuplicateId(String, String),
    /// The user agreed to replace a clashing mod.
    ReplacementAccepted,
    /// The installation with this ID ended, with the mods installed and the
    /// failures.
    InstallationComplete(u16, Vec<String>, Vec<String>),
    /// A replacing installation ended.
    SingleInstallComplete,
    /// The published version file of the mod with this ID was fetched, or
    /// could not be.
    MasterVersionReceived(String, Result<ModVersionMeta, String>),
}

/// What the front end does after a message.
#[derive(Debug)]
pub enum ModListAction {
    /// Read the mods folder again.
    Rescan,
    /// Show the mod with this ID in the description pane and mark it.
    Describe(String),
    /// Unmark the mod with this ID.
    Clear(String),
    /// Start the installation with this ID.
    StartInstallation(u16),
    /// Show this message.
    Notify(String),
    /// Tell the user that the game folder is not set.
    NoInstallDir,
    /// Write the IDs of the enabled mods to the game's list of enabled mods.
    SaveEnabled(Vec<String>),
    /// Ask the user this question; a yes comes back as `ReplacementAccepted`.
    Ask(String),
}

/// The message shown when an installation is asked for before the game folder
/// is known.
pub const NO_INSTALL_DIR: &'static str =
    "No install directory set. Please set the Starsector install directory in Settings.";

/// The folder a file dialog opens in: the last browsed one, or else the game's.
pub open spec fn spec_browse_start(s: ModList) -> Option<Seq<char>> {
    match s.last_browsed {
        Some(p) => Some(p@),
        None => match s.root_dir {
            Some(r) => Some(r@),
            None => None,
        },
    }
}

/// The running installations without the one with ID `id`, in order.
pub open spec fn without_install(ids: Seq<u16>, id: u16) -> Seq<u16>
    decreases ids.len(),
{
    if ids.len() == 0 {
        ids
    } else if ids.last() == id {
        without_install(ids.drop_last(), id)
    } else {
        without_install(ids.drop_last(), id).push(ids.last())
    }
}

/// Whether two optional strings hold the same characters.
fn same_opt_text(a: &Option<String>, b: &Option<String>) -> (r: bool)
    ensures
        r == (a.deep_view() == b.deep_view()),
{
    match (a, b) {
        (Some(x), Some(y)) => x.eq(y),
        (None, None) => true,
        _ => false,
    }
}

/// A copy of an optional string.
fn copy_opt_text(a: &Option<String>) -> (r: Option<String>)
    ensures
        r.deep_view() == a.deep_view(),
{
    match a {
        Some(x) => Some(x.clone()),
        None => None,
    }
}

/// The running installations without the one with ID `id`.
fn remove_install(ids: &Vec<u16>, id: u16) -> (r: Vec<u16>)
    ensures
        r@ == without_install(ids@, id),
{
    let mut out: Vec<u16> = Vec::new();
    let mut i: usize = 0;
    while i < ids.len()
        invariant
            i <= ids@.len(),
            out@ == without_install(ids@.take(i as int), id),
        decreases ids@.len() - i,
    {
        proof {
            assert(ids@.take(i + 1).drop_last() =~= ids@.take(i as int));
        }
        if ids[i] != id {
            out.push(ids[i]);
        }
        i = i + 1;
    }
    proof {
        assert(ids@.take(ids@.len() as int) =~= ids@);
    }
    out
}

impl ModList {
    /// A list that knows no folder, highlights nothing and runs nothing.
    pub fn new() -> (r: Self)
        ensures
            r.root_dir is None,
            r.last_browsed is None,
            r.currently_highlighted is None,
            r.installs@ == Seq::<u16>::empty(),
            r.installation_id == 0,
            r.starsector_version.deep_view() == (
                None::<Seq<char>>,
                None::<Seq<char>>,
                None::<Seq<char>>,
                None::<Seq<char>>,
            ),
            r.sorting == (ModEntryComp::ID, false),
            r.search_query is None,
    {
        ModList {
            root_dir: None,
            last_browsed: None,
            currently_highlighted: None,
            installs: Vec::new(),
            installation_id: 0,
            starsector_version: (None, None, None, None),
            sorting: (ModEntryComp::ID, false),
            search_query: None,
        }
    }

    /// The folder a file dialog opens in (see `spec_browse_start`).
    pub fn browse_start(&self) -> (r: Option<String>)
        ensures
            r.deep_view() == spec_browse_start(*self),
    {
        match &self.last_browsed {
            Some(p) => Some(p.clone()),
            None => copy_opt_text(&self.root_dir),
        }
    }

    /// The game version the mods are compared with, written out (see
    /// `spec_quoted_version`).
    pub fn get_game_version(&self) -> (r: Option<String>)
        ensures
            r.deep_view() == spec_quoted_version(self.starsector_version.deep_view()),
    {
        get_quoted_version(&self.starsector_version)
    }

    /// Registers a new installation and asks for it to start.
    fn start_installation(&mut self) -> (r: ModListAction)
        requires
            old(self).installation_id < u16::MAX,
        ensures
            *final(self) == (ModList {
                installs: final(self).installs,
                installation_id: (old(self).installation_id + 1) as u16,
                ..*old(self)
            }),
            final(self).installs@ == old(self).installs@.push(old(self).installation_id),
            r == ModListAction::StartInstallation(old(self).installation_id),
    {
        let id = self.installation_id;
        self.installs.push(id);
        self.installation_id = id + 1;
        ModListAction::StartInstallation(id)
    }

    /// Takes in one message. `entries` are the mods of the list; only a
    /// highlighted or toggled mod that is among them is acted upon, and only
    /// the tool menu, the search box, a toggle and a fetched version file
    /// change them. Every message that ends an installation makes the list
    /// read the mods folder again, last.
    pub fn update(&mut self, entries: &mut Vec<ModEntry>, message: ModListMessage) -> (r: Vec<ModListAction>)
        requires
            ((message is SourcePicked || message is DownloadRequested) && old(self).root_dir is Some)
                || message is ReplacementAccepted ==> old(self).installation_id < u16::MAX,
            message matches ModListMessage::MasterVersionReceived(id, Ok(m)) ==> forall|k: int|
                first_with_id(old(entries)@, id@, k) && old(entries)@[k].version_checker is Some ==> differences_fit(
                    old(entries)@[k].version_checker->0.version,
                    m.version,
                ),
        ensures
            !(message is MasterVersionReceived || message is ToggleEnabled || message is ToolsPressed
                || message is SearchChanged) ==> final(entries)@ == old(entries)@,
            match message {
                ModListMessage::SetVersion(text) => {
                    &&& *final(self) == (ModList { starsector_version: final(self).starsector_version, ..*old(self) })
                    &&& final(self).starsector_version.deep_view() == spec_parse_game_version(
                        regex_split_result(VERSION_SEPARATORS@, text@),
                        text@,
                    )
                    &&& r@ == Seq::<ModListAction>::empty()
                },
                ModListMessage::SetRoot(root) => if root.deep_view() == old(self).root_dir.deep_view() {
                    *final(self) == *old(self) && r@ == Seq::<ModListAction>::empty()
                } else {
                    *final(self) == (ModList { root_dir: root, ..*old(self) }) && r@ == seq![ModListAction::Rescan]
                },
                ModListMessage::SetLastBrowsed(p) => {
                    *final(self) == (ModList { last_browsed: p, ..*old(self) }) && r@ == Seq::<ModListAction>::empty()
                },
                ModListMessage::HeadingPressed(h) => {
                    &&& *final(self) == (ModList {
                        sorting: if old(self).sorting.0 == h {
                            (h, !old(self).sorting.1)
                        } else {
                            (h, false)
                        },
                        ..*old(self)
                    })
                    &&& r@ == Seq::<ModListAction>::empty()
                },
                ModListMessage::ToolsPressed(t) => {
                    &&& *final(self) == *old(self)
                    &&& if t is EnableAll || t is DisableAll {
                        if old(self).root_dir is Some {
                            &&& final(entries)@.len() == old(entries)@.len()
                            &&& forall|i: int|
                                0 <= i < old(entries)@.len() ==> same_but_shown_enabled(
                                    #[trigger] final(entries)@[i],
                                    old(entries)@[i],
                                ) && final(entries)@[i].enabled == (t is EnableAll) && final(entries)@[i].display
                                    == old(entries)@[i].display
                            &&& r@.len() == 1
                            &&& (r@[0] matches ModListAction::SaveEnabled(ids) && ids.deep_view() == enabled_ids_of(
                                final(entries)@,
                            ))
                        } else {
                            final(entries)@ == old(entries)@ && r@ == Seq::<ModListAction>::empty()
                        }
                    } else if t is Refresh {
                        final(entries)@ == old(entries)@ && r@ == seq![ModListAction::Rescan]
                    } else {
                        &&& final(entries)@.len() == old(entries)@.len()
                        &&& forall|i: int|
                            0 <= i < old(entries)@.len() ==> same_but_shown_enabled(
                                #[trigger] final(entries)@[i],
                                old(entries)@[i],
                            ) && final(entries)@[i].enabled == old(entries)@[i].enabled && final(entries)@[i].display
                                == (match filter_shows(t, old(entries)@[i].enabled, old(entries)@[i].update_status) {
                                Some(b) => b,
                                None => old(entries)@[i].display,
                            })
                        &&& r@ == Seq::<ModListAction>::empty()
                    }
                },
                ModListMessage::SearchChanged(q) => {
                    &&& *final(self) == (ModList { sorting: final(self).sorting, search_query: Some(q), ..*old(self) })
                    &&& final(self).sorting == if q@.len() > 0 {
                        (ModEntryComp::Score, true)
                    } else {
                        (ModEntryComp::ID, false)
                    }
                    &&& final(entries)@.len() == old(entries)@.len()
                    &&& forall|i: int|
                        0 <= i < old(entries)@.len() ==> searched(old(entries)@[i], #[trigger] final(entries)@[i], q@)
                    &&& r@ == Seq::<ModListAction>::empty()
                },
                ModListMessage::Highlighted(id) => if exists|k: int| first_with_id(old(entries)@, id@, k) {
                    &&& *final(self) == (ModList { currently_highlighted: Some(id), ..*old(self) })
                    &&& (r@[0] matches ModListAction::Describe(d) && d@ == id@)
                    &&& match old(self).currently_highlighted {
                        Some(prev) => if prev@ != id@ {
                            r@.len() == 2 && (r@[1] matches ModListAction::Clear(c) && c@ == prev@)
                        } else {
                            r@.len() == 1
                        },
                        None => r@.len() == 1,
                    }
                } else {
                    *final(self) == *old(self) && r@ == Seq::<ModListAction>::empty()
                },
                ModListMessage::ToggleEnabled(id, enabled) => {
                    &&& *final(self) == *old(self)
                    &&& forall|k: int|
                        first_with_id(old(entries)@, id@, k) ==> final(entries)@ == old(entries)@.update(
                            k,
                            ModEntry { enabled, ..old(entries)@[k] },
                        )
                    &&& (forall|k: int| !first_with_id(old(entries)@, id@, k)) ==> final(entries)@ == old(entries)@
                    &&& if (exists|k: int| first_with_id(old(entries)@, id@, k)) && old(self).root_dir is Some {
                        &&& r@.len() == 1
                        &&& (r@[0] matches ModListAction::SaveEnabled(ids) && ids.deep_view() == enabled_ids_of(
                            final(entries)@,
                        ))
                    } else {
                        r@ == Seq::<ModListAction>::empty()
                    }
                },
                ModListMessage::SourcePicked(folder) => if old(self).root_dir is Some {
                    &&& *final(self) == (ModList {
                        last_browsed: folder,
                        installs: final(self).installs,
                        installation_id: (old(self).installation_id + 1) as u16,
                        ..*old(self)
                    })
                    &&& final(self).installs@ == old(self).installs@.push(old(self).installation_id)
                    &&& r@ == seq![ModListAction::StartInstallation(old(self).installation_id)]
                } else {
                    *final(self) == *old(self) && r@ == seq![ModListAction::NoInstallDir]
                },
                ModListMessage::DownloadRequested => if old(self).root_dir is Some {
                    &&& *final(self) == (ModList {
                        installs: final(self).installs,
                        installation_id: (old(self).installation_id + 1) as u16,
                        ..*old(self)
                    })
                    &&& final(self).installs@ == old(self).installs@.push(old(self).installation_id)
                    &&& r@ == seq![ModListAction::StartInstallation(old(self).installation_id)]
                } else {
                    *final(self) == *old(self) && r@ == seq![ModListAction::NoInstallDir]
                },
                ModListMessage::DuplicateFolder(old_path, folder_name) => {
                    &&& *final(self) == *old(self)
                    &&& r@.len() == 1
                    &&& r@[0] matches ModListAction::Ask(q)
                    &&& if exists|k: int| first_at_path(old(entries)@, old_path@, k) {
                        exists|k: int|
                            first_at_path(old(entries)@, old_path@, k) && q@ == spec_folder_exists_question(
                                folder_name@,
                                Some(old(entries)@[k].id@),
                            )
                    } else {
                        q@ == spec_folder_exists_question(folder_name@, None)
                    }
                },
                ModListMessage::DuplicateId(id, name) => {
                    &&& *final(self) == *old(self)
                    &&& if exists|k: int| first_with_id(old(entries)@, id@, k) {
                        &&& r@.len() == 1
                        &&& (r@[0] matches ModListAction::Ask(q) && q@ == spec_id_exists_question(id@, name@))
                    } else {
                        r@ == Seq::<ModListAction>::empty()
                    }
                },
                ModListMessage::ReplacementAccepted => {
                    &&& *final(self) == (ModList {
                        installs: final(self).installs,
                        installation_id: (old(self).installation_id + 1) as u16,
                        ..*old(self)
                    })
                    &&& final(self).installs@ == old(self).installs@.push(old(self).installation_id)
                    &&& r@ == seq![ModListAction::StartInstallation(old(self).installation_id)]
                },
                ModListMessage::InstallationComplete(id, successful, failed) => {
                    &&& *final(self) == (ModList { installs: final(self).installs, ..*old(self) })
                    &&& final(self).installs@ == without_install(old(self).installs@, id)
                    &&& match install_summary(successful.deep_view(), failed.deep_view()) {
                        Some(text) => {
                            &&& r@.len() == 2
                            &&& (r@[0] matches ModListAction::Notify(n) && n@ == text)
                            &&& r@[1] == ModListAction::Rescan
                        },
                        None => r@ == seq![ModListAction::Rescan],
                    }
                },
                ModListMessage::SingleInstallComplete => {
                    *final(self) == *old(self) && r@ == seq![ModListAction::Rescan]
                },
                ModListMessage::MasterVersionReceived(id, res) => {
                    &&& *final(self) == *old(self)
                    &&& r@ == Seq::<ModListAction>::empty()
                    &&& forall|k: int|
                        first_with_id(old(entries)@, id@, k) && old(entries)@[k].version_checker is Some ==> final(entries)@
                            == old(entries)@.update(k, with_master_version(old(entries)@[k], res))
                    &&& (forall|k: int| !(first_with_id(old(entries)@, id@, k) && old(entries)@[k].version_checker is Some))
                        ==> final(entries)@ == old(entries)@
                },
            },
    {
        let mut actions: Vec<ModListAction> = Vec::new();
        match message {
            ModListMessage::SetVersion(text) => {
                self.starsector_version = parse_game_version(text.as_str());
            },
            ModListMessage::SetRoot(root) => {
                if !same_opt_text(&root, &self.root_dir) {
                    self.root_dir = root;
                    actions.push(ModListAction::Rescan);
                }
            },
            ModListMessage::SetLastBrowsed(p) => {
                self.last_browsed = p;
            },
            ModListMessage::HeadingPressed(h) => {
                self.sorting = heading_pressed(self.sorting, h);
            },
            ModListMessage::ToolsPressed(t) => {
                match t {
                    ToolOptions::EnableAll | ToolOptions::DisableAll => {
                        if self.root_dir.is_some() {
                            set_all_enabled(entries, t == ToolOptions::EnableAll);
                            actions.push(ModListAction::SaveEnabled(enabled_ids(entries)));
                        }
                    },
                    ToolOptions::Refresh => {
                        actions.push(ModListAction::Rescan);
                    },
                    _ => {
                        apply_filter(entries, t);
                    },
                }
            },
            ModListMessage::SearchChanged(q) => {
                self.sorting = search(entries, q.as_str());
                self.search_query = Some(q);
            },
            ModListMessage::Highlighted(id) => {
                if find_id(entries, id.as_str()).is_some() {
                    let previous = copy_opt_text(&self.currently_highlighted);
                    actions.push(ModListAction::Describe(id.clone()));
                    match previous {
                        Some(prev) => {
                            if !prev.eq(&id) {
                                actions.push(ModListAction::Clear(prev));
                            }
                        },
                        None => {},
                    }
                    self.currently_highlighted = Some(id);
                }
            },
            ModListMessage::ToggleEnabled(id, enabled) => {
                if find_id(entries, id.as_str()).is_some() {
                    set_enabled_of(entries, id.as_str(), enabled);
                    if self.root_dir.is_some() {
                        actions.push(ModListAction::SaveEnabled(enabled_ids(entries)));
                    }
                }
            },
            ModListMessage::SourcePicked(folder) => {
                if self.root_dir.is_some() {
                    self.last_browsed = folder;
                    let a = self.start_installation();
                    actions.push(a);
                } else {
                    actions.push(ModListAction::NoInstallDir);
                }
            },
            ModListMessage::DownloadRequested => {
                if self.root_dir.is_some() {
                    let a = self.start_installation();
                    actions.push(a);
                } else {
                    actions.push(ModListAction::NoInstallDir);
                }
            },
            ModListMessage::DuplicateFolder(old_path, folder_name) => {
                let q = match id_of_folder(entries, old_path.as_str()) {
                    Some(id) => folder_exists_question(folder_name.as_str(), Some(id.as_str())),
                    None => folder_exists_question(folder_name.as_str(), None),
                };
                actions.push(ModListAction::Ask(q));
            },
            ModListMessage::DuplicateId(id, name) => {
                if find_id(entries, id.as_str()).is_some() {
                    actions.push(ModListAction::Ask(id_exists_question(id.as_str(), name.as_str())));
                }
            },
            ModListMessage::ReplacementAccepted => {
                let a = self.start_installation();
                actions.push(a);
            },
            ModListMessage::InstallationComplete(id, successful, failed) => {
                self.installs = remove_install(&self.installs, id);
                match installation_summary(&successful, &failed) {
                    Some(text) => actions.push(ModListAction::Notify(text)),
                    None => {},
                }
                actions.push(ModListAction::Rescan);
            },
            ModListMessage::SingleInstallComplete => {
                actions.push(ModListAction::Rescan);
            },
            ModListMessage::MasterVersionReceived(id, res) => {
                master_version_received(entries, id.as_str(), res);
            },
        }
        actions
    }
}

} // verus!
