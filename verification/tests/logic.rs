use std::cmp::Ordering;
use std::rc::Rc;
use std::sync::Arc;

use moss::util::{Collection, ModEntries};

use moss::grid::{get_id_raw, TableDataImpl};
use moss::list_state::{ModList, ModListAction, ModListMessage};
use moss::jre::{
    archive_kind, available_flavours, backup_name, can_pick, is_downloaded, is_java_7, is_offered, jre_path, on_pick,
    revert_plan, revert_reports, swap_plan, swap_reports, ArchiveKind, DotFile, FindBy, Flavour, RevertPlan, RuntimeEntry,
    SearchStep, SwapAction, SwapPlan,
};
use moss::jre_upgrade;
use moss::mod_list::{
    apply_filter, display_order, enabled_ids, heading_pressed, id_of_folder, installation_summary, mark_enabled, master_version_received,
    search, set_all_enabled,
    version_file_entry, InstallOptions,
    ModEntry, ModEntryComp, ToolOptions,
};
use moss::mod_version::{remote_is_newer, ModVersionMeta, UpdateStatus, Version};
use moss::nav::{Nav, NavLabel};
use moss::repo::{ModRepo, ModRepoItem, ModSource, UrlSource};
use moss::settings::{Settings, SettingsAction, SettingsMessage, VMParamChanged};
use moss::sorting::{compare_entries, compare_statuses, compare_text};
use moss::state::{
    add_heading, addable_headings, remove_heading, self_update_files, support_self_update, swap_headings, Heading, InstallDirDelegate,
    SettingsCommand, TextBoxEvent, TextBoxReply, Themes, Tools, UnrarErr, WebClient,
};
use moss::text::{format_i32, parse_i32, parse_u32};
use moss::util::{default_true, latest_release, option_ptr_cmp, Release, ValueFormatter};
use moss::version::{get_quoted_version, parse_game_version, StarsectorVersionDiff};
use moss::vmparams::{TargetOs, Unit, VMParams, Value};

fn s(x: &str) -> String {
    x.to_string()
}

fn chars(x: &str) -> Vec<char> {
    x.chars().collect()
}

fn entry(id: &str, name: &str, author: &str, enabled: bool, status: Option<UpdateStatus>) -> ModEntry {
    ModEntry {
        id: s(id),
        name: s(name),
        author: s(author),
        game_version: s("0.97a"),
        enabled,
        update_status: status,
        direct_download: false,
        display: true,
        search_score: None,
        version_checker: None,
        remote_version: None,
        path: format!("mods/{id}"),
    }
}

fn checker(id: &str, v: Version) -> ModVersionMeta {
    ModVersionMeta {
        remote_url: format!("https://example.org/{id}.version"),
        direct_download_url: None,
        id: s(id),
        fractal_id: String::new(),
        nexus_id: String::new(),
        version: v,
    }
}

#[test]
fn master_version_sets_status_and_keeps_fetched_file() {
    let mut a = entry("a", "A", "x", true, None);
    a.version_checker = Some(checker("a", version(1, 2, "3")));
    let mut b = entry("b", "B", "y", true, None);
    b.version_checker = Some(checker("b", version(0, 9, "")));
    let c = entry("c", "C", "z", true, None);
    let mut list = vec![a, b, c];

    master_version_received(&mut list, "a", Ok(checker("a", version(2, 0, ""))));
    assert!(matches!(&list[0].update_status, Some(UpdateStatus::Major(v)) if v.major == 2 && v.minor == 0));
    assert_eq!(list[0].remote_version.as_ref().map(|m| m.version.major), Some(2));
    assert!(list[1].update_status.is_none());

    master_version_received(&mut list, "a", Ok(checker("a", version(1, 2, "3"))));
    assert!(matches!(list[0].update_status, Some(UpdateStatus::UpToDate)));

    master_version_received(&mut list, "a", Ok(checker("a", version(1, 1, "9"))));
    assert!(matches!(&list[0].update_status, Some(UpdateStatus::Discrepancy(v)) if v.minor == 1));

    master_version_received(&mut list, "b", Err(s("timed out")));
    assert!(matches!(list[1].update_status, Some(UpdateStatus::Error)));
    assert!(list[1].remote_version.is_none());

    master_version_received(&mut list, "b", Ok(checker("b", version(0, 9, "a"))));
    assert!(matches!(&list[1].update_status, Some(UpdateStatus::Patch(v)) if v.patch == "a"));

    // No checker, or no such mod: nothing changes.
    master_version_received(&mut list, "c", Ok(checker("c", version(5, 0, ""))));
    assert!(list[2].update_status.is_none());
    assert!(list[2].remote_version.is_none());
    master_version_received(&mut list, "missing", Err(s("gone")));
    assert_eq!(list.len(), 3);
    assert_eq!(list[2].path, "mods/c");
}

fn version(major: i32, minor: i32, patch: &str) -> Version {
    Version::new(major, minor, s(patch))
}

#[test]
fn game_version_parsing() {
    assert_eq!(parse_game_version("0.97a-RC11"), (Some(s("0")), Some(s("97")), None, Some(s("11"))));
    assert_eq!(parse_game_version("0.95.1a-RC6"), (Some(s("0")), Some(s("95")), Some(s("1")), Some(s("6"))));
    assert_eq!(parse_game_version("0.9.1a"), (Some(s("0")), Some(s("9")), Some(s("1")), None));
    assert_eq!(parse_game_version("0.97a"), (Some(s("0")), Some(s("97")), None, None));
    assert_eq!(parse_game_version("97a-RC11"), (Some(s("0")), Some(s("97")), None, Some(s("11"))));
    assert_eq!(parse_game_version("12"), (None, None, None, None));
    assert_eq!(parse_game_version("garbage"), (Some(s("0")), Some(s("g")), Some(s("rb")), Some(s("ge"))));
}

#[test]
fn quoted_version_round_trip() {
    let v = parse_game_version("0.97a-RC11");
    assert_eq!(get_quoted_version(&v), Some(s("0.97a-RC11")));
    assert_eq!(get_quoted_version(&(None, None, None, None)), None);
    assert_eq!(get_quoted_version(&(None, Some(s("9")), None, None)), Some(s("0.9")));
    assert_eq!(get_quoted_version(&(Some(s("0")), Some(s("95")), Some(s("1")), None)), Some(s("0.95.1")));
}

#[test]
fn version_difference() {
    let a = parse_game_version("0.97a-RC11");
    let b = parse_game_version("0.97a-RC10");
    let c = parse_game_version("0.96a-RC10");
    assert_eq!(StarsectorVersionDiff::between(&a, &a), StarsectorVersionDiff::Same);
    assert_eq!(StarsectorVersionDiff::between(&a, &b), StarsectorVersionDiff::RC);
    assert_eq!(StarsectorVersionDiff::between(&a, &c), StarsectorVersionDiff::Minor);
    assert_eq!(StarsectorVersionDiff::from((&a, &c)), StarsectorVersionDiff::Minor);
}

#[test]
fn mod_versions_order_and_status() {
    let old = version(1, 2, "3");
    let new = version(1, 3, "");
    assert!(old.is_older_than(&new));
    assert!(!new.is_older_than(&old));
    assert!(old < new);
    assert!(old == version(1, 2, "3"));
    assert!(version(1, 2, "10") < version(1, 2, "9"));
    assert_eq!(old.display_string(), "1.2.3");
    assert_eq!(new.display_string(), "1.3");
    assert!(remote_is_newer(&old, &new));
    assert!(!remote_is_newer(&new, &new));

    assert!(matches!(UpdateStatus::from_versions(&old, None), UpdateStatus::Error));
    assert!(matches!(UpdateStatus::from_versions(&old, Some(&old)), UpdateStatus::UpToDate));
    assert!(matches!(UpdateStatus::from_versions(&new, Some(&old)), UpdateStatus::Discrepancy(_)));
    assert!(matches!(UpdateStatus::from_versions(&old, Some(&version(2, 0, ""))), UpdateStatus::Major(_)));
    assert!(matches!(UpdateStatus::from_versions(&old, Some(&new)), UpdateStatus::Minor(_)));
    assert!(matches!(UpdateStatus::from_versions(&old, Some(&version(1, 2, "4"))), UpdateStatus::Patch(_)));
    assert_eq!(UpdateStatus::UpToDate.label(), "Up to date");
    assert_eq!(UpdateStatus::Patch(old).label(), "Patch");
}

#[test]
fn integer_text() {
    assert_eq!(parse_i32(&chars("-2147483648")), Some(i32::MIN));
    assert_eq!(parse_i32(&chars("2147483648")), None);
    assert_eq!(parse_i32(&chars("+12")), Some(12));
    assert_eq!(parse_i32(&chars("-")), None);
    assert_eq!(parse_i32(&chars("")), None);
    assert_eq!(parse_u32(&chars("4294967295")), Some(u32::MAX));
    assert_eq!(parse_u32(&chars("-1")), None);
    assert_eq!(format_i32(-305).into_iter().collect::<String>(), "-305");
    assert_eq!(format_i32(i32::MIN).into_iter().collect::<String>(), "-2147483648");
}

#[test]
fn jre_sources_and_names() {
    assert_eq!(Flavour::Coretto.get_search_strategy(TargetOs::Linux), FindBy::Jre);
    assert_eq!(Flavour::Coretto.get_search_strategy(TargetOs::Windows), FindBy::Bin);
    assert!(Flavour::Azul.get_url(TargetOs::Linux).ends_with("linux_x64.zip"));
    assert_eq!(Flavour::Wisp.dir_name(), "jre_Wisp");
    assert_eq!(Flavour::Miko.download_dir(TargetOs::Linux), "jdk-23+9");
    assert_eq!(Flavour::Miko.download_dir(TargetOs::MacOs), "jre_Miko");
    assert_eq!(Flavour::Original.cached_dir(), "jre7");
    assert_eq!(jre_path(TargetOs::Linux), "jre_linux");
    assert_eq!(Flavour::installed(None), Flavour::Original);
    assert_eq!(Flavour::installed(Some(Flavour::Azul)), Flavour::Azul);
}

#[test]
fn jre_release_and_backup() {
    assert!(is_java_7("JAVA_VERSION=\"1.7.0\"\nOS_NAME=\"Linux\""));
    assert!(is_java_7("  java_version=\"1.7.0\""));
    assert!(!is_java_7("JAVA_VERSION=\"1.8.0\""));
    assert!(!is_java_7(""));
    assert_eq!(backup_name(true, DotFile::Holds(Flavour::Azul)), Some(s("jre7")));
    assert_eq!(backup_name(false, DotFile::Holds(Flavour::Azul)), Some(s("jre_Azul")));
    assert_eq!(backup_name(false, DotFile::Missing), Some(s("jre.bak")));
    assert_eq!(backup_name(false, DotFile::Unreadable), None);
}

#[test]
fn jre_available_and_choices() {
    let present = vec![false, true, false, false, true, true];
    let (current, list) = available_flavours(&present, true, Flavour::Wisp, TargetOs::Linux);
    assert_eq!(current, Flavour::Wisp);
    assert_eq!(list, vec![Flavour::Coretto, Flavour::Azul, Flavour::Original, Flavour::Miko, Flavour::Wisp]);
    let (_, mac) = available_flavours(&present, true, Flavour::Wisp, TargetOs::MacOs);
    assert_eq!(mac, vec![Flavour::Coretto, Flavour::Azul, Flavour::Original, Flavour::Wisp]);

    assert_eq!(on_pick(Flavour::Azul, Flavour::Miko, false), (true, SwapAction::SaveOnly));
    assert_eq!(on_pick(Flavour::Miko, Flavour::Original, true), (false, SwapAction::Revert));
    assert_eq!(on_pick(Flavour::Miko, Flavour::Miko, true), (true, SwapAction::Install(Flavour::Miko)));
    assert_eq!(on_pick(Flavour::Miko, Flavour::Azul, true), (false, SwapAction::Install(Flavour::Azul)));

    let cached = vec![Flavour::Azul];
    assert!(can_pick(Flavour::Original, Flavour::Wisp, &cached));
    assert!(can_pick(Flavour::Azul, Flavour::Wisp, &cached));
    assert!(!can_pick(Flavour::Hotspot, Flavour::Wisp, &cached));
    assert!(is_downloaded(Flavour::Wisp, Flavour::Wisp, &cached));

    assert!(is_offered(Flavour::Azul, &None));
    assert!(!is_offered(Flavour::Miko, &None));
    assert!(is_offered(Flavour::Miko, &Some(parse_game_version("0.97a-RC11"))));
    assert!(!is_offered(Flavour::Miko, &Some(parse_game_version("0.96a-RC10"))));
}

#[test]
fn jre_archive_kinds_and_search() {
    assert_eq!(archive_kind(&[0x1F, 0x8B, 0x08, 0x00]), ArchiveKind::Gzip);
    assert_eq!(archive_kind(&[0x50, 0x4B, 0x03, 0x04]), ArchiveKind::Zip);
    assert_eq!(archive_kind(&[0x50, 0x4B, 0x30, 0x30, 0x50, 0x4B, 0x03, 0x04]), ArchiveKind::Zip);
    assert_eq!(archive_kind(&[0x50, 0x4B, 0x09, 0x09]), ArchiveKind::Other);
    assert_eq!(archive_kind(&[0x1F, 0x8B]), ArchiveKind::Other);

    let names = vec![s("lib"), s("BIN"), s("jre")];
    assert_eq!(FindBy::Bin.visit(&names), SearchStep::ThisFolder);
    assert_eq!(FindBy::Jre.visit(&names), SearchStep::SubFolder(2));
    assert_eq!(FindBy::Jre.visit(&vec![s("lib")]), SearchStep::Descend);
}

#[test]
fn jre_upgrade_page() {
    assert_eq!(jre_upgrade::Flavour::Hotspot.dir_name(), "jre_Hotspot");
    assert!(jre_upgrade::Flavour::Coretto.get_url(TargetOs::Linux).contains("macosx"));
    assert_eq!(jre_upgrade::jre_path(TargetOs::MacOs), "jre_linux");
    assert_eq!(jre_upgrade::Flavour::search_strategy(TargetOs::Windows), FindBy::Bin);
    assert!(jre_upgrade::Flavour::Wisp.is_installed(jre_upgrade::Marker::Holds(jre_upgrade::Flavour::Wisp)));
    assert!(!jre_upgrade::Flavour::Wisp.is_installed(jre_upgrade::Marker::Missing));
    assert!(jre_upgrade::is_gzip(&[0x1F, 0x8B, 0x08]));
    assert_eq!(
        jre_upgrade::backup_name(false, jre_upgrade::Marker::Holds(jre_upgrade::Flavour::Coretto)),
        Some(s("jre_Coretto"))
    );
}

#[test]
fn nav_tree_opens_path() {
    let tree = Nav::new(NavLabel::Root)
        .as_root()
        .with_children(vec![
            Nav::new(NavLabel::Mods).with_children(vec![Nav::new(NavLabel::ModDetails)]),
            Nav::separator(),
            Nav::new(NavLabel::Settings),
        ]);
    assert_eq!(tree.children[0].depth, 1);
    assert_eq!(tree.children[0].children[0].depth, 2);

    let mut tree = tree;
    assert!(tree.set_ancestors_expanded(NavLabel::ModDetails));
    assert!(tree.expanded);
    assert!(tree.children[0].expanded);
    assert!(tree.children[0].children[0].expanded);
    assert!(!tree.children[2].expanded);

    assert!(tree.set_ancestors_expanded(NavLabel::Settings));
    assert!(!tree.children[0].expanded);
    assert!(tree.children[2].expanded);
    assert!(!tree.set_ancestors_expanded(NavLabel::Downloads));
    assert!(!tree.expanded);

    tree.set_override(NavLabel::Mods, Some(true));
    assert_eq!(tree.children[0].override_, Some(true));
    assert_eq!(tree.children[2].override_, None);
    assert_eq!(NavLabel::ModBrowsers.to_string(), "Mod Browsers");
    assert_eq!(String::from(NavLabel::StarmodderDetails), "Starmodder Details");
}

#[test]
fn mod_list_filters_and_ids() {
    let mut list = vec![
        entry("a", "A", "x", true, None),
        entry("b", "B", "y", false, Some(UpdateStatus::Error)),
        entry("c", "C", "z", true, Some(UpdateStatus::Minor(version(1, 1, "")))),
    ];
    apply_filter(&mut list, ToolOptions::FilterEnabled);
    assert_eq!(list.iter().map(|e| e.display).collect::<Vec<_>>(), vec![true, false, true]);
    apply_filter(&mut list, ToolOptions::FilterOutdated);
    assert_eq!(list.iter().map(|e| e.display).collect::<Vec<_>>(), vec![false, false, true]);
    apply_filter(&mut list, ToolOptions::FilterUnsupported);
    assert_eq!(list.iter().map(|e| e.display).collect::<Vec<_>>(), vec![true, false, false]);
    apply_filter(&mut list, ToolOptions::Refresh);
    assert_eq!(list.iter().map(|e| e.display).collect::<Vec<_>>(), vec![true, false, false]);
    assert_eq!(enabled_ids(&list), vec![s("a"), s("c")]);
    set_all_enabled(&mut list, true);
    assert_eq!(enabled_ids(&list), vec![s("a"), s("b"), s("c")]);
    set_all_enabled(&mut list, false);
    assert!(enabled_ids(&list).is_empty());
    assert_eq!(ToolOptions::FilterOutdated.label(), "Show New Version Available");
    assert_eq!(ToolOptions::shown().len(), 10);
    assert_eq!(InstallOptions::FromDownload(s("u"), s("v"), s("p")).label(), "From Download");
    assert_eq!(InstallOptions::shown().len(), 3);
}

#[test]
fn mod_list_sorting_and_search() {
    assert_eq!(heading_pressed((ModEntryComp::ID, false), ModEntryComp::ID), (ModEntryComp::ID, true));
    assert_eq!(heading_pressed((ModEntryComp::ID, true), ModEntryComp::Name), (ModEntryComp::Name, false));

    let mut list = vec![entry("lazylib", "LazyLib", "LazyWizard", true, None), entry("zzz", "Zed", "Q", true, None)];
    let sorting = search(&mut list, "lazy");
    assert_eq!(sorting, (ModEntryComp::Score, true));
    assert!(list[0].display && list[0].search_score.is_some());
    assert!(!list[1].display && list[1].search_score.is_none());
    let sorting = search(&mut list, "");
    assert_eq!(sorting, (ModEntryComp::ID, false));
    assert!(list[1].display);

    let a = entry("a", "Alpha", "x", true, Some(UpdateStatus::Major(version(2, 0, ""))));
    let b = entry("b", "Beta", "y", false, None);
    assert_eq!(compare_entries(&a, &b, (ModEntryComp::ID, false)), Ordering::Less);
    assert_eq!(compare_entries(&a, &b, (ModEntryComp::ID, true)), Ordering::Greater);
    assert_eq!(compare_entries(&a, &b, (ModEntryComp::Enabled, false)), Ordering::Greater);
    assert_eq!(compare_entries(&a, &b, (ModEntryComp::Version, false)), Ordering::Less);
    assert_eq!(compare_entries(&a, &b, (ModEntryComp::Version, true)), Ordering::Greater);
    assert_eq!(compare_text(&s("abc"), &s("abd")), Ordering::Less);
    assert_eq!(
        compare_statuses(&UpdateStatus::Error, &UpdateStatus::Patch(version(1, 0, ""))),
        Ordering::Less
    );
    assert_eq!(
        compare_statuses(&UpdateStatus::Minor(version(1, 2, "")), &UpdateStatus::Minor(version(1, 1, ""))),
        Ordering::Greater
    );

    assert_eq!(installation_summary(&vec![], &vec![]), None);
    assert_eq!(
        installation_summary(&vec![s("a"), s("b")], &vec![s("c")]),
        Some(s("Succesfully installed:\na, b\nFailed to install:\nc"))
    );
    assert_eq!(installation_summary(&vec![], &vec![s("c")]), Some(s("Failed to install:\nc")));
}

#[test]
fn grid_geometry() {
    assert_eq!(TableDataImpl { width: 3, item_count: 0 }.height(), 1);
    assert_eq!(TableDataImpl { width: 3, item_count: 3 }.height(), 1);
    assert_eq!(TableDataImpl { width: 3, item_count: 7 }.height(), 3);
    assert_eq!(TableDataImpl { width: 3, item_count: 9 }.height(), 3);
    assert_eq!(get_id_raw(3, 2, 1), 7);
    assert_eq!(TableDataImpl { width: 3, item_count: 7 }.cell_item(2, 0), Some(6));
    assert_eq!(TableDataImpl { width: 3, item_count: 7 }.cell_item(2, 1), None);
}

fn item(name: &str) -> ModRepoItem {
    ModRepoItem {
        name: s(name),
        summary: Some(s("Caf\u{e9}")),
        description: None,
        mod_version: None,
        game_version: None,
        authors: None,
        urls: None,
        sources: Some(vec![ModSource::Index]),
        categories: None,
        created: None,
        edited: None,
        show_description: false,
        display: true,
        score: None,
    }
}

#[test]
fn repo_paging_and_labels() {
    let repo = ModRepo {
        items: (0..7).map(|i| item(&format!("m{i}"))).collect(),
        last_updated: 0,
        modal: None,
        search: String::new(),
        filters: vec![],
        page_size: Some(3),
        page_number: 2,
    };
    assert_eq!(repo.ids(), vec![6]);
    assert_eq!(repo.len(), 1);
    let first = ModRepo { page_number: 0, ..repo };
    assert_eq!(first.ids(), vec![0, 1, 2]);
    assert_eq!(first.len(), 3);
    let all = ModRepo { page_size: None, ..first };
    assert_eq!(all.len(), 7);
    assert_eq!(all.ids().len(), 7);
    assert!(!all.modal_open());
    assert_eq!(ModRepo::default_page_size(), Some(50));

    assert_eq!(ModSource::ModdingSubforum.label(), "Fractal Mod Forums");
    assert_eq!(UrlSource::DirectDownload.label(), "Raw Url");
    let n = item("Caf\u{e9} Mod").normalized();
    assert_eq!(n.name, "Cafe Mod");
    assert_eq!(n.summary, Some(s("Cafe")));
    assert_eq!(item("Plain").normalized().name, "Plain");
}

#[test]
fn settings_messages() {
    let mut st = Settings::new();
    assert_eq!(st.update(SettingsMessage::PathChanged(s("/x"))), SettingsAction::Done);
    assert_eq!(st.new_dir, None);
    st.update(SettingsMessage::InitRoot(Some(s("/game"))));
    assert!(!st.dirty);
    st.update(SettingsMessage::PathChanged(s("/new")));
    assert_eq!(st.update(SettingsMessage::Close), SettingsAction::CheckPath(s("/new")));
    st.path_checked(s("/new"), false);
    assert_eq!(st.new_dir, None);
    assert_eq!(st.root_dir, Some(s("/game")));
    assert_eq!(st.update(SettingsMessage::OpenNativeFilePick), SettingsAction::PickFolder);
    st.folder_picked(Some(s("/picked")));
    assert_eq!(st.root_dir, Some(s("/picked")));

    let p = VMParams::load_text("-Xms1m -Xmx2m -Xss3k").unwrap();
    st.update(SettingsMessage::InitVMParams(Some(p)));
    st.update(SettingsMessage::VMParamChanged(s("512"), VMParamChanged::MinRam));
    assert_eq!(st.vmparams.unwrap().heap_init, Value { amount: 512, unit: Unit::Mega });
    st.update(SettingsMessage::VMParamChanged(s("abc"), VMParamChanged::MinRam));
    assert_eq!(st.vmparams.unwrap().heap_init.amount, 512);
    st.update(SettingsMessage::VMParamChanged(s(""), VMParamChanged::MaxRam));
    assert_eq!(st.vmparams.unwrap().heap_max.amount, 0);
    st.update(SettingsMessage::UnitChanged(Unit::Giga, VMParamChanged::_StackThread));
    assert_eq!(st.vmparams.unwrap().thread_stack_size, Value { amount: 3, unit: Unit::Giga });
}

#[test]
fn small_state_pieces() {
    assert!(support_self_update(TargetOs::Linux));
    assert!(!support_self_update(TargetOs::MacOs));
    assert_eq!(
        self_update_files(TargetOs::Windows, false),
        Some(("starsector_mod_manager.exe", "tmp_starsector_mod_manager.exe"))
    );
    assert_eq!(self_update_files(TargetOs::MacOs, false), None);
    assert_eq!(UnrarErr::new().err, "Opaque Unrarr Error. Cannot extrapolate due to library limitation.");
    assert_eq!(WebClient::next_timeout(WebClient::TIMEOUT), 150);
    assert_eq!(Themes::WardTwo.as_str(), "Ward Two");
    assert_eq!(Themes::default(), Themes::Retro);
    assert_eq!(Heading::Author.title(), "Author(s)");
    let mut hs = Heading::titles();
    remove_heading(&mut hs, Heading::ID);
    assert_eq!(hs, vec![Heading::Name, Heading::Author, Heading::Version, Heading::AutoUpdateSupport, Heading::GameVersion]);
    swap_headings(&mut hs, 0, 1);
    assert_eq!(hs[0], Heading::Author);
    assert_eq!(
        InstallDirDelegate.event(TextBoxEvent::Complete, "/game", true),
        TextBoxReply::Send(SettingsCommand::UpdateInstallDir(s("/game")))
    );
    assert_eq!(InstallDirDelegate.event(TextBoxEvent::Changed, "/nope", false), TextBoxReply::Nothing);
    assert_eq!(InstallDirDelegate.event(TextBoxEvent::Invalid, "", false), TextBoxReply::CancelEditing);
    let tools = Tools { install_dir: Some(s("/game")), vmparams: None, vmparams_linked: false, jre_23: false };
    assert!(tools.write_vmparams().is_none());

    assert!(default_true());
    let a = Rc::new(5);
    assert!(option_ptr_cmp(&Some(a.clone()), &Some(a.clone())));
    assert!(!option_ptr_cmp(&Some(a.clone()), &Some(Rc::new(5))));
    assert!(!option_ptr_cmp::<i32>(&None, &None));
    assert!(latest_release(vec![]).is_err());
    let r = latest_release(vec![Release { name: s("n"), tag_name: s("v1"), assets: vec![] }]).unwrap();
    assert_eq!(r.tag_name, "v1");

    let f = ValueFormatter;
    assert_eq!(f.format(42), "42");
    assert!(f.validate_partial_input(""));
    assert!(f.validate_partial_input("12"));
    assert!(!f.validate_partial_input("1x"));
    assert_eq!(f.value("7"), Some(7));
    assert_eq!(f.value(""), None);
}

#[test]
fn mod_list_display_order_sorts_shown_entries() {
    let mut hidden = entry("b", "Bravo", "y", true, None);
    hidden.display = false;
    let list = vec![entry("c", "Charlie", "z", false, None), entry("a", "Alpha", "x", true, None), hidden];
    assert_eq!(display_order(&list, (ModEntryComp::ID, false)), vec![1, 0]);
    assert_eq!(display_order(&list, (ModEntryComp::ID, true)), vec![0, 1]);
    assert_eq!(display_order(&list, (ModEntryComp::Enabled, false)), vec![0, 1]);
    // Equal entries keep their order.
    let same = vec![entry("x", "Same", "q", true, None), entry("y", "Same", "q", true, None)];
    assert_eq!(display_order(&same, (ModEntryComp::Name, false)), vec![0, 1]);
    assert_eq!(display_order(&same, (ModEntryComp::Name, true)), vec![0, 1]);
}

#[test]
fn nav_builders_set_their_flags() {
    let n = Nav::new(NavLabel::Mods).linked_to(NavLabel::ModDetails).is_always_open().overridden(false);
    assert_eq!(n.linked, Some(NavLabel::ModDetails));
    assert!(n.always_open);
    assert_eq!(n.override_, Some(false));
    assert!(!n.root);
    assert!(Nav::separator().separator_);
    assert_eq!(
        jre_upgrade::Flavour::placement(true),
        jre_upgrade::Placement::Link
    );
    assert_eq!(jre_upgrade::Flavour::placement(false), jre_upgrade::Placement::Move);
}

#[test]
fn vmparams_lookahead_can_hide_a_flag() {
    // The seven characters taken after a `j` swallow the start of the next
    // word, so that size is left as it was.
    let p = VMParams {
        heap_init: Value { amount: 7, unit: Unit::Mega },
        heap_max: Value { amount: 7, unit: Unit::Mega },
        thread_stack_size: Value { amount: 7, unit: Unit::Mega },
        verify_none: false,
    };
    let out = p.save_text("java -Xms5m -Xmx5m -Xss5m", TargetOs::Linux).expect("save");
    assert_eq!(out, "java -Xms5m -Xmx7M -Xss7M");
    let back = VMParams::load_text(&out).expect("load");
    assert_eq!(back.heap_init, Value { amount: 5, unit: Unit::Mega });
    assert_eq!(back.heap_max, Value { amount: 7, unit: Unit::Mega });
}

#[test]
fn vmparams_round_trip_on_space_separated_words() {
    let p = VMParams {
        heap_init: Value { amount: 2048, unit: Unit::Mega },
        heap_max: Value { amount: 3, unit: Unit::Giga },
        thread_stack_size: Value { amount: 4096, unit: Unit::Kilo },
        verify_none: true,
    };
    let text = "-server -Xms1536m -XX:+UseG1GC -Xmx1536m -Dfoo=bar -Xss2048k";
    let out = p.save_text(text, TargetOs::Linux).expect("save");
    let back = VMParams::load_text(&out).expect("load");
    assert_eq!(back.heap_init, p.heap_init);
    assert_eq!(back.heap_max, p.heap_max);
    assert_eq!(back.thread_stack_size, p.thread_stack_size);
    assert!(back.verify_none);
}

#[test]
fn vmparams_round_trip_across_lines_and_words() {
    let p = VMParams {
        heap_init: Value { amount: 2048, unit: Unit::Mega },
        heap_max: Value { amount: 2048, unit: Unit::Mega },
        thread_stack_size: Value { amount: 4096, unit: Unit::Kilo },
        verify_none: false,
    };
    // Line breaks, tabs, and a `j` whose seven characters run into the next
    // word without reaching a size flag.
    let text = "java.exe -server\r\n\t-Xms1536m \\\n-Xmx1536m -cp a.jar -Dx=y\r\n-Xss2048k \r\n";
    let out = p.save_text(text, TargetOs::Windows).expect("save");
    let back = VMParams::load_text(&out).expect("load");
    assert_eq!(back.heap_init, p.heap_init);
    assert_eq!(back.heap_max, p.heap_max);
    assert_eq!(back.thread_stack_size, p.thread_stack_size);
}

#[test]
fn enabled_list_round_trip() {
    let mut entries = vec![
        entry("a", "A", "x", true, None),
        entry("b", "B", "x", false, None),
        entry("c", "C", "x", true, None),
    ];
    let saved = enabled_ids(&entries);
    assert_eq!(saved, vec![s("a"), s("c")]);
    set_all_enabled(&mut entries, false);
    mark_enabled(&mut entries, &saved);
    let flags: Vec<bool> = entries.iter().map(|e| e.enabled).collect();
    assert_eq!(flags, vec![true, false, true]);
    mark_enabled(&mut entries, &vec![s("b"), s("zzz")]);
    let flags: Vec<bool> = entries.iter().map(|e| e.enabled).collect();
    assert_eq!(flags, vec![false, true, false]);
}

#[test]
fn version_file_is_the_second_csv_line() {
    assert_eq!(version_file_entry("version file\ndata/config/mod.version\n"), Some(s("data/config/mod.version")));
    assert_eq!(version_file_entry("version file\r\nmod.version\r\nother"), Some(s("mod.version")));
    assert_eq!(version_file_entry("version file\nmod.version"), Some(s("mod.version")));
    assert_eq!(version_file_entry("version file\n\n"), Some(s("")));
    assert_eq!(version_file_entry("version file\n"), None);
    assert_eq!(version_file_entry("version file"), None);
    assert_eq!(version_file_entry(""), None);
    assert_eq!(version_file_entry("h\nlast\r"), Some(s("last\r")));
    for text in ["a\nb\r\n", "x\n\r\n", "\n\n\n", "a\r\n\rb\n"] {
        let std_line = std::io::BufRead::lines(text.as_bytes()).nth(1).map(|l| l.unwrap());
        assert_eq!(version_file_entry(text), std_line);
    }
}

#[test]
fn runtime_swap_plans() {
    let already = swap_plan(Flavour::Coretto, Flavour::Coretto, true, true);
    assert_eq!(already, SwapPlan::AlreadyInstalled);
    assert!(swap_reports(already));
    let fresh = swap_plan(Flavour::Original, Flavour::Hotspot, false, true);
    assert_eq!(fresh, SwapPlan::Swap { unpack: true, backup_current: true });
    assert!(!swap_reports(fresh));
    assert_eq!(
        swap_plan(Flavour::Original, Flavour::Coretto, false, false),
        SwapPlan::Swap { unpack: true, backup_current: false }
    );
    assert_eq!(
        swap_plan(Flavour::Wisp, Flavour::Azul, true, true),
        SwapPlan::Swap { unpack: false, backup_current: true }
    );
}

#[test]
fn runtime_revert_plans() {
    let none = revert_plan(Flavour::Coretto, false, RuntimeEntry::Folder);
    assert_eq!(none, RevertPlan::NoBackup);
    assert!(!revert_reports(none));
    let restore = revert_plan(Flavour::Coretto, true, RuntimeEntry::Folder);
    assert_eq!(restore, RevertPlan::Restore(RuntimeEntry::Folder));
    assert!(revert_reports(restore));
    assert_eq!(revert_plan(Flavour::Azul, true, RuntimeEntry::Missing), RevertPlan::Restore(RuntimeEntry::Missing));
    assert_eq!(revert_plan(Flavour::Original, false, RuntimeEntry::Link), RevertPlan::AlreadyOriginal);
    assert!(revert_reports(RevertPlan::AlreadyOriginal));
}

#[test]
fn display_order_is_sorted_throughout() {
    let entries = vec![
        entry("c", "Gamma", "x", true, Some(UpdateStatus::UpToDate)),
        entry("a", "Alpha", "y", false, Some(UpdateStatus::Error)),
        entry("d", "Delta", "x", true, None),
        entry("b", "Beta", "z", true, Some(UpdateStatus::UpToDate)),
    ];
    for sorting in [(ModEntryComp::Name, false), (ModEntryComp::Version, false), (ModEntryComp::Version, true), (ModEntryComp::ID, true)] {
        let order = display_order(&entries, sorting);
        assert_eq!(order.len(), 4);
        for i in 0..order.len() {
            for j in i + 1..order.len() {
                assert_ne!(compare_entries(&entries[order[i]], &entries[order[j]], sorting), Ordering::Greater);
            }
        }
    }
}

#[test]
fn column_choices_leave_out_shown_columns() {
    let mut shown = Heading::titles();
    assert_eq!(addable_headings(&shown), vec![Heading::InstallDate]);
    add_heading(&mut shown, Heading::InstallDate);
    assert!(addable_headings(&shown).is_empty());
    remove_heading(&mut shown, Heading::Author);
    assert_eq!(addable_headings(&shown), vec![Heading::Author]);
    assert_eq!(
        addable_headings(&vec![Heading::Enabled]),
        vec![
            Heading::ID,
            Heading::Name,
            Heading::Author,
            Heading::GameVersion,
            Heading::Version,
            Heading::AutoUpdateSupport,
            Heading::InstallDate
        ]
    );
}

#[test]
fn mod_entries_collect_and_drain() {
    let mut sink = ModEntries(Vec::new());
    assert!(sink.is_empty());
    sink.insert(Arc::new(entry("a", "A", "x", true, None)));
    sink.insert(Arc::new(entry("b", "B", "x", false, None)));
    assert_eq!(sink.len(), 2);
    assert!(!sink.is_empty());
    let drained = sink.drain();
    assert_eq!(drained.iter().map(|e| e.id.clone()).collect::<Vec<_>>(), vec![s("a"), s("b")]);
    assert!(sink.is_empty());
}

#[test]
fn quoting_a_parsed_canonical_version_gives_it_back() {
    for text in ["0.97a-RC11", "0.95.1a-RC6", "0.9.1a-RC8", "0.8a-RC2"] {
        assert_eq!(get_quoted_version(&parse_game_version(text)), Some(s(text)));
    }
}

#[test]
fn mod_list_messages_update_state_and_rescan_after_installs() {
    let mut list = ModList::new();
    let mut entries = vec![entry("a", "A", "x", true, None), entry("b", "B", "y", false, None)];
    assert_eq!(list.get_game_version(), None);
    assert!(list.browse_start().is_none());

    let r = list.update(&mut entries, ModListMessage::SetVersion(s("0.97a-RC11")));
    assert!(r.is_empty());
    assert_eq!(list.get_game_version(), Some(s("0.97a-RC11")));

    // Installing before the game folder is known is refused.
    let r = list.update(&mut entries, ModListMessage::DownloadRequested);
    assert!(matches!(r.as_slice(), [ModListAction::NoInstallDir]));
    assert!(list.installs.is_empty());

    let r = list.update(&mut entries, ModListMessage::SetRoot(Some(s("/games/starsector"))));
    assert!(matches!(r.as_slice(), [ModListAction::Rescan]));
    let r = list.update(&mut entries, ModListMessage::SetRoot(Some(s("/games/starsector"))));
    assert!(r.is_empty());
    assert_eq!(list.browse_start(), Some(s("/games/starsector")));

    let r = list.update(&mut entries, ModListMessage::SourcePicked(Some(s("/downloads"))));
    assert!(matches!(r.as_slice(), [ModListAction::StartInstallation(0)]));
    assert_eq!(list.browse_start(), Some(s("/downloads")));
    let r = list.update(&mut entries, ModListMessage::ReplacementAccepted);
    assert!(matches!(r.as_slice(), [ModListAction::StartInstallation(1)]));
    assert_eq!(list.installs, vec![0, 1]);
    assert_eq!(list.installation_id, 2);

    let r = list.update(&mut entries, ModListMessage::InstallationComplete(0, vec![s("A")], vec![]));
    assert!(matches!(r.as_slice(), [ModListAction::Notify(n), ModListAction::Rescan] if n.starts_with("Succesfully installed:")));
    assert_eq!(list.installs, vec![1]);
    let r = list.update(&mut entries, ModListMessage::InstallationComplete(1, vec![], vec![]));
    assert!(matches!(r.as_slice(), [ModListAction::Rescan]));
    let r = list.update(&mut entries, ModListMessage::SingleInstallComplete);
    assert!(matches!(r.as_slice(), [ModListAction::Rescan]));

    let r = list.update(&mut entries, ModListMessage::Highlighted(s("a")));
    assert!(matches!(r.as_slice(), [ModListAction::Describe(d)] if d == "a"));
    let r = list.update(&mut entries, ModListMessage::Highlighted(s("b")));
    assert!(matches!(r.as_slice(), [ModListAction::Describe(d), ModListAction::Clear(c)] if d == "b" && c == "a"));
    let r = list.update(&mut entries, ModListMessage::Highlighted(s("zzz")));
    assert!(r.is_empty());
    assert_eq!(list.currently_highlighted, Some(s("b")));

    let r = list.update(&mut entries, ModListMessage::ToggleEnabled(s("b"), true));
    assert!(matches!(r.as_slice(), [ModListAction::SaveEnabled(ids)] if ids == &vec![s("a"), s("b")]));
    assert!(entries[1].enabled);
    let r = list.update(&mut entries, ModListMessage::ToggleEnabled(s("a"), false));
    assert!(matches!(r.as_slice(), [ModListAction::SaveEnabled(ids)] if ids == &vec![s("b")]));
    let r = list.update(&mut entries, ModListMessage::ToggleEnabled(s("zzz"), true));
    assert!(r.is_empty());

    let r = list.update(&mut entries, ModListMessage::DuplicateFolder(s("mods/a"), s("a")));
    assert!(matches!(r.as_slice(), [ModListAction::Ask(q)] if q.contains("`a`") && q.contains("ID `a`")));
    let r = list.update(&mut entries, ModListMessage::DuplicateFolder(s("mods/other"), s("other")));
    assert!(matches!(r.as_slice(), [ModListAction::Ask(q)] if q.contains("`other`") && !q.contains("ID")));
    let r = list.update(&mut entries, ModListMessage::DuplicateId(s("b"), s("New B")));
    assert!(matches!(r.as_slice(), [ModListAction::Ask(q)] if q.contains("`b`") && q.contains("`New B`")));
    let r = list.update(&mut entries, ModListMessage::DuplicateId(s("nope"), s("N")));
    assert!(r.is_empty());

    entries[1].version_checker = Some(checker("b", version(1, 0, "")));
    let r = list.update(&mut entries, ModListMessage::MasterVersionReceived(s("b"), Ok(checker("b", version(1, 1, "")))));
    assert!(r.is_empty());
    assert!(matches!(&entries[1].update_status, Some(UpdateStatus::Minor(v)) if v.minor == 1));
    assert!(entries[1].remote_version.is_some());
}

#[test]
fn clashing_folder_names_the_mod_kept_there() {
    let list = vec![entry("a", "A", "x", true, None), entry("b", "B", "y", true, None)];
    assert_eq!(id_of_folder(&list, "mods/b"), Some(s("b")));
    assert_eq!(id_of_folder(&list, "mods/zzz"), None);
}

#[test]
fn mod_list_headings_tools_and_search() {
    let mut list = ModList::new();
    assert_eq!(list.sorting, (ModEntryComp::ID, false));
    let mut entries = vec![
        entry("alpha", "Alpha", "x", true, Some(UpdateStatus::Error)),
        entry("beta", "Beta", "y", false, None),
    ];

    // A new heading starts ascending; pressing it again flips the direction.
    let r = list.update(&mut entries, ModListMessage::HeadingPressed(ModEntryComp::Name));
    assert!(r.is_empty());
    assert_eq!(list.sorting, (ModEntryComp::Name, false));
    list.update(&mut entries, ModListMessage::HeadingPressed(ModEntryComp::Name));
    assert_eq!(list.sorting, (ModEntryComp::Name, true));
    list.update(&mut entries, ModListMessage::HeadingPressed(ModEntryComp::Author));
    assert_eq!(list.sorting, (ModEntryComp::Author, false));

    let r = list.update(&mut entries, ModListMessage::ToolsPressed(ToolOptions::FilterEnabled));
    assert!(r.is_empty());
    assert_eq!((entries[0].display, entries[1].display), (true, false));
    list.update(&mut entries, ModListMessage::ToolsPressed(ToolOptions::FilterDisabled));
    assert_eq!((entries[0].display, entries[1].display), (false, true));
    list.update(&mut entries, ModListMessage::ToolsPressed(ToolOptions::FilterError));
    assert_eq!((entries[0].display, entries[1].display), (true, false));
    list.update(&mut entries, ModListMessage::ToolsPressed(ToolOptions::FilterNone));
    assert_eq!((entries[0].display, entries[1].display), (true, true));
    let r = list.update(&mut entries, ModListMessage::ToolsPressed(ToolOptions::Refresh));
    assert!(matches!(r.as_slice(), [ModListAction::Rescan]));

    // Enabling all needs the game folder.
    let r = list.update(&mut entries, ModListMessage::ToolsPressed(ToolOptions::EnableAll));
    assert!(r.is_empty());
    assert!(!entries[1].enabled);
    list.update(&mut entries, ModListMessage::SetRoot(Some(s("/games/starsector"))));
    let r = list.update(&mut entries, ModListMessage::ToolsPressed(ToolOptions::EnableAll));
    assert!(matches!(r.as_slice(), [ModListAction::SaveEnabled(ids)] if ids == &vec![s("alpha"), s("beta")]));
    assert!(entries[1].enabled);
    let r = list.update(&mut entries, ModListMessage::ToolsPressed(ToolOptions::DisableAll));
    assert!(matches!(r.as_slice(), [ModListAction::SaveEnabled(ids)] if ids.is_empty()));

    let r = list.update(&mut entries, ModListMessage::SearchChanged(s("alp")));
    assert!(r.is_empty());
    assert_eq!(list.sorting, (ModEntryComp::Score, true));
    assert_eq!(list.search_query, Some(s("alp")));
    assert!(entries[0].display && !entries[1].display);
    list.update(&mut entries, ModListMessage::SearchChanged(String::new()));
    assert_eq!(list.sorting, (ModEntryComp::ID, false));
    assert!(entries[0].display && entries[1].display);
}
