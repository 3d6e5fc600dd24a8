use moss::install::{
    all_matching, any_matching, archive_extractor, check_downloaded_version, folder_plan, EntryKind, destination, extractor_for, zip_entry_step, ChannelMessage, Destination,
    Extractor, Progress, Tally, ZipEntryStep, VERSION_MISMATCH,
};

#[test]
fn extractor_follows_mime_type() {
    assert_eq!(extractor_for(Some("application/vnd.rar"), false), Extractor::Rar);
    assert_eq!(extractor_for(Some("application/zip"), false), Extractor::Zip);
    assert_eq!(extractor_for(Some("application/x-7z-compressed"), true), Extractor::SevenZip);
    assert_eq!(extractor_for(Some("application/x-7z-compressed"), false), Extractor::Unsupported);
    assert_eq!(extractor_for(Some("application/gzip"), true), Extractor::Unsupported);
    assert_eq!(extractor_for(None, true), Extractor::Unsupported);
}

#[test]
fn extractor_reads_magic_numbers() {
    assert_eq!(archive_extractor(&[0x50, 0x4B, 0x03, 0x04, 0, 0, 0, 0], true), Extractor::Zip);
    assert_eq!(archive_extractor(&[0x52, 0x61, 0x72, 0x21, 0x1A, 0x07, 0x00], true), Extractor::Rar);
    assert_eq!(archive_extractor(&[0x37, 0x7A, 0xBC, 0xAF, 0x27, 0x1C], true), Extractor::SevenZip);
    assert_eq!(archive_extractor(&[0x37, 0x7A, 0xBC, 0xAF, 0x27, 0x1C], false), Extractor::Unsupported);
    assert_eq!(archive_extractor(b"plain text", true), Extractor::Unsupported);
    assert_eq!(archive_extractor(&[], true), Extractor::Unsupported);
}

#[test]
fn zip_entries_become_folders_files_or_nothing() {
    assert_eq!(zip_entry_step("mod/", true), ZipEntryStep::MakeDir);
    assert_eq!(zip_entry_step("mod/mod_info.json", true), ZipEntryStep::WriteFile);
    assert_eq!(zip_entry_step("../evil/", false), ZipEntryStep::Skip);
    assert_eq!(zip_entry_step("", true), ZipEntryStep::WriteFile);
}

#[test]
fn destination_checks_ids_then_folders() {
    let installed = vec!["lw_lazylib".to_string(), "nexerelin".to_string()];
    assert_eq!(destination("nexerelin", &installed, false), Destination::ReplaceInstalled);
    assert_eq!(destination("nexerelin", &installed, true), Destination::ReplaceInstalled);
    assert_eq!(destination("magiclib", &installed, true), Destination::ReplaceFolder);
    assert_eq!(destination("magiclib", &installed, false), Destination::MoveIn);
    assert_eq!(destination("Nexerelin", &installed, false), Destination::MoveIn);
}

#[test]
fn downloaded_version_must_match() {
    assert_eq!(check_downloaded_version("1.2.3", "1.2.3"), Ok(()));
    assert_eq!(check_downloaded_version("1.2.4", "1.2.3"), Err(VERSION_MISMATCH.to_string()));
}

#[test]
fn tally_reports_every_outcome() {
    let mut t = Tally::start();
    let p: Option<Progress<u32, &str>> = t.receive(7, Some(ChannelMessage::Success("A".to_string())));
    assert!(matches!(p, Some(Progress::Finished)));
    let p = t.receive(7, Some(ChannelMessage::<&str>::Error("broken archive".to_string())));
    assert!(p.is_none());
    let p = t.receive(7, Some(ChannelMessage::Duplicate("B".to_string(), "b".to_string(), "/tmp/b", None)));
    match p {
        Some(Progress::Query(name, id, folder, old)) => {
            assert_eq!(name, "B");
            assert_eq!(id, "b");
            assert_eq!(folder, "/tmp/b");
            assert_eq!(old, None);
        }
        _ => panic!("expected a query"),
    }
    let p = t.receive(7, Some(ChannelMessage::<&str>::Success("C".to_string())));
    assert!(matches!(p, Some(Progress::Finished)));
    let p = t.receive(7, None::<ChannelMessage<&str>>);
    match p {
        Some(Progress::Completed(id, done, failed)) => {
            assert_eq!(id, 7);
            assert_eq!(done, vec!["A".to_string(), "C".to_string()]);
            assert_eq!(failed, vec!["broken archive".to_string()]);
        }
        _ => panic!("expected the end"),
    }
    assert!(t.finished);
    assert!(t.receive(7, Some(ChannelMessage::<&str>::Success("D".to_string()))).is_none());
    assert_eq!(t.complete.len(), 2);
}

#[test]
fn several_found_toggles() {
    let toggles = vec![true, false, true];
    assert!(any_matching(&toggles, false));
    assert!(!all_matching(&toggles, true));
    assert!(all_matching(&vec![false, false], false));
    assert!(!any_matching(&vec![false, false], true));
    assert!(all_matching(&vec![], true));
    assert!(!any_matching(&vec![], true));
}

#[test]
fn mod_search_goes_through_folders_before_the_marker() {
    let entries = vec![
        ("a".to_string(), EntryKind::Dir),
        ("readme.txt".to_string(), EntryKind::File),
        ("mod_info.json".to_string(), EntryKind::File),
        ("b".to_string(), EntryKind::Dir),
    ];
    let plan = folder_plan(&entries);
    assert_eq!(plan.search_first, vec![0]);
    assert!(plan.holds_mod_info);

    let entries = vec![
        ("x".to_string(), EntryKind::Dir),
        ("mod_info.json".to_string(), EntryKind::Dir),
        ("link".to_string(), EntryKind::Other),
        ("z".to_string(), EntryKind::Dir),
    ];
    let plan = folder_plan(&entries);
    assert_eq!(plan.search_first, vec![0, 1, 3]);
    assert!(!plan.holds_mod_info);

    let plan = folder_plan(&vec![]);
    assert!(plan.search_first.is_empty());
    assert!(!plan.holds_mod_info);
}

#[test]
fn all_matching_is_none_of_the_other() {
    for toggles in [vec![], vec![true], vec![false], vec![true, false], vec![false, false, false]] {
        for m in [true, false] {
            assert_eq!(all_matching(&toggles, m), !any_matching(&toggles, !m));
        }
    }
    assert!(all_matching(&vec![], true) && all_matching(&vec![], false) && !any_matching(&vec![], true));
}
