use moss::launch::{apply_default_sizes, launch_args, launch_args_from, release_is_newer, window_title};
use moss::mod_list::{folder_exists_question, id_exists_question};
use moss::text::split_ascii_words;
use moss::util::sanitise;
use moss::vmparams::{Unit, VMParams, Value};

fn owned(words: &[&str]) -> Vec<String> {
    words.iter().map(|w| w.to_string()).collect()
}

#[test]
fn launch_args_drop_the_launcher_and_split_the_rest() {
    let args = launch_args("java.exe -Xms1536m -Xmx1536m\n-Xss2048k\tcom.fs.starfarer.StarfarerLauncher", (1280, 768));
    assert_eq!(
        args,
        Some(owned(&[
            "-DlaunchDirect=true",
            "-DstartRes=1280x768",
            "-DstartFS=false",
            "-DstartSound=true",
            "-Xms1536m",
            "-Xmx1536m",
            "-Xss2048k",
            "com.fs.starfarer.StarfarerLauncher",
        ]))
    );
}

#[test]
fn launch_args_remove_only_the_first_launcher_name() {
    let args = launch_args("java.exe a java.exe", (1920, 1080)).unwrap();
    assert_eq!(&args[4..], &owned(&["a", "java.exe"])[..]);
    assert_eq!(args[1], "-DstartRes=1920x1080");
}

#[test]
fn launch_args_from_empty_text_are_the_fixed_ones() {
    assert_eq!(
        launch_args_from("  \n ", (0, 4294967295)),
        owned(&["-DlaunchDirect=true", "-DstartRes=0x4294967295", "-DstartFS=false", "-DstartSound=true"])
    );
}

#[test]
fn split_ascii_words_matches_std() {
    for text in ["", " ", "a", " a  b\t\nc ", "x\r\ny", "é ü"] {
        let chars: Vec<char> = text.chars().collect();
        let ours: Vec<String> = split_ascii_words(&chars).into_iter().map(|w| w.into_iter().collect()).collect();
        let std: Vec<String> = text.split_ascii_whitespace().map(String::from).collect();
        assert_eq!(ours, std);
    }
}

#[test]
fn unset_sizes_get_defaults() {
    let mut p = VMParams {
        heap_init: Value { amount: 0, unit: Unit::Giga },
        heap_max: Value { amount: 3, unit: Unit::Giga },
        thread_stack_size: Value { amount: 0, unit: Unit::Mega },
        verify_none: true,
    };
    apply_default_sizes(&mut p);
    assert_eq!(p.heap_init, Value { amount: 1536, unit: Unit::Mega });
    assert_eq!(p.heap_max, Value { amount: 3, unit: Unit::Giga });
    assert_eq!(p.thread_stack_size, Value { amount: 1536, unit: Unit::Kilo });
    assert!(p.verify_none);
}

#[test]
fn release_check_compares_tags() {
    assert!(release_is_newer("v0.5.1", "0.5.0"));
    assert!(!release_is_newer("v0.5.0", "0.5.0"));
    assert!(!release_is_newer("v0.4.9", "0.5.0"));
    assert!(release_is_newer("v0.10.0", "0.1.0"));
}

#[test]
fn title_names_the_version() {
    assert_eq!(window_title("0.5.0"), "Starsector Mod Manager v0.5.0");
}

#[test]
fn duplicate_folder_question_names_the_mod_inside() {
    assert_eq!(
        folder_exists_question("Nexerelin", Some("nexerelin")),
        "A folder named `Nexerelin`, containing mod with ID `nexerelin`,  already exists. Do you want to replace it?\nClicking no will cancel the installation of this mod."
    );
    assert_eq!(
        folder_exists_question("Nexerelin", None),
        "A folder named `Nexerelin` already exists. Do you want to replace it?\nClicking no will cancel the installation of this mod."
    );
}

#[test]
fn duplicate_id_question_names_id_and_name() {
    assert_eq!(
        id_exists_question("lw_lazylib", "LazyLib"),
        "A mod with ID `lw_lazylib`, named `LazyLib`, already exists. Do you want to replace it?\nClicking no will cancel the installation of this mod."
    );
}

#[test]
fn dialog_messages_lose_their_quotes() {
    assert_eq!(sanitise("Can't find \"mod_info.json\""), "Can`t find `mod_info.json`");
    assert_eq!(sanitise(""), "");
}
