use moss::vmparams::{LoadError, SaveError, TargetOs, Unit, VMParams, VMParamsPath, VMParamsPathDefault, Value};

const WINDOWS: &str = "java.exe -server -XX:CompilerThreadPriority=1 -XX:+CompilerThreadHintNoPreempt -Djava.library.path=native\\windows -Xms1536m -Xmx1536m -Xss2048k -classpath janino.jar;commons-compiler.jar;commons-compiler-jdk.jar;starfarer.api.jar;starfarer_obf.jar;jogg-0.0.7.jar;jorbis-0.0.15.jar;json.jar;lwjgl.jar;jinput.jar;log4j-1.2.9.jar;lwjgl_util.jar;fs.sound_obf.jar;fs.common_obf.jar;xstream-1.4.10.jar -Dcom.fs.starfarer.settings.paths.saves=..\\saves -Dcom.fs.starfarer.settings.paths.screenshots=..\\screenshots -Dcom.fs.starfarer.settings.paths.mods=..\\mods -Dcom.fs.starfarer.settings.paths.logs=. com.fs.starfarer.StarfarerLauncher\r\n";

const LINUX: &str = "#!/bin/sh\ncd \"$(dirname \"$0\")\" || exit\n./jre_linux/bin/java -server -XX:CompilerThreadPriority=1 -XX:+CompilerThreadHintNoPreempt -Djava.library.path=./native/linux -Xms1536m -Xmx1536m -Xss2048k -classpath janino.jar:commons-compiler.jar:commons-compiler-jdk.jar:starfarer.api.jar:starfarer_obf.jar:jogg-0.0.7.jar:jorbis-0.0.15.jar:json.jar:lwjgl.jar:jinput.jar:log4j-1.2.9.jar:lwjgl_util.jar:fs.sound_obf.jar:fs.common_obf.jar:xstream-1.4.10.jar -Dcom.fs.starfarer.settings.paths.saves=./saves -Dcom.fs.starfarer.settings.paths.screenshots=./screenshots -Dcom.fs.starfarer.settings.paths.mods=./mods -Dcom.fs.starfarer.settings.paths.logs=. -Dcom.fs.starfarer.settings.linux=true com.fs.starfarer.StarfarerLauncher \"$@\"\n";

const MACOS: &str = "#!/bin/sh\ncd \"$(dirname \"$0\")\"/../Resources/Java\n../../Home/bin/java -XX:CompilerThreadPriority=1 \\\n-XX:+CompilerThreadHintNoPreempt \\\n-Djava.library.path=../../Resources/Java \\\n-Xms1536m \\\n-Xmx1536m \\\n-Xss2048k \\\n-Dcom.fs.starfarer.settings.paths.saves=../../../saves \\\n-Dcom.fs.starfarer.settings.paths.screenshots=../../../screenshots \\\n-Dcom.fs.starfarer.settings.paths.mods=../../../mods \\\n-Dcom.fs.starfarer.settings.paths.logs=../../../logs \\\n-Xdock:name=\"Starsector\" \\\n-Xdock:icon=../../Resources/s_icon128.icns \\\n-Dapple.laf.useScreenMenuBar=false \\\n-Dcom.apple.macos.useScreenMenuBar=false \\\n-Dapple.awt.showGrowBox=false \\\n-Dfile.encoding=UTF-8 \\\n${EXTRAARGS} \\\n-classpath \\\n../../Resources/Java/janino.jar:../../Resources/Java/starfarer.api.jar:../../Resources/Java/starfarer_obf.jar \\\ncom.fs.starfarer.StarfarerLauncher\n";

fn test_func(original: &str, verify_none: bool) {
    let vmparams = VMParams::load_text(original);
    assert!(vmparams.is_ok());

    if let Ok(mut vmparams) = vmparams {
        println!("{:?} {:?} {:?}", vmparams.heap_init, vmparams.heap_max, vmparams.thread_stack_size);

        vmparams.heap_init.amount = 2048;
        vmparams.heap_max.amount = 2048;
        vmparams.thread_stack_size.amount = 4096;

        let edited = VMParams {
            heap_init: vmparams.heap_init,
            heap_max: vmparams.heap_max,
            thread_stack_size: vmparams.thread_stack_size,
            verify_none,
        };

        let saved = edited.save_text(original, TargetOs::Linux).expect("Save edited vmparams");
        let edited = VMParams::load_text(&saved).expect("Load edited vmparams");

        assert!(edited.heap_init.amount == 2048);
        assert!(edited.heap_max.amount == 2048);
        assert!(edited.thread_stack_size.amount == 4096);
        assert!(edited.verify_none == verify_none);
    }
}

#[test]
fn test_windows() {
    test_func(WINDOWS, false);
}

#[test]
fn test_linux() {
    test_func(LINUX, false);
}

#[test]
fn test_macos() {
    test_func(MACOS, false);
}

#[test]
fn test_azul() {
    test_func(WINDOWS, true);
}

#[test]
fn vmparams_reads_sizes_and_units() {
    let p = VMParams::load_text("-xms512K -Xmx2g -Xss1M").expect("load");
    assert_eq!(p.heap_init, Value { amount: 512, unit: Unit::Kilo });
    assert_eq!(p.heap_max, Value { amount: 2, unit: Unit::Giga });
    assert_eq!(p.thread_stack_size, Value { amount: 1, unit: Unit::Mega });
    assert!(!p.verify_none);
}

#[test]
fn vmparams_later_flag_wins() {
    let p = VMParams::load_text("-Xms1m -Xmx1m -Xss1m -Xms7g").expect("load");
    assert_eq!(p.heap_init, Value { amount: 7, unit: Unit::Giga });
}

#[test]
fn vmparams_missing_or_malformed_sizes_are_errors() {
    assert_eq!(VMParams::load_text("-Xms1m -Xmx1m").unwrap_err(), LoadError::FormatError);
    assert_eq!(VMParams::load_text("-Xms1x -Xmx1m -Xss1m").unwrap_err(), LoadError::FormatError);
    assert_eq!(VMParams::load_text("-Xmsabcm -Xmx1m -Xss1m").unwrap_err(), LoadError::FormatError);
    assert_eq!(VMParams::load_text("-XMS1m -Xmx1m -Xss1m").unwrap_err(), LoadError::FormatError);
    assert_eq!(VMParams::load_text("").unwrap_err(), LoadError::FormatError);
}

#[test]
fn vmparams_reads_verify_flag() {
    let on = VMParams::load_text("-XVERIFY:NONE -Xms1m -Xmx1m -Xss1m").expect("load");
    assert!(on.verify_none);
    let other = VMParams::load_text("-Xverify:remote -Xms1m -Xmx1m -Xss1m").expect("load");
    assert!(!other.verify_none);
    let bare = VMParams::load_text("-Xverify -Xms1m -Xmx1m -Xss1m").expect("load");
    assert!(!bare.verify_none);
}

#[test]
fn vmparams_save_rewrites_every_size() {
    let p = VMParams {
        heap_init: Value { amount: 3, unit: Unit::Giga },
        heap_max: Value { amount: 4, unit: Unit::Mega },
        thread_stack_size: Value { amount: 5, unit: Unit::Kilo },
        verify_none: false,
    };
    let out = p.save_text("a -Xms1m -XMX22k -xss9G", TargetOs::Linux).expect("save");
    assert_eq!(out, "a -Xms3G -XMX4M -xss5K");
}

#[test]
fn vmparams_save_rejects_malformed_size() {
    let p = VMParams::load_text("-Xms1m -Xmx1m -Xss1m").expect("load");
    assert_eq!(p.save_text("-Xms1m\n-Xmx1m", TargetOs::Linux), Err(SaveError::Format));
    assert_eq!(p.save_text("-Xmsm", TargetOs::Linux), Err(SaveError::Format));
}

#[test]
fn vmparams_save_adds_verify_flag() {
    let mut p = VMParams::load_text("-server -Xms1m -Xmx1m -Xss1m").expect("load");
    p.verify_none = true;
    assert_eq!(p.save_text("-server -Xms1m", TargetOs::Linux).unwrap(), "-Xverify:none -server -Xms1M");
    assert_eq!(
        p.save_text("-server -Xms1m", TargetOs::MacOs).unwrap(),
        "-Xverify:none \\\\n\\t-server -Xms1M"
    );
    assert_eq!(p.save_text("java.exe -Xms1m", TargetOs::Windows).unwrap(), "java.exe -Xverify:none  -Xms1M");
    // A flag already present is set to `none`.
    assert_eq!(p.save_text("-Xverify:remote -server", TargetOs::Linux).unwrap(), "-Xverify:none -server");
}

#[test]
fn vmparams_text_forms() {
    assert_eq!(Unit::Giga.to_string(), "G");
    assert_eq!(Value { amount: -12, unit: Unit::Mega }.to_string(), "-12M");
    assert_eq!(Unit::default(), Unit::Kilo);
    assert_eq!(Unit::all(), vec![Unit::Giga, Unit::Mega, Unit::Kilo]);
    assert_eq!(VMParamsPathDefault::path(TargetOs::Linux), "./starsector.sh");
    assert_eq!(VMParamsPathDefault::path(TargetOs::Windows), "./vmparams");
    assert_eq!(VMParamsPathDefault::path(TargetOs::MacOs), "./Contents/MacOS/starsector_mac.sh");
}

#[test]
fn vmparams_advance_finds_size_end() {
    let s: Vec<char> = "512m rest".chars().collect();
    assert_eq!(VMParams::advance(&s, 0), Ok(4));
    let t: Vec<char> = "512".chars().collect();
    assert_eq!(VMParams::advance(&t, 0), Err(SaveError::Format));
    let u: Vec<char> = "x12g".chars().collect();
    assert_eq!(VMParams::advance(&u, 1), Ok(4));
}

#[test]
fn verification_setting_is_read_back() {
    // In the Linux script the `-server` is taken along with the `j` of
    // `java`, and the macOS script holds neither `-server` nor `java.exe`, so
    // the writer finds no place there to turn verification off.
    for (text, offs) in [(WINDOWS, vec![false, true]), (LINUX, vec![false]), (MACOS, vec![false])] {
        for verify_none in offs {
            let p = VMParams::load_text(text).expect("load");
            let p = VMParams { verify_none, ..p };
            let saved = p.save_text(text, TargetOs::Linux).expect("save");
            assert_eq!(VMParams::load_text(&saved).expect("reload").verify_none, verify_none);
        }
    }
}

#[test]
fn java_exe_gets_the_flag_only_when_verification_is_off() {
    let text = "java.exe -Xms1G -Xmx2G -Xss1M";
    let on = VMParams::load_text(text).expect("load");
    let saved = on.save_text(text, TargetOs::Windows).expect("save");
    assert_eq!(saved, text);
    let off = VMParams { verify_none: true, ..on };
    let saved = off.save_text(text, TargetOs::Windows).expect("save");
    assert_eq!(saved, "java.exe -Xverify:none  -Xms1G -Xmx2G -Xss1M");
}

#[test]
fn an_existing_verification_flag_is_set_to_none() {
    let text = "-server -Xverify:remote -Xms1G -Xmx2G -Xss1M";
    let p = VMParams::load_text(text).expect("load");
    assert!(!p.verify_none);
    let off = VMParams { verify_none: true, ..p };
    let saved = off.save_text(text, TargetOs::Linux).expect("save");
    assert_eq!(saved, "-server -Xverify:none -Xms1G -Xmx2G -Xss1M");
    assert!(VMParams::load_text(&saved).expect("reload").verify_none);
}
