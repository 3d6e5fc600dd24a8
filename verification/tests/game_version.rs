use std::io::Write;

use moss::game_version::{installed_version, obf_jar_path, version_from_jar, version_from_log, LoadError, VERSION_CLASS};
use moss::vmparams::TargetOs;

fn s(x: &str) -> String {
    x.to_string()
}

fn utf8(out: &mut Vec<u8>, text: &str) {
    out.push(1);
    out.extend_from_slice(&(text.len() as u16).to_be_bytes());
    out.extend_from_slice(text.as_bytes());
}

/// A class with one `String` field named `versionOnly` whose constant value
/// attribute holds `value_index`.
fn version_class(version: &str, field_name: &str, value_index: u16) -> Vec<u8> {
    let mut c = vec![0xCA, 0xFE, 0xBA, 0xBE, 0, 0, 0, 52, 0, 6];
    utf8(&mut c, field_name);
    c.extend_from_slice(&[8, 0, 3]);
    utf8(&mut c, version);
    utf8(&mut c, "Ljava/lang/String;");
    utf8(&mut c, "ConstantValue");
    c.extend_from_slice(&[0, 0x21, 0, 0, 0, 0, 0, 0]);
    c.extend_from_slice(&[0, 1, 0, 0x19, 0, 1, 0, 4, 0, 1, 0, 5, 0, 0, 0, 2]);
    c.extend_from_slice(&value_index.to_be_bytes());
    c.extend_from_slice(&[0, 0, 0, 0]);
    c
}

fn jar_with(name: &str, contents: &[u8]) -> Vec<u8> {
    let mut zip = zip::ZipWriter::new(std::io::Cursor::new(Vec::new()));
    zip.start_file(name, zip::write::SimpleFileOptions::default().compression_method(zip::CompressionMethod::Stored))
        .unwrap();
    zip.write_all(contents).unwrap();
    zip.finish().unwrap().into_inner()
}

#[test]
fn version_read_from_the_jar() {
    let jar = jar_with(VERSION_CLASS, &version_class("0.97a-RC11", "versionOnly", 2));
    assert_eq!(version_from_jar(&jar), Ok(s("0.97a-RC11")));
    assert_eq!(
        installed_version(Some(&jar), None),
        Ok((Some(s("0")), Some(s("97")), None, Some(s("11"))))
    );
}

#[test]
fn jar_failures() {
    assert_eq!(version_from_jar(b"not a zip"), Err(LoadError::ZipError));
    let other = jar_with("com/fs/starfarer/Other.class", b"x");
    assert_eq!(version_from_jar(&other), Err(LoadError::NoSuchFile));
    let garbage = jar_with(VERSION_CLASS, b"garbage");
    assert_eq!(version_from_jar(&garbage), Err(LoadError::FormatError));
    let unnamed = jar_with(VERSION_CLASS, &version_class("0.97a", "somethingElse", 2));
    assert_eq!(version_from_jar(&unnamed), Err(LoadError::FormatError));
    let past_pool = jar_with(VERSION_CLASS, &version_class("0.97a", "versionOnly", 40));
    assert_eq!(version_from_jar(&past_pool), Err(LoadError::ReadError));
    let empty_pool = jar_with(VERSION_CLASS, &[0xCA, 0xFE, 0xBA, 0xBE, 0, 0, 0, 52, 0, 0]);
    assert_eq!(version_from_jar(&empty_pool), Err(LoadError::FormatError));
}

#[test]
fn version_read_from_the_log() {
    let log = b"12 INFO  Starting Starsector 0.97a-RC11 launcher\n13 INFO other";
    assert_eq!(version_from_log(log), Ok(s("0.97a-RC11")));
    assert_eq!(version_from_log(b"nothing here"), Err(LoadError::FormatError));
    assert_eq!(version_from_log(b"Starting Starsector \xFF launcher"), Err(LoadError::FormatError));
    assert_eq!(
        installed_version(Some(b"not a zip"), Some(log)),
        Ok((Some(s("0")), Some(s("97")), None, Some(s("11"))))
    );
    assert_eq!(installed_version(None, Some(b"nothing")), Err(LoadError::FormatError));
    assert_eq!(installed_version(None, None), Err(LoadError::ReadError));
}

#[test]
fn jar_locations() {
    assert_eq!(obf_jar_path(TargetOs::Linux), "starfarer_obf.jar");
    assert_eq!(obf_jar_path(TargetOs::Windows), "starsector-core/starfarer_obf.jar");
    assert_eq!(obf_jar_path(TargetOs::MacOs), "Contents/Resources/Java/starfarer_obf.jar");
}
