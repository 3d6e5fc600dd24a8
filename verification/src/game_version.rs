//! Which game version is installed: read from the `versionOnly` constant of
//! the game's `Version` class inside its obfuscated jar, or else from the
//! launcher line of the game's log.

use vstd::prelude::*;
use classfile_parser::constant_info::ConstantInfo;

use crate::patterns::regex_split_result;
use crate::version::{parse_game_version, spec_parse_game_version, GameVersion, SpecGameVersion, VERSION_SEPARATORS};
use crate::vmparams::TargetOs;

verus! {

/// Why the installed version could not be read.
#[derive(Debug, Clone, Copy, PartialEq, Eq, Structural)]
pub enum LoadError {
    NoSuchFile,
    ReadError,
    FormatError,
    /// The jar is not a zip archive the zip crate can open.
    ZipError,
    /// The jar could not be read from disk.
    IoError,
}

/// The game's jar, relative to the install folder, on each system.
pub open spec fn spec_obf_jar_path(os: TargetOs) -> Seq<char> {
    match os {
        TargetOs::Linux => "starfarer_obf.jar"@,
        TargetOs::Windows => "starsector-core/starfarer_obf.jar"@,
        TargetOs::MacOs => "Contents/Resources/Java/starfarer_obf.jar"@,
    }
}

/// Where the game's jar is, relative to the install folder.
pub fn obf_jar_path(os: TargetOs) -> (r: &'static str)
    ensures
        r@ == spec_obf_jar_path(os),
{
    match os {
        TargetOs::Linux => "starfarer_obf.jar",
        TargetOs::Windows => "starsector-core/starfarer_obf.jar",
        TargetOs::MacOs => "Contents/Resources/Java/starfarer_obf.jar",
    }
}

/// Where the game's log is, relative to the install folder.
pub const LOG_PATH: &'static str = "starsector-core/starsector.log";

/// The class that holds the game's version, inside the jar.
pub const VERSION_CLASS: &'static str = "com/fs/starfarer/Version.class";

/// The line of the log that names the version.
pub const LOG_PATTERN: &'static str = "Starting Starsector (.*) launcher";

/// Why an entry could not be taken out of a zip archive.
#[derive(Debug, Clone, Copy, PartialEq, Eq, Structural)]
pub enum ZipFailure {
    /// The bytes are not an archive.
    Archive,
    /// The archive has no such entry, or it cannot be opened.
    Entry,
    /// The entry could not be decompressed.
    Read,
}

/// The contents of entry `name` of the zip archive `archive`, as the zip
/// crate reads them.
pub uninterp spec fn zip_entry_result(archive: Seq<u8>, name: Seq<char>) -> Result<Seq<u8>, ZipFailure>;

/// Opens the archive with `zip::ZipArchive::new`, looks the entry up with
/// `ZipArchive::by_name` and reads it out. The result is trusted to be what
/// the zip crate gives for these bytes and this name; it is named
/// `zip_entry_result` and not described further.
#[verifier::external_body]
fn zip_entry(archive: &[u8], name: &str) -> (r: Result<Vec<u8>, ZipFailure>)
    ensures
        match r {
            Ok(bytes) => zip_entry_result(archive@, name@) == Ok::<Seq<u8>, ZipFailure>(bytes@),
            Err(e) => zip_entry_result(archive@, name@) == Err::<Seq<u8>, ZipFailure>(e),
        },
{
    let mut zip = zip::ZipArchive::new(std::io::Cursor::new(archive)).map_err(|_| ZipFailure::Archive)?;
    let mut entry = zip.by_name(name).map_err(|_| ZipFailure::Entry)?;
    let mut buf = Vec::new();
    std::io::Read::read_to_end(&mut entry, &mut buf).map_err(|_| ZipFailure::Read)?;
    Ok(buf)
}

/// Whether `classfile_parser::class_parser` would compute a constant pool
/// size below zero: the class magic number followed by a pool size of zero.
pub open spec fn empty_pool_header(bytes: Seq<u8>) -> bool {
    bytes.len() >= 10 && bytes[0] == 0xCA && bytes[1] == 0xFE && bytes[2] == 0xBA && bytes[3] == 0xBE && bytes[8]
        == 0 && bytes[9] == 0
}

/// What `classfile_parser::class_parser` reads from a class file, reduced to
/// what the version lookup uses: each field's name index and the contents of
/// its attributes, and the constant pool with the text of each UTF-8
/// constant (`None` for the other constants); `None` when parsing fails.
pub uninterp spec fn class_file_result(bytes: Seq<u8>) -> Option<(Seq<(u16, Seq<Seq<u8>>)>, Seq<Option<Seq<char>>>)>;

/// Parses a class file with `classfile_parser::class_parser` and keeps the
/// fields' name indices and attribute contents and the pool's texts. The
/// result is trusted to be what the parser gives; it is named
/// `class_file_result`. Bytes that would make the parser compute a pool
/// size below zero are left out.
#[verifier::external_body]
fn parse_class(bytes: &[u8]) -> (r: Option<(Vec<(u16, Vec<Vec<u8>>)>, Vec<Option<String>>)>)
    requires
        !empty_pool_header(bytes@),
    ensures
        r.deep_view() == class_file_result(bytes@),
{
    let (_, class) = classfile_parser::class_parser(bytes).ok()?;
    let fields = class.fields.iter().map(|f| (f.name_index, f.attributes.iter().map(|a| a.info.clone()).collect()));
    let pool = class.const_pool.iter().map(|c| match c {
        ConstantInfo::Utf8(u) => Some(u.utf8_string.clone()),
        _ => None,
    });
    Some((fields.collect(), pool.collect()))
}

/// The index that a `ConstantValue` attribute holds: its first two bytes,
/// big-endian.
pub open spec fn constant_value_index(info: Seq<u8>) -> Option<u16> {
    if info.len() >= 2 {
        Some((info[0] * 256 + info[1]) as u16)
    } else {
        None
    }
}

/// Calls `classfile_parser::attribute_info::constant_value_attribute_parser`,
/// which reads one big-endian `u16` and fails on fewer than two bytes.
#[verifier::external_body]
fn constant_value(info: &[u8]) -> (r: Option<u16>)
    ensures
        r == constant_value_index(info@),
{
    match classfile_parser::attribute_info::constant_value_attribute_parser(info) {
        Ok((_, attr)) => Some(attr.constant_value_index),
        Err(_) => None,
    }
}

/// The search of the class's fields for `versionOnly`, in order: the text of
/// the pool entry at the index its `ConstantValue` attribute holds.
/// `Some(None)` when no field gives one; `None` where the lookup fails on
/// the class's contents: a name index of zero or past the pool, a
/// `versionOnly` field without attributes, or a constant index past the
/// pool.
pub open spec fn spec_scan(fields: Seq<(u16, Seq<Seq<u8>>)>, pool: Seq<Option<Seq<char>>>) -> Option<Option<Seq<char>>>
    decreases fields.len(),
{
    if fields.len() == 0 {
        Some(None)
    } else {
        let name_index = fields[0].0;
        let attrs = fields[0].1;
        if name_index == 0 || name_index - 1 >= pool.len() {
            None
        } else if pool[name_index - 1] == Some("versionOnly"@) {
            if attrs.len() == 0 {
                None
            } else {
                match constant_value_index(attrs[0]) {
                    None => spec_scan(fields.skip(1), pool),
                    Some(i) => if i >= pool.len() {
                        None
                    } else {
                        match pool[i as int] {
                            Some(text) => Some(Some(text)),
                            None => spec_scan(fields.skip(1), pool),
                        }
                    },
                }
            }
        } else {
            spec_scan(fields.skip(1), pool)
        }
    }
}

/// Whether two strings hold the same characters.
fn same_string(a: &String, b: &str) -> (r: bool)
    ensures
        r == (a@ == b@),
{
    let other = String::from_str(b);
    a.eq(&other)
}

/// The search for `versionOnly` (see `spec_scan`).
pub fn scan_fields(fields: &Vec<(u16, Vec<Vec<u8>>)>, pool: &Vec<Option<String>>) -> (r: Option<Option<String>>)
    ensures
        r.deep_view() == spec_scan(fields.deep_view(), pool.deep_view()),
{
    let mut k: usize = 0;
    let ghost mut j: int = 0;
    proof {
        assert(fields.deep_view().skip(0) =~= fields.deep_view());
    }
    while k < fields.len()
        invariant
            j == k,
            k <= fields@.len(),
            spec_scan(fields.deep_view(), pool.deep_view()) == spec_scan(fields.deep_view().skip(j), pool.deep_view()),
        decreases fields@.len() - k,
    {
        let ghost rest = fields.deep_view().skip(j);
        proof {
            assert(rest[0] == fields.deep_view()[j]);
            assert(rest.skip(1) =~= fields.deep_view().skip(j + 1));
        }
        let name_index = fields[k].0;
        if name_index == 0 || (name_index - 1) as usize >= pool.len() {
            return None;
        }
        let slot = (name_index - 1) as usize;
        let named = match &pool[slot] {
            Some(name) => same_string(name, "versionOnly"),
            None => false,
        };
        proof {
            assert(pool.deep_view()[slot as int] == pool@[slot as int].deep_view());
        }
        if named {
            if fields[k].1.len() == 0 {
                return None;
            }
            proof {
                assert(fields.deep_view()[j].1[0] == fields@[j].1@[0]@);
            }
            match constant_value(fields[k].1[0].as_slice()) {
                None => {},
                Some(i) => {
                    if i as usize >= pool.len() {
                        return None;
                    }
                    proof {
                        assert(pool.deep_view()[i as int] == pool@[i as int].deep_view());
                    }
                    match &pool[i as usize] {
                        Some(text) => {
                            return Some(Some(text.clone()));
                        },
                        None => {},
                    }
                },
            }
        }
        k = k + 1;
        proof {
            j = j + 1;
        }
    }
    proof {
        assert(fields.deep_view().skip(j).len() == 0);
    }
    Some(None)
}

/// The version text read from the game's jar (see `version_from_jar`).
pub open spec fn spec_version_from_jar(jar: Seq<u8>) -> Result<Seq<char>, LoadError> {
    match zip_entry_result(jar, VERSION_CLASS@) {
        Err(ZipFailure::Archive) => Err(LoadError::ZipError),
        Err(ZipFailure::Entry) => Err(LoadError::NoSuchFile),
        Err(ZipFailure::Read) => Err(LoadError::ReadError),
        Ok(class) => if empty_pool_header(class) {
            Err(LoadError::FormatError)
        } else {
            match class_file_result(class) {
                None => Err(LoadError::FormatError),
                Some((fields, pool)) => match spec_scan(fields, pool) {
                    None => Err(LoadError::ReadError),
                    Some(None) => Err(LoadError::FormatError),
                    Some(Some(text)) => Ok(text),
                },
            }
        },
    }
}

/// The version text held by the game's jar: the `Version` class is taken out
/// (an archive the zip crate cannot open is a zip error, a missing entry no
/// such file, an unreadable one a read error), parsed (a format error when
/// that fails, and for a class whose pool size is zero, which the parser
/// cannot read), and searched for `versionOnly` (a format error when no field
/// gives it; a read error where the search fails on the class's contents,
/// as the failed reading task is reported).
pub fn version_from_jar(jar: &[u8]) -> (r: Result<String, LoadError>)
    ensures
        match r {
            Ok(s) => spec_version_from_jar(jar@) == Ok::<Seq<char>, LoadError>(s@),
            Err(e) => spec_version_from_jar(jar@) == Err::<Seq<char>, LoadError>(e),
        },
{
    let class = match zip_entry(jar, VERSION_CLASS) {
        Ok(bytes) => bytes,
        Err(ZipFailure::Archive) => return Err(LoadError::ZipError),
        Err(ZipFailure::Entry) => return Err(LoadError::NoSuchFile),
        Err(ZipFailure::Read) => return Err(LoadError::ReadError),
    };
    if class.len() >= 10 && class[0] == 0xCA && class[1] == 0xFE && class[2] == 0xBA && class[3] == 0xBE && class[8]
        == 0 && class[9] == 0 {
        return Err(LoadError::FormatError);
    }
    let (fields, pool) = match parse_class(class.as_slice()) {
        Some(parsed) => parsed,
        None => return Err(LoadError::FormatError),
    };
    match scan_fields(&fields, &pool) {
        None => Err(LoadError::ReadError),
        Some(None) => Err(LoadError::FormatError),
        Some(Some(text)) => Ok(text),
    }
}

/// For the first match of `pattern` in `hay` (as `regex::bytes::Regex::captures`
/// finds it), the bytes of capture group `group` if that group took part;
/// the outer `None` when `pattern` does not compile or does not match.
pub uninterp spec fn regex_bytes_capture_result(pattern: Seq<char>, hay: Seq<u8>, group: usize) -> Option<Option<Seq<u8>>>;

/// Compiles `pattern` with `regex::bytes::Regex::new`, finds its first match
/// in `hay` with `captures`, and returns the bytes of group `group`. The
/// result is trusted to be what the regex crate gives; it is named
/// `regex_bytes_capture_result` and not described further.
#[verifier::external_body]
fn regex_bytes_capture(pattern: &str, hay: &[u8], group: usize) -> (r: Option<Option<Vec<u8>>>)
    ensures
        r.deep_view() == regex_bytes_capture_result(pattern@, hay@, group),
{
    match regex::bytes::Regex::new(pattern) {
        Ok(re) => match re.captures(hay) {
            Some(caps) => Some(caps.get(group).map(|m| m.as_bytes().to_vec())),
            None => None,
        },
        Err(_) => None,
    }
}

/// The text that `String::from_utf8` makes of the bytes, `None` when they
/// are not UTF-8.
pub uninterp spec fn utf8_decoded(bytes: Seq<u8>) -> Option<Seq<char>>;

/// Calls `String::from_utf8`. The result is trusted to be what it gives for
/// these bytes; it is named `utf8_decoded` and not described further.
#[verifier::external_body]
fn utf8_string(bytes: Vec<u8>) -> (r: Option<String>)
    ensures
        r.deep_view() == utf8_decoded(bytes@),
{
    String::from_utf8(bytes).ok()
}

/// The version text read from the game's log (see `version_from_log`).
pub open spec fn spec_version_from_log(log: Seq<u8>) -> Result<Seq<char>, LoadError> {
    match regex_bytes_capture_result(LOG_PATTERN@, log, 1) {
        Some(Some(bytes)) => match utf8_decoded(bytes) {
            Some(text) => Ok(text),
            None => Err(LoadError::FormatError),
        },
        _ => Err(LoadError::FormatError),
    }
}

/// The version text named by the log's launcher line; a format error when
/// there is none or it is not UTF-8.
pub fn version_from_log(log: &[u8]) -> (r: Result<String, LoadError>)
    ensures
        match r {
            Ok(s) => spec_version_from_log(log@) == Ok::<Seq<char>, LoadError>(s@),
            Err(e) => spec_version_from_log(log@) == Err::<Seq<char>, LoadError>(e),
        },
{
    match regex_bytes_capture(LOG_PATTERN, log, 1) {
        Some(Some(bytes)) => {
            proof {
                assert(bytes.deep_view() =~= bytes@);
            }
            match utf8_string(bytes) {
                Some(text) => Ok(text),
                None => Err(LoadError::FormatError),
            }
        },
        _ => Err(LoadError::FormatError),
    }
}

/// The installed version: from the jar's bytes (`None`: the jar could not be
/// read, an I/O error), and when that fails from the log's bytes (`None`:
/// the log could not be read, a read error); its text is then split into
/// the version's parts.
pub open spec fn spec_installed_version(jar: Option<Seq<u8>>, log: Option<Seq<u8>>) -> Result<SpecGameVersion, LoadError> {
    let from_jar = match jar {
        Some(j) => spec_version_from_jar(j),
        None => Err(LoadError::IoError),
    };
    let text = match from_jar {
        Ok(t) => Ok(t),
        Err(_) => match log {
            Some(l) => spec_version_from_log(l),
            None => Err(LoadError::ReadError),
        },
    };
    match text {
        Ok(t) => Ok(spec_parse_game_version(regex_split_result(VERSION_SEPARATORS@, t), t)),
        Err(e) => Err(e),
    }
}

/// The installed version (see `spec_installed_version`).
pub fn installed_version(jar: Option<&[u8]>, log: Option<&[u8]>) -> (r: Result<GameVersion, LoadError>)
    ensures
        match r {
            Ok(v) => spec_installed_version(jar.deep_view(), log.deep_view()) == Ok::<SpecGameVersion, LoadError>(
                v.deep_view(),
            ),
            Err(e) => spec_installed_version(jar.deep_view(), log.deep_view()) == Err::<SpecGameVersion, LoadError>(
                e,
            ),
        },
{
    let from_jar = match jar {
        Some(j) => {
            proof {
                assert(j.deep_view() =~= j@);
            }
            version_from_jar(j)
        },
        None => Err(LoadError::IoError),
    };
    let text = match from_jar {
        Ok(t) => Ok(t),
        Err(_) => match log {
            Some(l) => {
                proof {
                    assert(l.deep_view() =~= l@);
                }
                version_from_log(l)
            },
            None => Err(LoadError::ReadError),
        },
    };
    match text {
        Ok(t) => Ok(parse_game_version(t.as_str())),
        Err(e) => Err(e),
    }
}

} // verus!
