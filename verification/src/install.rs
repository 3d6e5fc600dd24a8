//! Installing mods: which extractor an archive needs, what each zip entry
//! becomes, where a mod found in an archive or folder goes, and the running
//! tally of an installation.

use vstd::prelude::*;

use crate::text::contains_string;

verus! {

/// The file type that `infer::get` recognises first in the leading bytes of
/// a file, as its MIME type; `None` when no matcher accepts them.
pub uninterp spec fn infer_mime_result(head: Seq<u8>) -> Option<Seq<char>>;

/// Calls `infer::get` and takes the MIME type of what it recognised. The
/// result is trusted to be what the infer crate returns for these bytes; it
/// is named `infer_mime_result` and not described further.
#[verifier::external_body]
fn infer_mime(head: &[u8]) -> (r: Option<&'static str>)
    ensures
        r.deep_view() == infer_mime_result(head@),
{
    match infer::get(head) {
        Some(kind) => Some(kind.mime_type()),
        None => None,
    }
}

/// The ways the manager can unpack an archive.
#[derive(Debug, Clone, Copy, PartialEq, Eq, Structural)]
pub enum Extractor {
    Rar,
    Zip,
    SevenZip,
    /// Not an archive the manager unpacks.
    Unsupported,
}

/// The extractor for a file of the given MIME type; 7z archives are unpacked
/// on Unix-like systems only.
pub open spec fn spec_extractor(mime: Option<Seq<char>>, unix: bool) -> Extractor {
    match mime {
        Some(m) => if m == "application/vnd.rar"@ {
            Extractor::Rar
        } else if m == "application/zip"@ {
            Extractor::Zip
        } else if m == "application/x-7z-compressed"@ && unix {
            Extractor::SevenZip
        } else {
            Extractor::Unsupported
        },
        None => Extractor::Unsupported,
    }
}

/// Whether two strings hold the same characters.
fn same_text(a: &str, b: &str) -> (r: bool)
    ensures
        r == (a@ == b@),
{
    let x = String::from_str(a);
    let y = String::from_str(b);
    x.eq(&y)
}

/// The extractor for a file of MIME type `mime` (see `spec_extractor`).
pub fn extractor_for(mime: Option<&str>, unix: bool) -> (r: Extractor)
    ensures
        r == spec_extractor(mime.deep_view(), unix),
{
    match mime {
        Some(m) => {
            if same_text(m, "application/vnd.rar") {
                Extractor::Rar
            } else if same_text(m, "application/zip") {
                Extractor::Zip
            } else if same_text(m, "application/x-7z-compressed") && unix {
                Extractor::SevenZip
            } else {
                Extractor::Unsupported
            }
        },
        None => Extractor::Unsupported,
    }
}

/// The extractor for a file whose leading bytes (at most 8192 of them, as
/// `infer::get_from_path` reads) are `head`.
pub fn archive_extractor(head: &[u8], unix: bool) -> (r: Extractor)
    ensures
        r == spec_extractor(infer_mime_result(head@), unix),
{
    let mime = infer_mime(head);
    extractor_for(mime, unix)
}

/// What unpacking does with one entry of a zip archive.
#[derive(Debug, Clone, Copy, PartialEq, Eq, Structural)]
pub enum ZipEntryStep {
    /// The entry's path leaves the destination: it is passed over.
    Skip,
    MakeDir,
    WriteFile,
}

/// An entry whose path stays inside the destination is a folder when its
/// name ends in `/`, a file otherwise.
pub open spec fn spec_zip_entry_step(name: Seq<char>, enclosed: bool) -> ZipEntryStep {
    if !enclosed {
        ZipEntryStep::Skip
    } else if name.len() > 0 && name.last() == '/' {
        ZipEntryStep::MakeDir
    } else {
        ZipEntryStep::WriteFile
    }
}

/// What to do with the zip entry `name`; `enclosed` tells whether its path
/// stays inside the destination.
pub fn zip_entry_step(name: &str, enclosed: bool) -> (r: ZipEntryStep)
    ensures
        r == spec_zip_entry_step(name@, enclosed),
{
    if !enclosed {
        return ZipEntryStep::Skip;
    }
    let n = name.unicode_len();
    if n > 0 && name.get_char(n - 1) == '/' {
        ZipEntryStep::MakeDir
    } else {
        ZipEntryStep::WriteFile
    }
}

/// What a folder entry is.
#[derive(Debug, Clone, Copy, PartialEq, Eq, Structural)]
pub enum EntryKind {
    Dir,
    File,
    /// Neither a folder nor a plain file.
    Other,
}

/// The file that marks a mod's folder.
pub const MOD_INFO: &'static str = "mod_info.json";

/// A folder's entries as names and kinds.
pub open spec fn listing(entries: Seq<(String, EntryKind)>) -> Seq<(Seq<char>, EntryKind)> {
    entries.map_values(|e: (String, EntryKind)| (e.0@, e.1))
}

/// Whether the entry is the mod marker file.
pub open spec fn is_mod_info(e: (Seq<char>, EntryKind)) -> bool {
    e.1 == EntryKind::File && e.0 == MOD_INFO@
}

/// The position of the first mod marker among the entries, or their count.
pub open spec fn mod_info_position(entries: Seq<(Seq<char>, EntryKind)>) -> int
    decreases entries.len(),
{
    if entries.len() == 0 {
        0
    } else if is_mod_info(entries[0]) {
        0
    } else {
        1 + mod_info_position(entries.skip(1))
    }
}

/// The positions, in order, of the folders among the first `n` entries.
pub open spec fn folders_among(entries: Seq<(Seq<char>, EntryKind)>, n: int) -> Seq<usize>
    decreases n,
{
    if n <= 0 {
        seq![]
    } else if entries[n - 1].1 == EntryKind::Dir {
        folders_among(entries, n - 1).push((n - 1) as usize)
    } else {
        folders_among(entries, n - 1)
    }
}

/// How the search for a mod goes through one folder, its entries in the
/// order they are listed: the sub-folders listed before the marker file are
/// searched first, in order, and the first mod found in them is the answer;
/// failing that, the folder itself is the mod when it holds the marker.
pub struct FolderPlan {
    pub search_first: Vec<usize>,
    pub holds_mod_info: bool,
}

/// How the search for a mod goes through a folder with these entries (see
/// `FolderPlan`).
pub fn folder_plan(entries: &Vec<(String, EntryKind)>) -> (r: FolderPlan)
    ensures
        r.search_first@ == folders_among(listing(entries@), mod_info_position(listing(entries@))),
        r.holds_mod_info == (mod_info_position(listing(entries@)) < entries@.len()),
{
    let ghost es = listing(entries@);
    let mut dirs: Vec<usize> = Vec::new();
    let mut k: usize = 0;
    let ghost mut j: int = 0;
    proof {
        assert(es.skip(0) =~= es);
    }
    while k < entries.len()
        invariant
            j == k,
            k <= entries@.len(),
            es == listing(entries@),
            es.len() == entries@.len(),
            forall|i: int| 0 <= i < j ==> !is_mod_info(#[trigger] es[i]),
            mod_info_position(es) == j + mod_info_position(es.skip(j)),
            dirs@ == folders_among(es, j),
        decreases entries@.len() - k,
    {
        proof {
            assert(es[j] == (entries@[j].0@, entries@[j].1));
            assert(es.skip(j)[0] == es[j]);
            assert(es.skip(j).skip(1) =~= es.skip(j + 1));
        }
        let kind = entries[k].1;
        if kind == EntryKind::File && same_text(entries[k].0.as_str(), MOD_INFO) {
            proof {
                assert(mod_info_position(es) == j);
            }
            return FolderPlan { search_first: dirs, holds_mod_info: true };
        }
        if kind == EntryKind::Dir {
            dirs.push(k);
        }
        k = k + 1;
        proof {
            j = j + 1;
        }
    }
    proof {
        assert(es.skip(j) =~= Seq::<(Seq<char>, EntryKind)>::empty());
    }
    FolderPlan { search_first: dirs, holds_mod_info: false }
}

/// Where a mod found in an archive or folder goes.
#[derive(Debug, Clone, Copy, PartialEq, Eq, Structural)]
pub enum Destination {
    /// A mod with the same ID is installed: ask before replacing it.
    ReplaceInstalled,
    /// Nothing is in the way: move the mod into the mods folder, under its ID.
    MoveIn,
    /// A folder named after the ID is in the mods folder: ask before
    /// replacing it.
    ReplaceFolder,
}

/// The destination of a mod with ID `id`, given the IDs installed and whether
/// a folder of that name exists.
pub open spec fn spec_destination(id: Seq<char>, installed: Seq<Seq<char>>, folder_exists: bool) -> Destination {
    if installed.contains(id) {
        Destination::ReplaceInstalled
    } else if folder_exists {
        Destination::ReplaceFolder
    } else {
        Destination::MoveIn
    }
}

/// Where the mod with ID `id` goes (see `spec_destination`).
pub fn destination(id: &str, installed: &Vec<String>, folder_exists: bool) -> (r: Destination)
    ensures
        r == spec_destination(id@, installed.deep_view(), folder_exists),
{
    if contains_string(installed, id) {
        return Destination::ReplaceInstalled;
    }
    if folder_exists {
        Destination::ReplaceFolder
    } else {
        Destination::MoveIn
    }
}

/// The message sent when a downloaded update holds another version than the
/// one announced.
pub const VERSION_MISMATCH: &'static str = "Downloaded version does not match expected version";

/// A downloaded update is accepted only when the version it holds is written
/// exactly as the announced one; otherwise the mismatch is reported.
pub fn check_downloaded_version(found: &str, expected: &str) -> (r: Result<(), String>)
    ensures
        found@ == expected@ ==> r is Ok,
        found@ != expected@ ==> (r matches Err(e) && e@ == VERSION_MISMATCH@),
{
    if same_text(found, expected) {
        Ok(())
    } else {
        Err(String::from_str(VERSION_MISMATCH))
    }
}

/// Whether some mod offered by the "several mods found" dialog has its
/// toggle set to `matches`.
pub fn any_matching(enabled: &Vec<bool>, matches: bool) -> (r: bool)
    ensures
        r == exists|i: int| 0 <= i < enabled@.len() && enabled@[i] == matches,
{
    let mut i: usize = 0;
    while i < enabled.len()
        invariant
            i <= enabled@.len(),
            forall|k: int| 0 <= k < i ==> enabled@[k] != matches,
        decreases enabled@.len() - i,
    {
        if enabled[i] == matches {
            return true;
        }
        i = i + 1;
    }
    false
}

/// Whether every toggle of the "several mods found" dialog is set to
/// `matches` (the dialog closes once none is left on).
pub fn all_matching(enabled: &Vec<bool>, matches: bool) -> (r: bool)
    ensures
        r == forall|i: int| 0 <= i < enabled@.len() ==> enabled@[i] == matches,
{
    let mut i: usize = 0;
    while i < enabled.len()
        invariant
            i <= enabled@.len(),
            forall|k: int| 0 <= k < i ==> enabled@[k] == matches,
        decreases enabled@.len() - i,
    {
        if enabled[i] != matches {
            return false;
        }
        i = i + 1;
    }
    true
}

/// Every toggle is set to `matches` exactly when none is set to the other
/// value: `all_matching(v, m) == !any_matching(v, !m)`. So an empty list of
/// toggles is all on, all off, and has none on.
pub proof fn law_all_matching_is_none_other(enabled: Seq<bool>, matches: bool)
    ensures
        (forall|i: int| 0 <= i < enabled.len() ==> enabled[i] == matches) == !(exists|i: int|
            0 <= i < enabled.len() && enabled[i] == !matches),
        enabled.len() == 0 ==> (forall|i: int| 0 <= i < enabled.len() ==> enabled[i] == matches),
        enabled.len() == 0 ==> !(exists|i: int| 0 <= i < enabled.len() && enabled[i] == matches),
{
}

/// What an installing task reports. `P` is the unpacked folder, which only
/// the caller handles.
pub enum ChannelMessage<P> {
    /// The named mod was installed.
    Success(String),
    /// The named mod, with the ID of the installed mod it clashes with (empty
    /// for a clashing folder), its unpacked folder and the clashing folder.
    Duplicate(String, String, P, Option<String>),
    /// An install failed, with its reason.
    Error(String),
}

/// What an installation shows while it runs.
pub enum Progress<I, P> {
    /// The installation `I` ended: the mods installed and the failures.
    Completed(I, Vec<String>, Vec<String>),
    /// Ask whether to replace a clashing mod.
    Query(String, String, P, Option<String>),
    /// One more mod was installed.
    Finished,
}

/// The running record of an installation: the mods installed and the
/// failures so far, and whether all its tasks have ended.
pub struct Tally {
    pub complete: Vec<String>,
    pub errored: Vec<String>,
    pub finished: bool,
}

/// The record as values: installed, failed, ended.
pub struct TallyView {
    pub complete: Seq<String>,
    pub errored: Seq<String>,
    pub finished: bool,
}

impl View for Tally {
    type V = TallyView;

    open spec fn view(&self) -> TallyView {
        TallyView { complete: self.complete@, errored: self.errored@, finished: self.finished }
    }
}

/// The record after one report (`None`: every task has ended).
pub open spec fn spec_receive<P>(t: TallyView, msg: Option<ChannelMessage<P>>) -> TallyView {
    if t.finished {
        t
    } else {
        match msg {
            Some(ChannelMessage::Success(name)) => TallyView { complete: t.complete.push(name), ..t },
            Some(ChannelMessage::Duplicate(..)) => t,
            Some(ChannelMessage::Error(reason)) => TallyView { errored: t.errored.push(reason), ..t },
            None => TallyView { finished: true, ..t },
        }
    }
}

/// The record after a run of reports, in order.
pub open spec fn spec_run<P>(t: TallyView, msgs: Seq<ChannelMessage<P>>) -> TallyView
    decreases msgs.len(),
{
    if msgs.len() == 0 {
        t
    } else {
        spec_run(spec_receive(t, Some(msgs[0])), msgs.skip(1))
    }
}

/// The names of the installed mods among the reports, in order.
pub open spec fn successes<P>(msgs: Seq<ChannelMessage<P>>) -> Seq<String>
    decreases msgs.len(),
{
    if msgs.len() == 0 {
        seq![]
    } else {
        (match msgs[0] {
            ChannelMessage::Success(name) => seq![name],
            _ => seq![],
        }) + successes(msgs.skip(1))
    }
}

/// The reasons of the failed installs among the reports, in order.
pub open spec fn failures<P>(msgs: Seq<ChannelMessage<P>>) -> Seq<String>
    decreases msgs.len(),
{
    if msgs.len() == 0 {
        seq![]
    } else {
        (match msgs[0] {
            ChannelMessage::Error(reason) => seq![reason],
            _ => seq![],
        }) + failures(msgs.skip(1))
    }
}

impl Tally {
    /// The record of an installation whose tasks have just started.
    pub fn start() -> (r: Tally)
        ensures
            r@.complete.len() == 0,
            r@.errored.len() == 0,
            !r@.finished,
    {
        Tally { complete: Vec::new(), errored: Vec::new(), finished: false }
    }

    /// Takes in one report of installation `id` (`None` once every task has
    /// ended) and says what to show: a query for a clash, a tick for an
    /// installed mod, nothing for a failure, and the two lists at the end.
    /// An ended record takes in nothing more.
    pub fn receive<I, P>(&mut self, id: I, msg: Option<ChannelMessage<P>>) -> (r: Option<Progress<I, P>>)
        ensures
            final(self)@ == spec_receive(old(self)@, msg),
            old(self)@.finished ==> r is None,
            !old(self)@.finished ==> match msg {
                Some(ChannelMessage::Success(_)) => r matches Some(Progress::Finished),
                Some(ChannelMessage::Duplicate(name, clash, folder, old_folder)) => r == Some(
                    Progress::<I, P>::Query(name, clash, folder, old_folder),
                ),
                Some(ChannelMessage::Error(_)) => r is None,
                None => r matches Some(Progress::Completed(j, done, failed)) && j == id && done@
                    == old(self)@.complete && failed@ == old(self)@.errored,
            },
    {
        if self.finished {
            return None;
        }
        match msg {
            Some(ChannelMessage::Success(name)) => {
                self.complete.push(name);
                Some(Progress::Finished)
            },
            Some(ChannelMessage::Duplicate(name, clash, folder, old_folder)) => {
                Some(Progress::Query(name, clash, folder, old_folder))
            },
            Some(ChannelMessage::Error(reason)) => {
                self.errored.push(reason);
                None
            },
            None => {
                self.finished = true;
                Some(Progress::Completed(id, self.complete.clone(), self.errored.clone()))
            },
        }
    }
}

/// An installation that has not ended records, after any run of reports,
/// exactly the installed mods and the failures among them, each in the order
/// reported; a clash changes nothing.
pub proof fn law_tally_records_every_report<P>(t: TallyView, msgs: Seq<ChannelMessage<P>>)
    requires
        !t.finished,
    ensures
        spec_run(t, msgs) == (TallyView {
            complete: t.complete + successes(msgs),
            errored: t.errored + failures(msgs),
            finished: false,
        }),
    decreases msgs.len(),
{
    if msgs.len() == 0 {
        assert(t.complete + successes(msgs) =~= t.complete);
        assert(t.errored + failures(msgs) =~= t.errored);
    } else {
        let next = spec_receive(t, Some(msgs[0]));
        law_tally_records_every_report(next, msgs.skip(1));
        match msgs[0] {
            ChannelMessage::Success(name) => {
                assert(t.complete.push(name) + successes(msgs.skip(1)) =~= t.complete + successes(msgs));
                assert(t.errored + failures(msgs.skip(1)) =~= t.errored + failures(msgs));
            },
            ChannelMessage::Duplicate(..) => {
                assert(t.complete + successes(msgs.skip(1)) =~= t.complete + successes(msgs));
                assert(t.errored + failures(msgs.skip(1)) =~= t.errored + failures(msgs));
            },
            ChannelMessage::Error(reason) => {
                assert(t.complete + successes(msgs.skip(1)) =~= t.complete + successes(msgs));
                assert(t.errored.push(reason) + failures(msgs.skip(1)) =~= t.errored + failures(msgs));
            },
        }
    }
}

} // verus!
