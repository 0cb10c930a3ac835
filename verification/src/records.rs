//! The list of completed downloads.
//!
//! The list in memory mirrors the record file. Every function here that
//! changes the list leaves it in the state that is to be written out
//! next, and tells its caller which file to touch: nothing here reads or
//! writes a file.

use crate::text::{blank, decimal, decimal_string, is_blank};
use vstd::prelude::*;

verus! {

/// One completed download.
#[derive(Debug, PartialEq, Eq)]
pub struct DownloadRecord {
    /// The stable identifier of the record.
    pub id: String,
    /// The name of the file in its directory.
    pub filename: String,
    /// The path of the file: the final one, never that of a staging file.
    pub path: String,
    /// The size of the file in bytes.
    pub size: u64,
    /// When the download completed, in milliseconds since the Unix epoch.
    pub timestamp: i64,
}

/// What a record says.
pub struct RecordView {
    pub id: Seq<char>,
    pub filename: Seq<char>,
    pub path: Seq<char>,
    pub size: u64,
    pub timestamp: i64,
}

impl View for DownloadRecord {
    type V = RecordView;

    open spec fn view(&self) -> RecordView {
        RecordView {
            id: self.id@,
            filename: self.filename@,
            path: self.path@,
            size: self.size,
            timestamp: self.timestamp,
        }
    }
}

impl Clone for DownloadRecord {
    fn clone(&self) -> (r: Self)
        ensures
            r@ == self@,
    {
        self.duplicate()
    }
}

/// What a list of records says.
pub open spec fn views(records: Seq<DownloadRecord>) -> Seq<RecordView> {
    records.map_values(|record: DownloadRecord| record@)
}

/// The position of the first record at or after `from` whose identifier is
/// `id`, or the length of the list if there is none.
pub open spec fn position_from(records: Seq<RecordView>, id: Seq<char>, from: int) -> int
    decreases records.len() - from,
{
    if from < 0 || from >= records.len() {
        records.len() as int
    } else if records[from].id == id {
        from
    } else {
        position_from(records, id, from + 1)
    }
}

/// The position of the first record whose identifier is `id`, or the
/// length of the list if there is none.
pub open spec fn position_of(records: Seq<RecordView>, id: Seq<char>) -> int {
    position_from(records, id, 0)
}

/// The list holds a record whose identifier is `id`.
pub open spec fn has_record(records: Seq<RecordView>, id: Seq<char>) -> bool {
    position_of(records, id) < records.len()
}

/// Why a request on the record list was refused.
#[derive(Clone, Debug, PartialEq, Eq)]
pub enum RecordError {
    /// The new name is empty or blank.
    InvalidFilename,
    /// No record has the identifier.
    NotFound,
    /// The record's path has no parent directory.
    InvalidPath,
    /// A file with the new name is already there.
    AlreadyExists,
    /// The file could not be renamed; the text is the error message.
    RenameFailed(String),
}

impl RecordError {
    /// The message shown to the user.
    pub open spec fn message_text(self) -> Seq<char> {
        match self {
            RecordError::InvalidFilename => "Invalid filename"@,
            RecordError::NotFound => "Download not found"@,
            RecordError::InvalidPath => "Invalid path"@,
            RecordError::AlreadyExists => "File already exists"@,
            RecordError::RenameFailed(message) => "Failed to rename file: "@ + message@,
        }
    }

    /// Renders the message shown to the user.
    pub fn message(&self) -> (r: String)
        ensures
            r@ == self.message_text(),
    {
        match self {
            RecordError::InvalidFilename => String::from_str("Invalid filename"),
            RecordError::NotFound => String::from_str("Download not found"),
            RecordError::InvalidPath => String::from_str("Invalid path"),
            RecordError::AlreadyExists => String::from_str("File already exists"),
            RecordError::RenameFailed(message) => {
                String::from_str("Failed to rename file: ").concat(message.as_str())
            },
        }
    }
}

/// What became of a file that was to be renamed.
#[derive(Clone, Debug, PartialEq, Eq)]
pub enum FileRename {
    /// A file was found at the new path, and nothing was touched.
    TargetExists,
    /// The rename was tried and failed; the text is the error message.
    Failed(String),
    /// The file now has the new path.
    Renamed,
}

/// The two paths of a rename.
#[derive(Clone, Debug, PartialEq, Eq)]
pub struct RenameTarget {
    /// Where the file is.
    pub old_path: String,
    /// Where the file is to be.
    pub new_path: String,
}

/// The directory part of a path, as `std::path::Path::parent` gives it
/// for the platform that the library is built for; `None` where the path
/// ends in a root or is empty.
pub uninterp spec fn path_parent(path: Seq<char>) -> Option<Seq<char>>;

/// A directory path extended by a name, as `std::path::Path::join` gives
/// it for the platform that the library is built for.
pub uninterp spec fn path_join(directory: Seq<char>, name: Seq<char>) -> Seq<char>;

/// Calls `std::path::Path::parent` on a path given as text. The contract
/// claims only that the result is a function of the path's text, which is
/// named [`path_parent`].
#[verifier::external_body]
fn parent_of(path: &str) -> (r: Option<String>)
    ensures
        r is Some <==> path_parent(path@) is Some,
        r matches Some(directory) ==> directory@ == path_parent(path@)->0,
{
    std::path::Path::new(path).parent().map(|directory| directory.to_string_lossy().into_owned())
}

/// Calls `std::path::Path::join` on a directory and a name given as text.
/// The contract claims only that the result is a function of the two
/// texts, which is named [`path_join`].
#[verifier::external_body]
pub(crate) fn join_path(directory: &str, name: &str) -> (r: String)
    ensures
        r@ == path_join(directory@, name@),
{
    std::path::Path::new(directory).join(name).to_string_lossy().into_owned()
}

/// The path of a file's sibling named `name`; `None` where the file's path
/// has no parent directory.
pub open spec fn sibling_path(path: Seq<char>, name: Seq<char>) -> Option<Seq<char>> {
    match path_parent(path) {
        Some(directory) => Some(path_join(directory, name)),
        None => None,
    }
}

fn sibling_of(path: &str, name: &str) -> (r: Option<String>)
    ensures
        r is Some <==> sibling_path(path@, name@) is Some,
        r matches Some(sibling) ==> sibling@ == sibling_path(path@, name@)->0,
{
    match parent_of(path) {
        Some(directory) => Some(join_path(directory.as_str(), name)),
        None => None,
    }
}

impl DownloadRecord {
    /// A copy of the record.
    pub fn duplicate(&self) -> (r: DownloadRecord)
        ensures
            r@ == self@,
    {
        DownloadRecord {
            id: self.id.clone(),
            filename: self.filename.clone(),
            path: self.path.clone(),
            size: self.size,
            timestamp: self.timestamp,
        }
    }

    /// The record of a download that has just completed: its identifier is
    /// the task identifier written in decimal.
    pub fn completed(task_id: u64, filename: String, path: String, size: u64, timestamp: i64) -> (r:
        DownloadRecord)
        ensures
            r@ == (RecordView {
                id: decimal(task_id as nat),
                filename: filename@,
                path: path@,
                size,
                timestamp,
            }),
    {
        DownloadRecord { id: decimal_string(task_id as u128), filename, path, size, timestamp }
    }
}

/// Finds the first record whose identifier is `id`.
pub fn find_record(records: &Vec<DownloadRecord>, id: &str) -> (r: Option<usize>)
    ensures
        match r {
            Some(at) => at < records.len() && at == position_of(views(records@), id@),
            None => !has_record(views(records@), id@),
        },
{
    let wanted = String::from_str(id);
    let mut at: usize = 0;
    while at < records.len()
        invariant
            at <= records.len(),
            wanted@ == id@,
            position_of(views(records@), id@) == position_from(views(records@), id@, at as int),
        decreases records.len() - at,
    {
        if records[at].id == wanted {
            return Some(at);
        }
        at += 1;
    }
    None
}

/// Adds the record of a completed download at the end of the list.
pub fn add_record(records: &mut Vec<DownloadRecord>, record: DownloadRecord)
    ensures
        views(final(records)@) == views(old(records)@).push(record@),
{
    records.push(record);
    assert(views(records@) =~= views(old(records)@).push(record@));
}

/// Copies the list for a caller.
pub fn get_downloads(records: &Vec<DownloadRecord>) -> (r: Vec<DownloadRecord>)
    ensures
        views(r@) == views(records@),
{
    let mut r: Vec<DownloadRecord> = Vec::new();
    let mut i: usize = 0;
    while i < records.len()
        invariant
            i <= records.len(),
            r@.len() == i,
            forall|j: int| 0 <= j < i ==> (#[trigger] r@[j])@ == records@[j]@,
        decreases records.len() - i,
    {
        r.push(records[i].duplicate());
        i += 1;
    }
    assert(views(r@) =~= views(records@));
    r
}

/// Removes the first record whose identifier is `id` and answers with the
/// path of its file, which the caller deletes as well as it can. With no
/// such record the list stays as it is.
pub fn delete_download(records: &mut Vec<DownloadRecord>, id: &str) -> (r: Result<
    String,
    RecordError,
>)
    ensures
        has_record(views(old(records)@), id@) ==> {
            let at = position_of(views(old(records)@), id@);
            &&& r matches Ok(path)
            &&& path@ == views(old(records)@)[at].path
            &&& views(final(records)@) == views(old(records)@).remove(at)
        },
        !has_record(views(old(records)@), id@) ==> {
            &&& r matches Err(RecordError::NotFound)
            &&& views(final(records)@) == views(old(records)@)
        },
{
    match find_record(records, id) {
        Some(at) => {
            let record = records.remove(at);
            assert(views(records@) =~= views(old(records)@).remove(at as int));
            Ok(record.path)
        },
        None => Err(RecordError::NotFound),
    }
}

/// Empties the list and answers with the paths of all the files, in the
/// order of their records, which the caller deletes as well as it can.
pub fn delete_all_downloads(records: &mut Vec<DownloadRecord>) -> (paths: Vec<String>)
    ensures
        final(records)@.len() == 0,
        paths@.len() == old(records)@.len(),
        forall|i: int|
            0 <= i < paths@.len() ==> (#[trigger] paths@[i])@ == views(old(records)@)[i].path,
{
    let mut paths: Vec<String> = Vec::new();
    let mut i: usize = 0;
    while i < records.len()
        invariant
            i <= records.len(),
            records@ == old(records)@,
            paths@.len() == i,
            forall|j: int| 0 <= j < i ==> (#[trigger] paths@[j])@ == views(records@)[j].path,
        decreases records.len() - i,
    {
        paths.push(records[i].path.clone());
        i += 1;
    }
    records.clear();
    paths
}

/// Gives the record at `at` a new file name and path.
pub fn apply_rename(records: &mut Vec<DownloadRecord>, at: usize, new_name: String, new_path: String)
    requires
        at < old(records)@.len(),
    ensures
        views(final(records)@) == views(old(records)@).update(
            at as int,
            RecordView { filename: new_name@, path: new_path@, ..views(old(records)@)[at as int] },
        ),
{
    let mut record = records.remove(at);
    record.filename = new_name;
    record.path = new_path;
    records.insert(at, record);
    assert(views(records@) =~= views(old(records)@).update(
        at as int,
        RecordView { filename: new_name@, path: new_path@, ..views(old(records)@)[at as int] },
    ));
}

/// What a rename request comes to, given all that is known of it: whether
/// the new name is blank, where the record is, the new path of its file,
/// and what became of the file.
pub open spec fn rename_verdict(
    name_is_blank: bool,
    found: bool,
    has_new_path: bool,
    outcome: FileRename,
) -> Result<(), RecordError> {
    if name_is_blank {
        Err(RecordError::InvalidFilename)
    } else if !found {
        Err(RecordError::NotFound)
    } else if !has_new_path {
        Err(RecordError::InvalidPath)
    } else {
        match outcome {
            FileRename::TargetExists => Err(RecordError::AlreadyExists),
            FileRename::Failed(message) => Err(RecordError::RenameFailed(message)),
            FileRename::Renamed => Ok(()),
        }
    }
}

/// Settles a rename request whose parts are all known: `at` is the
/// position of the record, `None` if there is none, and `new_path` the
/// path that the file was to get, `None` if the record's path has no
/// parent directory. The record changes only if the file was renamed.
pub fn settle_rename(
    records: &mut Vec<DownloadRecord>,
    at: Option<usize>,
    new_name: &str,
    new_path: Option<String>,
    outcome: FileRename,
) -> (r: Result<(), RecordError>)
    requires
        at matches Some(position) ==> position < old(records)@.len(),
    ensures
        r == rename_verdict(is_blank(new_name@), at is Some, new_path is Some, outcome),
        r is Err ==> views(final(records)@) == views(old(records)@),
        r is Ok ==> views(final(records)@) == views(old(records)@).update(
            at->0 as int,
            RecordView {
                filename: new_name@,
                path: new_path->0@,
                ..views(old(records)@)[at->0 as int]
            },
        ),
{
    if blank(new_name) {
        return Err(RecordError::InvalidFilename);
    }
    let position = match at {
        Some(position) => position,
        None => {
            return Err(RecordError::NotFound);
        },
    };
    let path = match new_path {
        Some(path) => path,
        None => {
            return Err(RecordError::InvalidPath);
        },
    };
    match outcome {
        FileRename::TargetExists => Err(RecordError::AlreadyExists),
        FileRename::Failed(message) => Err(RecordError::RenameFailed(message)),
        FileRename::Renamed => {
            apply_rename(records, position, String::from_str(new_name), path);
            Ok(())
        },
    }
}

/// The path that the file of the record `id` gets when it is renamed to
/// `new_name`: the new name in the directory of the old path.
pub open spec fn new_path_of(records: Seq<RecordView>, id: Seq<char>, new_name: Seq<char>) -> Option<
    Seq<char>,
> {
    if has_record(records, id) {
        sibling_path(records[position_of(records, id)].path, new_name)
    } else {
        None
    }
}

/// Says which file a rename request is about and what its new path is,
/// and changes nothing. The request is refused if the new name is blank,
/// if no record has the identifier, or if the record's path has no parent
/// directory, in this order.
pub fn rename_target(records: &Vec<DownloadRecord>, id: &str, new_name: &str) -> (r: Result<
    RenameTarget,
    RecordError,
>)
    ensures
        is_blank(new_name@) ==> r matches Err(RecordError::InvalidFilename),
        !is_blank(new_name@) && !has_record(views(records@), id@) ==> r matches Err(
            RecordError::NotFound,
        ),
        !is_blank(new_name@) && has_record(views(records@), id@) && new_path_of(
            views(records@),
            id@,
            new_name@,
        ) is None ==> r matches Err(RecordError::InvalidPath),
        !is_blank(new_name@) && has_record(views(records@), id@) && new_path_of(
            views(records@),
            id@,
            new_name@,
        ) is Some ==> {
            &&& r matches Ok(target)
            &&& target.old_path@ == views(records@)[position_of(views(records@), id@)].path
            &&& target.new_path@ == new_path_of(views(records@), id@, new_name@)->0
        },
{
    if blank(new_name) {
        return Err(RecordError::InvalidFilename);
    }
    match find_record(records, id) {
        None => Err(RecordError::NotFound),
        Some(at) => {
            match sibling_of(records[at].path.as_str(), new_name) {
                None => Err(RecordError::InvalidPath),
                Some(new_path) => Ok(RenameTarget { old_path: records[at].path.clone(), new_path }),
            }
        },
    }
}

/// Completes a rename request once the caller has dealt with the file.
///
/// The request is judged again as [`rename_target`] judges it. If it
/// stands, `outcome` decides: where a file was found at the new path, or
/// the rename failed, the request fails and the list stays as it is; where
/// the file was renamed, the record gets the new name and the new path.
pub fn rename_download(
    records: &mut Vec<DownloadRecord>,
    id: &str,
    new_name: &str,
    outcome: FileRename,
) -> (r: Result<(), RecordError>)
    ensures
        r == rename_verdict(
            is_blank(new_name@),
            has_record(views(old(records)@), id@),
            new_path_of(views(old(records)@), id@, new_name@) is Some,
            outcome,
        ),
        r is Err ==> views(final(records)@) == views(old(records)@),
        r is Ok ==> views(final(records)@) == views(old(records)@).update(
            position_of(views(old(records)@), id@),
            RecordView {
                filename: new_name@,
                path: new_path_of(views(old(records)@), id@, new_name@)->0,
                ..views(old(records)@)[position_of(views(old(records)@), id@)]
            },
        ),
{
    let at = find_record(records, id);
    let new_path = match at {
        Some(position) => sibling_of(records[position].path.as_str(), new_name),
        None => None,
    };
    settle_rename(records, at, new_name, new_path, outcome)
}

/// A rename to a name that is already there fails and changes no record,
/// whatever the list, the record and the name are.
pub proof fn lemma_rename_collision_fails(name_is_blank: bool, found: bool, has_new_path: bool)
    ensures
        rename_verdict(name_is_blank, found, has_new_path, FileRename::TargetExists) is Err,
        !name_is_blank && found && has_new_path ==> rename_verdict(
            name_is_blank,
            found,
            has_new_path,
            FileRename::TargetExists,
        ) == Err::<(), RecordError>(RecordError::AlreadyExists),
{
}

} // verus!
