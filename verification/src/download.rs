//! The start and the end of a download: where its file goes, what names
//! it, when it can be signalled, and what is recorded of it.

use crate::filename::{get_unique_filename, names_of, staging_name, staging_text, unique_name};
use crate::records::{add_record, join_path, path_join, views, DownloadRecord, RecordView};
use crate::registry::{fresh_id, ActiveDownload, ActiveDownloads};
use crate::text::decimal;
use crate::transfer::{Action, Transfer};
use vstd::prelude::*;

verus! {

/// Where a download that is about to start puts its file.
#[derive(Clone, Debug, PartialEq, Eq)]
pub struct DownloadPlan {
    /// The name that the file is stored under.
    pub filename: String,
    /// The final path of the file.
    pub file_path: String,
    /// The path of the staging file that the download writes to.
    pub staging_path: String,
}

/// `plan` is the plan of a download of `filename` into `directory`, which
/// holds the entries `existing`: the file gets the requested name if that
/// is free and else its first free alternative, and the download is
/// written to a staging file beside it.
pub open spec fn is_plan(
    plan: DownloadPlan,
    existing: Seq<String>,
    directory: Seq<char>,
    filename: Seq<char>,
) -> bool {
    &&& plan.filename@ == unique_name(names_of(existing), filename)
    &&& !names_of(existing).contains(plan.filename@)
    &&& plan.file_path@ == path_join(directory, plan.filename@)
    &&& plan.staging_path@ == path_join(directory, staging_text(plan.filename@))
}

/// Plans a download of `filename` into `directory`, which holds the
/// entries `existing`.
pub fn plan_download(existing: &Vec<String>, directory: &str, filename: &str) -> (plan:
    DownloadPlan)
    ensures
        is_plan(plan, existing@, directory@, filename@),
{
    let unique = get_unique_filename(existing, filename);
    let file_path = join_path(directory, unique.as_str());
    let staging = staging_name(unique.as_str());
    let staging_path = join_path(directory, staging.as_str());
    DownloadPlan { filename: unique, file_path, staging_path }
}

/// The task identifier that a download started `millis` milliseconds after
/// the Unix epoch asks for: the low 64 bits of that count.
pub open spec fn task_id_at(millis: u128) -> u64 {
    (millis % 0x1_0000_0000_0000_0000) as u64
}

/// Derives the task identifier that a download asks for from the time it
/// starts at.
pub fn task_id_from_millis(millis: u128) -> (id: u64)
    ensures
        id == task_id_at(millis),
{
    (millis % 0x1_0000_0000_0000_0000) as u64
}

/// Starts a download of `filename` into `directory`, which holds the
/// entries `existing`, at `millis` milliseconds after the Unix epoch.
///
/// The download gets a task identifier that no download of this registry
/// has had before, taken from the time where that is above all that were
/// given out, and is registered under it with `handle`: from the return on
/// it can be signalled. The answer is the identifier and the plan for the
/// file. Once the last identifier of all has been given out, nothing is
/// started and nothing changes.
pub fn download_file(
    active: &mut ActiveDownloads,
    existing: &Vec<String>,
    directory: &str,
    filename: &str,
    millis: u128,
    handle: ActiveDownload,
) -> (started: Option<(u64, DownloadPlan)>)
    ensures
        started is Some <==> fresh_id(old(active).last_issued(), task_id_at(millis)) is Some,
        started matches Some((id, plan)) ==> {
            &&& Some(id) == fresh_id(old(active).last_issued(), task_id_at(millis))
            &&& !old(active).is_spent(id)
            &&& !old(active).ids().contains(id)
            &&& final(active).handles() == old(active).handles().insert(id, handle)
            &&& final(active).last_issued() == Some(id)
            &&& is_plan(plan, existing@, directory@, filename@)
        },
        started is None ==> final(active).handles() == old(active).handles(),
        started is None ==> final(active).last_issued() == old(active).last_issued(),
{
    match active.enrol(task_id_from_millis(millis), handle) {
        Some(id) => Some((id, plan_download(existing, directory, filename))),
        None => None,
    }
}

/// Ends a download whose engine has reached a terminal phase: it is taken
/// out of the registry, whether it completed, failed or was cancelled,
/// and every other download stays. The answer says whether it was there.
/// A transfer that has not ended stays registered.
pub fn end_download(active: &mut ActiveDownloads, transfer: &Transfer) -> (removed: bool)
    ensures
        transfer.phase.is_terminal() ==> {
            &&& removed == old(active).ids().contains(transfer.id)
            &&& final(active).handles() == old(active).handles().remove(transfer.id)
        },
        !transfer.phase.is_terminal() ==> !removed,
        !transfer.phase.is_terminal() ==> final(active).handles() == old(active).handles(),
        final(active).last_issued() == old(active).last_issued(),
{
    if transfer.phase.terminal() {
        active.unregister(transfer.id)
    } else {
        false
    }
}

/// The record of a download that completed with `size` bytes: its
/// identifier is the task identifier in decimal, its name the name that
/// the file is stored under, its path the final path, never that of the
/// staging file.
pub open spec fn record_of(task_id: u64, plan: DownloadPlan, size: u64, timestamp: i64) -> RecordView {
    RecordView {
        id: decimal(task_id as nat),
        filename: plan.filename@,
        path: plan.file_path@,
        size,
        timestamp,
    }
}

/// Records what a download came to, given the last action of its engine:
/// a download that completed gets its record at the end of the list, and
/// one that failed, was cancelled or could not be saved gets none. The
/// answer says whether the list changed and so is to be written out.
pub fn record_outcome(
    records: &mut Vec<DownloadRecord>,
    task_id: u64,
    plan: &DownloadPlan,
    last: &Action,
    timestamp: i64,
) -> (recorded: bool)
    ensures
        recorded == (*last is Complete),
        *last matches Action::Complete { size } ==> views(final(records)@)
            == views(old(records)@).push(record_of(task_id, *plan, size, timestamp)),
        !(*last is Complete) ==> views(final(records)@) == views(old(records)@),
{
    match last {
        Action::Complete { size } => {
            let record = DownloadRecord::completed(
                task_id,
                plan.filename.clone(),
                plan.file_path.clone(),
                *size,
                timestamp,
            );
            add_record(records, record);
            true
        },
        _ => false,
    }
}

} // verus!
