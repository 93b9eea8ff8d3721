//! The decisions of the background tasks: cleaning deleted files out of the clouds,
//! resetting stuck copies, uploading blocks, and spreading copies over accounts.
use vstd::prelude::*;
use vstd::string::*;
use crate::error::ErrorInfo;
use crate::meta::{FileStatus, MetaStatus, EventType};
use crate::tables::{CloudFileBlock, CloudMeta, EventMessage, FileBlockMeta, FileMeta};
use crate::text::{int_decimal, append_i64};
use crate::vfs::{trunc_div};

verus! {

/// Files deleted at or before this time are cleaned: ten seconds before `now`.
pub fn clean_cutoff(now: i64) -> (t: i64)
    requires
        now >= i64::MIN + 10000,
    ensures
        t == now - 10000,
{
    now - 10 * 1000
}

/// A deleted file without blocks waits for its cleaning.
pub fn mark_wait_clean(meta: &mut FileMeta)
    ensures
        *final(meta) == (FileMeta { status: FileStatus::WaitClean.spec_code(), ..*old(meta) }),
{
    meta.status = FileStatus::WaitClean.code();
}

/// A block is gone once no cloud holds a copy of it.
pub fn mark_block_deleted(meta: &mut FileBlockMeta)
    ensures
        *final(meta) == (FileBlockMeta { deleted: 1, ..*old(meta) }),
{
    meta.deleted = 1;
}

/// A copy has been cleaning for more than 1000 seconds (times are in milliseconds; whole
/// seconds are compared).
pub fn cleaning_stale(block: &CloudFileBlock, now: i64) -> (b: bool)
    requires
        i64::MIN <= trunc_div(now as int, 1000) - trunc_div(block.update_time as int, 1000) <= i64::MAX,
    ensures
        b == (block.status == FileStatus::Cleaning.spec_code() && trunc_div(now as int, 1000) - trunc_div(
            block.update_time as int,
            1000,
        ) > 1000),
{
    if block.status != FileStatus::Cleaning.code() {
        return false;
    }
    let timestamp = block.update_time / 1000;
    let now_s = now / 1000;
    now_s - timestamp > 1000
}

/// The block after its copies were cleaned, given how many copies the cleaning found: a
/// block that had none left is marked deleted, and its cached file is to be removed
/// (`true`); otherwise it stays as it is.
pub fn finish_block_clean(meta: &mut FileBlockMeta, copies: usize) -> (remove_cache: bool)
    ensures
        copies == 0 ==> (remove_cache && *final(meta) == (FileBlockMeta { deleted: 1, ..*old(meta) })),
        copies > 0 ==> (!remove_cache && *final(meta) == *old(meta)),
{
    if copies == 0 {
        meta.deleted = 1;
        true
    } else {
        false
    }
}

/// The copy of a stale cleaning goes back to waiting.
pub fn mark_copy_wait_clean(block: &mut CloudFileBlock)
    ensures
        *final(block) == (CloudFileBlock { status: FileStatus::WaitClean.spec_code(), ..*old(block) }),
{
    block.status = FileStatus::WaitClean.code();
}

/// The copy after the cloud answered its deletion, and whether that is saved. A file the
/// cloud does not have, or a copy that was never uploaded, counts as cleaned; any other
/// failure marks the copy failed without saving it.
pub fn after_cloud_delete(block: &mut CloudFileBlock, result: &Result<(), ErrorInfo>) -> (save: bool)
    ensures
        match result {
            Ok(()) => save && *final(block) == (CloudFileBlock { deleted: 1, ..*old(block) }),
            Err(ErrorInfo::FileNotFound(_)) | Err(ErrorInfo::NoneCloudFileId(_)) => save && *final(block) == (
            CloudFileBlock { deleted: 1, status: FileStatus::Cleaned.spec_code(), ..*old(block) }),
            Err(_) => !save && *final(block) == (CloudFileBlock { status: FileStatus::CleanFail.spec_code(), ..*old(block) }),
        },
{
    match result {
        Ok(()) => {
            block.deleted = 1;
            true
        },
        Err(ErrorInfo::FileNotFound(_)) | Err(ErrorInfo::NoneCloudFileId(_)) => {
            block.deleted = 1;
            block.status = FileStatus::Cleaned.code();
            true
        },
        Err(_) => {
            block.status = FileStatus::CleanFail.code();
            false
        },
    }
}

/// Copies in `status` are reset when not updated after this time: `secs` seconds before
/// `now`, in milliseconds.
pub fn reset_cutoff(now: i64, secs: u64) -> (t: i64)
    requires
        secs * 1000 <= i64::MAX,
        now >= i64::MIN + secs * 1000,
    ensures
        t == now - secs * 1000,
{
    now - (secs as i64) * 1000
}

/// A stuck copy starts over.
pub fn reset_copy(block: &mut CloudFileBlock, now: i64)
    ensures
        *final(block) == (CloudFileBlock { status: FileStatus::Init.spec_code(), update_time: now, ..*old(block) }),
{
    block.status = FileStatus::Init.code();
    block.update_time = now;
}

/// How many blocks are uploaded at once.
pub const UPLOAD_CONCURRENCY: usize = 10;

/// The background jobs.
#[derive(PartialEq, Eq, Structural, Clone, Copy, Debug)]
pub enum Job {
    Clean,
    Scan,
    Reset,
    RefreshQuota,
    ReBalance,
}

/// When each job runs, as a cron expression with seconds: cleaning every second, the
/// upload scan, the reset of stuck copies and the rebalancing every five seconds, the
/// quota refresh every hour.
pub open spec fn job_schedule_spec() -> Seq<(Seq<char>, Job)> {
    seq![
        ("* * * * * *"@, Job::Clean),
        ("0/5 * * * * *"@, Job::Scan),
        ("*/5 * * * * *"@, Job::Reset),
        ("0 0 * * * *"@, Job::RefreshQuota),
        ("0/5 * * * * *"@, Job::ReBalance),
    ]
}

/// The jobs with their schedules, in the order they are registered.
pub fn job_schedule() -> (p: Vec<(&'static str, Job)>)
    ensures
        p@.map_values(|e: (&'static str, Job)| (e.0@, e.1)) == job_schedule_spec(),
{
    proof {
        reveal_strlit("* * * * * *");
        reveal_strlit("0/5 * * * * *");
        reveal_strlit("*/5 * * * * *");
        reveal_strlit("0 0 * * * *");
    }
    let mut p = Vec::new();
    p.push(("* * * * * *", Job::Clean));
    p.push(("0/5 * * * * *", Job::Scan));
    p.push(("*/5 * * * * *", Job::Reset));
    p.push(("0 0 * * * *", Job::RefreshQuota));
    p.push(("0/5 * * * * *", Job::ReBalance));
    assert(p@.map_values(|e: (&'static str, Job)| (e.0@, e.1)) =~= job_schedule_spec());
    p
}

/// The statuses stuck copies are reset from, with how many seconds they are given.
pub fn reset_plan() -> (p: Vec<(FileStatus, u64)>)
    ensures
        p@ == seq![(FileStatus::Uploading, 300u64), (FileStatus::UploadFail, 60u64)],
{
    let mut p = Vec::new();
    p.push((FileStatus::Uploading, 60 * 5));
    p.push((FileStatus::UploadFail, 60));
    assert(p@ =~= seq![(FileStatus::Uploading, 300u64), (FileStatus::UploadFail, 60u64)]);
    p
}

/// A copy claimed for upload: marked uploading now. The status it had is returned, as the
/// claim only holds if the stored copy still has it.
pub fn claim_for_upload(block: &mut CloudFileBlock, now: i64) -> (origin: i8)
    ensures
        origin == old(block).status,
        *final(block) == (CloudFileBlock { status: FileStatus::Uploading.spec_code(), update_time: now, ..*old(block) }),
{
    let origin = block.status;
    block.update_time = now;
    block.status = FileStatus::Uploading.code();
    origin
}

/// The name a status is shown by: the variant's name, or the stored code if none has it.
pub open spec fn meta_status_name(code: i8) -> Seq<char> {
    match MetaStatus::from_code_spec(code) {
        Some(MetaStatus::WaitInit) => "WaitInit"@,
        Some(MetaStatus::WaitDataRoot) => "WaitDataRoot"@,
        Some(MetaStatus::Enable) => "Enable"@,
        Some(MetaStatus::Disabled) => "Disabled"@,
        None => int_decimal(code as int),
    }
}

/// The name a status is shown by.
pub fn meta_status_text(code: i8) -> (s: String)
    ensures
        s@ == meta_status_name(code),
{
    match code {
        0 => "WaitInit".to_owned(),
        1 => "WaitDataRoot".to_owned(),
        2 => "Enable".to_owned(),
        3 => "Disabled".to_owned(),
        _ => {
            let mut s = String::new();
            append_i64(&mut s, code as i64);
            s
        },
    }
}

/// The account a copy is uploaded to must exist and be enabled.
pub fn check_upload_account(cloud_meta_id: i32, cloud_meta: Option<CloudMeta>) -> (r: Result<CloudMeta, ErrorInfo>)
    ensures
        cloud_meta is None ==> (r matches Err(ErrorInfo::OTHER(c, m)) && c == 0 && m@ == " storage meta ["@
            + int_decimal(cloud_meta_id as int) + "] not found"@),
        (cloud_meta matches Some(m) && m.status != MetaStatus::Enable.spec_code()) ==> (r matches Err(
            ErrorInfo::OTHER(c, msg),
        ) && c == 0 && msg@ == " storage meta ["@ + int_decimal(cloud_meta_id as int) + "] status error "@
            + meta_status_name(cloud_meta->0.status)),
        (cloud_meta matches Some(m) && m.status == MetaStatus::Enable.spec_code()) ==> r == Ok::<CloudMeta, ErrorInfo>(cloud_meta->0),
{
    match cloud_meta {
        None => {
            let mut m = " storage meta [".to_owned();
            append_i64(&mut m, cloud_meta_id as i64);
            m.append("] not found");
            Err(ErrorInfo::OTHER(0, m))
        },
        Some(meta) => {
            if meta.status != MetaStatus::Enable.code() {
                let mut m = " storage meta [".to_owned();
                append_i64(&mut m, cloud_meta_id as i64);
                m.append("] status error ");
                let t = meta_status_text(meta.status);
                m.append(t.as_str());
                return Err(ErrorInfo::OTHER(0, m));
            }
            Ok(meta)
        },
    }
}

/// The block after its cached file could not be opened, with the error reported: a missing
/// file and any other failure are told apart.
pub fn open_failed(meta: &mut FileBlockMeta, not_found: bool, kind: &str, message: &str) -> (e: ErrorInfo)
    ensures
        not_found ==> *final(meta) == (FileBlockMeta { status: FileStatus::FileNotExist.spec_code(), ..*old(meta) }),
        !not_found ==> *final(meta) == (FileBlockMeta { status: FileStatus::FileReadError.spec_code(), ..*old(meta) }),
        not_found ==> (e matches ErrorInfo::OTHER(c, m) && c == 2 && m@ == "scan文件读取失败"@ + kind@),
        !not_found ==> (e matches ErrorInfo::OTHER(c, m) && c == 2 && m@ == "scan文件读取失败"@ + kind@ + ":"@ + message@),
{
    let mut m = "scan文件读取失败".to_owned();
    m.append(kind);
    if not_found {
        meta.status = FileStatus::FileNotExist.code();
    } else {
        meta.status = FileStatus::FileReadError.code();
        m.append(":");
        m.append(message);
    }
    ErrorInfo::OTHER(2, m)
}

/// The block after its cached file could not be read, with the error reported.
pub fn read_failed(meta: &mut FileBlockMeta, kind: &str, message: &str) -> (e: ErrorInfo)
    ensures
        *final(meta) == (FileBlockMeta { status: FileStatus::FileReadError.spec_code(), ..*old(meta) }),
        e matches ErrorInfo::OTHER(c, m) && c == 2 && m@ == "文件读取失败"@ + kind@ + ":"@ + message@,
{
    meta.status = FileStatus::FileReadError.code();
    let mut m = "文件读取失败".to_owned();
    m.append(kind);
    m.append(":");
    m.append(message);
    ErrorInfo::OTHER(2, m)
}

/// The copy after a successful upload: stored under the cloud's id, with the block's hash.
pub fn upload_succeeded(block: &mut CloudFileBlock, cloud_file_id: String, part_hash: Option<String>, now: i64)
    ensures
        *final(block) == (CloudFileBlock {
            status: FileStatus::UploadSuccess.spec_code(),
            cloud_file_id: Some(cloud_file_id),
            update_time: now,
            cloud_file_hash: part_hash,
            ..*old(block)
        }),
{
    block.status = FileStatus::UploadSuccess.code();
    block.cloud_file_id = Some(cloud_file_id);
    block.update_time = now;
    block.cloud_file_hash = part_hash;
}

/// The copy after a failed upload, and the error reported for the cached file.
pub fn upload_failed(block: &mut CloudFileBlock, now: i64, cache_file: &str, e: &ErrorInfo) -> (r: ErrorInfo)
    requires
        e.display_ok(),
    ensures
        *final(block) == (CloudFileBlock { status: FileStatus::UploadFail.spec_code(), update_time: now, ..*old(block) }),
        r matches ErrorInfo::OTHER(c, m) && c == 0 && m@ == "上传文件"@ + cache_file@ + ":"@ + e.spec_display(),
{
    block.status = FileStatus::UploadFail.code();
    block.update_time = now;
    let mut m = "上传文件".to_owned();
    m.append(cache_file);
    m.append(":");
    let t = e.to_display_string();
    m.append(t.as_str());
    ErrorInfo::OTHER(0, m)
}

/// The event recorded for the upload of copy `id`.
pub fn upload_event(id: i64, result: &Result<(), ErrorInfo>) -> (ev: EventMessage)
    requires
        result matches Err(e) ==> e.display_ok(),
    ensures
        ev.id is None,
        ev.event_type == EventType::UploadFileBlock.spec_code(),
        result is Ok ==> ev.event_result == crate::meta::EventResult::Success.spec_code() && ev.message@ == int_decimal(
            id as int,
        ) + " upload success"@,
        result is Err ==> ev.event_result == crate::meta::EventResult::Fail.spec_code() && ev.message@ == int_decimal(
            id as int,
        ) + " upload fail:"@ + result->Err_0.spec_display(),
{
    let mut m = String::new();
    append_i64(&mut m, id as i64);
    match result {
        Ok(()) => {
            m.append(" upload success");
            EventMessage::success(EventType::UploadFileBlock, m)
        },
        Err(e) => {
            m.append(" upload fail:");
            let t = e.to_display_string();
            m.append(t.as_str());
            EventMessage::fail(EventType::UploadFileBlock, m)
        },
    }
}

} // verus!

verus! {

/// The task that reads the quota of every enabled account.
pub struct RefreshQuota {}

impl RefreshQuota {
    pub fn new() -> (r: RefreshQuota) {
        RefreshQuota {}
    }

    /// What the task is called.
    pub fn description(&self) -> (s: String)
        ensures
            s@ == "刷新网盘容量"@,
    {
        "刷新网盘容量".to_owned()
    }

    /// The task's key.
    pub fn key(&self) -> (k: i64)
        ensures
            k == 3,
    {
        3
    }
}

} // verus!
