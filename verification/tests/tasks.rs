use cloud::task::{job_schedule, Job, UPLOAD_CONCURRENCY};
use cloud::error::ErrorInfo;
use cloud::managers::{ConfigManager, SimpleCloudMetaManager, SimpleFileBlockMetaManager, SimpleFileMetaManager};
use cloud::meta::{CloudType, EventResult, EventType, FileMetaType, FileStatus, MetaStatus};
use cloud::rebalance::{copies_after_removal, pick_cloud, shard_target, sort_copies, CloudPick};
use cloud::storage::facade::{
    callback_account, cloud_kind, content_target, delete_target, is_enabled, needs_token_refresh, store_authorization,
    store_initial_quota, store_quota, store_token,
};
use cloud::storage::Quota;
use cloud::tables::{block_part_id, CloudFileBlock, CloudMeta, Config, EventMessage, FileBlockMeta, FileMeta};
use cloud::task::{
    after_cloud_delete, check_upload_account, claim_for_upload, clean_cutoff, cleaning_stale, mark_block_deleted,
    mark_copy_wait_clean, mark_wait_clean, meta_status_text, open_failed, read_failed, reset_copy, reset_cutoff,
    reset_plan, upload_event, upload_failed, upload_succeeded, RefreshQuota,
};

fn copy(cloud_meta_id: i32) -> CloudFileBlock {
    CloudFileBlock::init_at(8, cloud_meta_id, 1000)
}

#[test]
fn status_codes_round_trip() {
    for s in [FileStatus::Init, FileStatus::Uploading, FileStatus::UploadSuccess, FileStatus::WaitClean, FileStatus::CleanFail] {
        assert_eq!(FileStatus::from_code(s.code()), Some(s));
    }
    assert_eq!(FileStatus::UploadSuccess.code(), 2);
    assert_eq!(FileStatus::WaitClean.code(), 7);
    assert_eq!(CloudType::from_code(1), Some(CloudType::AliYun));
    assert_eq!(CloudType::from_code(5), Some(CloudType::Sftp));
    assert_eq!(CloudType::from_code(0), None);
    assert_eq!(MetaStatus::from_code(9), None);
    assert_eq!(FileMetaType::from_code(FileMetaType::DIR.get_code()), Some(FileMetaType::DIR));
    assert_eq!(FileMetaType::SYMLINK.name(), "SYMLINK");
}

#[test]
fn records_made_new() {
    let root = FileMeta::root();
    assert_eq!((root.id, root.name.as_str(), root.file_type, root.status), (Some(1), "/", 1, 2));
    let b = FileBlockMeta::new_block(1, 0, 55);
    assert_eq!(b.file_part_id, "81b206a89f89d5b1123b87606075c6a8");
    assert_eq!(block_part_id(-3, 12), "f7211203f408ec14899c31bb3a709c8d");
    assert_eq!((b.update_time, b.file_modify_time, b.part_hash.is_none()), (55, 55, true));
    let c = copy(3);
    assert_eq!((c.file_block_id, c.cloud_meta_id, c.status, c.create_time), (8, 3, 0, 1000));
    let now_copy = CloudFileBlock::init(8, 3);
    assert_eq!(now_copy.create_time, now_copy.update_time);
    let d = FileBlockMeta::default();
    assert_eq!((d.id, d.part_hash.as_deref()), (Some(0), Some("")));
    let cfg = Config::default();
    assert!(cfg.property.is_empty() && cfg.value.is_empty());
    let e = EventMessage::new_at(EventType::UploadFileBlock, EventResult::Fail, "m".to_string(), 4);
    assert_eq!((e.event_type, e.event_result, e.create_time), (0, 1, 4));
}

#[test]
fn managers_prepare_records() {
    let _c = ConfigManager::new();
    let cm = SimpleCloudMetaManager::new();
    let mut meta = CloudMeta::default();
    meta.deleted = 1;
    assert_eq!(cm.prepare_add(&meta).deleted, 0);
    cm.mark_deleted(&mut meta);
    assert_eq!(meta.deleted, 1);
    let bm = SimpleFileBlockMetaManager::new();
    assert_eq!(cloud::managers::INITIAL_COPY_ACCOUNTS, 3);
    let copies = bm.initial_copies(4, &vec![1, 2, 3], 9);
    assert_eq!(copies.iter().map(|c| c.cloud_meta_id).collect::<Vec<_>>(), vec![1, 2, 3]);
    assert!(copies.iter().all(|c| c.file_block_id == 4 && c.update_time == 9));
    let mut block = bm.new_file_block_meta(1, 0, 1);
    bm.touch(&mut block, 99);
    assert_eq!(block.update_time, 99);
    let fm = SimpleFileMetaManager::new();
    let mut f = fm.new_file(1, "a", FileMetaType::DIR, 5);
    assert!(fm.is_dir(&f));
    fm.mark_deleted(&mut f, 6);
    assert_eq!((f.deleted, f.update_time, f.create_time), (1, 6, 5));
}

#[test]
fn cleaning_decisions() {
    assert_eq!(clean_cutoff(20000), 10000);
    let mut c = copy(1);
    c.status = FileStatus::Cleaning.code();
    c.update_time = 1_000_000;
    assert!(!cleaning_stale(&c, 1_000_000 + 1_000_999));
    assert!(cleaning_stale(&c, 1_000_000 + 1_001_000));
    mark_copy_wait_clean(&mut c);
    assert_eq!(c.status, FileStatus::WaitClean.code());
    let mut ok = copy(1);
    assert!(after_cloud_delete(&mut ok, &Ok(())));
    assert_eq!((ok.deleted, ok.status), (1, 0));
    let mut gone = copy(1);
    assert!(after_cloud_delete(&mut gone, &Err(ErrorInfo::NoneCloudFileId(1))));
    assert_eq!((gone.deleted, gone.status), (1, FileStatus::Cleaned.code()));
    let mut failed = copy(1);
    assert!(!after_cloud_delete(&mut failed, &Err(ErrorInfo::Http(500))));
    assert_eq!((failed.deleted, failed.status), (0, FileStatus::CleanFail.code()));
    let mut fm = FileMeta::default();
    mark_wait_clean(&mut fm);
    assert_eq!(fm.status, 7);
    let mut b = FileBlockMeta::default();
    mark_block_deleted(&mut b);
    assert_eq!(b.deleted, 1);
}

#[test]
fn reset_decisions() {
    assert_eq!(reset_cutoff(1_000_000, 300), 700_000);
    assert_eq!(reset_plan(), vec![(FileStatus::Uploading, 300), (FileStatus::UploadFail, 60)]);
    let mut c = copy(1);
    c.status = FileStatus::Uploading.code();
    reset_copy(&mut c, 77);
    assert_eq!((c.status, c.update_time), (0, 77));
}

#[test]
fn upload_decisions() {
    let mut c = copy(1);
    assert_eq!(claim_for_upload(&mut c, 5), 0);
    assert_eq!((c.status, c.update_time), (1, 5));
    upload_succeeded(&mut c, "cf".to_string(), Some("h".to_string()), 6);
    assert_eq!((c.status, c.cloud_file_id.as_deref(), c.cloud_file_hash.as_deref()), (2, Some("cf"), Some("h")));
    let e = upload_failed(&mut c, 7, "/tmp/p", &ErrorInfo::Http(500));
    assert_eq!(c.status, 3);
    assert_eq!(e, ErrorInfo::OTHER(0, "上传文件/tmp/p:5500:".to_string()));
    let ev = upload_event(4, &Ok(()));
    assert_eq!((ev.message.as_str(), ev.event_result), ("4 upload success", 0));
    let ev = upload_event(4, &Err(ErrorInfo::Retry));
    assert_eq!((ev.message.as_str(), ev.event_result), ("4 upload fail:3000:retry", 1));
}

#[test]
fn upload_account_checks() {
    assert_eq!(check_upload_account(3, None).unwrap_err(), ErrorInfo::OTHER(0, " storage meta [3] not found".to_string()));
    let mut m = CloudMeta::default();
    m.status = MetaStatus::Disabled.code();
    assert_eq!(check_upload_account(3, Some(m.clone())).unwrap_err(), ErrorInfo::OTHER(0, " storage meta [3] status error Disabled".to_string()));
    m.status = MetaStatus::Enable.code();
    assert!(check_upload_account(3, Some(m)).is_ok());
    assert_eq!(meta_status_text(42), "42");
}

#[test]
fn cached_file_failures() {
    let mut b = FileBlockMeta::default();
    assert_eq!(open_failed(&mut b, true, "entity not found", "x"), ErrorInfo::OTHER(2, "scan文件读取失败entity not found".to_string()));
    assert_eq!(b.status, FileStatus::FileNotExist.code());
    assert_eq!(open_failed(&mut b, false, "k", "m"), ErrorInfo::OTHER(2, "scan文件读取失败k:m".to_string()));
    assert_eq!(b.status, FileStatus::FileReadError.code());
    assert_eq!(read_failed(&mut b, "k", "m"), ErrorInfo::OTHER(2, "文件读取失败k:m".to_string()));
}

#[test]
fn rebalance_decisions() {
    assert_eq!(shard_target(2, 3), 2);
    assert_eq!(shard_target(5, 3), 3);
    let copies = vec![copy(1), copy(9), copy(2), copy(8)];
    let s = sort_copies(&copies, &vec![1, 2, 3]);
    assert_eq!(s.remove_index, vec![1, 3]);
    assert_eq!(s.using, vec![1, 2]);
    assert_eq!(copies_after_removal(4, &vec![1, 3]), None);
    assert_eq!(copies_after_removal(4, &vec![1, 2]), Some(2));
    assert_eq!(copies_after_removal(3, &vec![]), Some(3));
    assert_eq!(pick_cloud(4, &vec![1, 2, 3], &vec![1, 2]), CloudPick::Retry);
    assert_eq!(pick_cloud(5, &vec![1, 2, 3], &vec![1, 2]), CloudPick::Take(3));
    assert_eq!(pick_cloud(5, &vec![1, 2, 3], &vec![1, 2, 3]), CloudPick::Full);
}

#[test]
fn facade_decisions() {
    assert!(needs_token_refresh(&ErrorInfo::Http401));
    assert!(!needs_token_refresh(&ErrorInfo::Http(401)));
    let mut c = copy(3);
    assert_eq!(delete_target(&c), Err(ErrorInfo::NoneCloudFileId(3)));
    assert_eq!(content_target(None, &c).unwrap_err(), ErrorInfo::NoneCloudMeta(3));
    assert_eq!(content_target(Some(CloudMeta::default()), &c).unwrap_err(), ErrorInfo::NoneCloudFileId(3));
    c.cloud_file_id = Some("f".to_string());
    assert_eq!(delete_target(&c), Ok("f".to_string()));
    assert_eq!(content_target(Some(CloudMeta::default()), &c).unwrap().1, "f");
    assert_eq!(callback_account("12"), Some(12));
    assert_eq!(callback_account("x"), None);
    let mut m = CloudMeta::default();
    store_authorization(&mut m, "tok".to_string());
    assert_eq!((m.auth.as_deref(), m.status), (Some("tok"), 1));
    store_token(&mut m, "t2".to_string());
    assert_eq!(m.auth.as_deref(), Some("t2"));
    store_initial_quota(&mut m, &Quota { total: 10, used: 3, remaining: 0 });
    assert_eq!((m.total_quota, m.used_quota, m.remaining_quota), (Some(10), Some(3), Some(7)));
    store_quota(&mut m, &Quota { total: 10, used: 3, remaining: 5 });
    assert_eq!(m.remaining_quota, Some(5));
    m.cloud_type = 2;
    assert_eq!(cloud_kind(&m), Some(CloudType::Baidu));
    assert!(!is_enabled(&m));
}

#[test]
fn refresh_quota_task() {
    let t = RefreshQuota::new();
    assert_eq!(t.description(), "刷新网盘容量");
    assert_eq!(t.key(), 3);
}

#[test]
fn jobs_run_on_their_schedules() {
    let p = job_schedule();
    assert_eq!(
        p,
        vec![
            ("* * * * * *", Job::Clean),
            ("0/5 * * * * *", Job::Scan),
            ("*/5 * * * * *", Job::Reset),
            ("0 0 * * * *", Job::RefreshQuota),
            ("0/5 * * * * *", Job::ReBalance),
        ]
    );
    assert_eq!(UPLOAD_CONCURRENCY, 10);
}

#[test]
fn tables_are_created_with_their_columns() {
    let c = cloud::tables::Config::sync_default();
    assert_eq!(c, vec![("id", "INTEGER PRIMARY KEY AUTOINCREMENT"), ("property", "TEXT"), ("value", "TEXT")]);
    let m = cloud::tables::CloudMeta::sync_default();
    assert_eq!(m.len(), 13);
    assert_eq!(m[5], ("status", "int  not null"));
    let e = cloud::tables::EventMessage::sync_default();
    assert_eq!(e.last(), Some(&("create_time", "int8 not null")));
    let f = cloud::tables::FileBlockMeta::sync_default();
    assert_eq!(f[6], ("file_meta_id", "int8 not null"));
}

#[test]
fn draws_never_put_two_copies_in_one_account() {
    let clouds = vec![10, 20, 30, 40];
    let mut using = vec![30];
    for random in [0usize, 2, 6, 1, 5, 3, 7, 9] {
        if let CloudPick::Take(id) = pick_cloud(random, &clouds, &using) {
            assert!(clouds.contains(&id));
            assert!(!using.contains(&id));
            using.push(id);
        }
    }
    let mut sorted = using.clone();
    sorted.sort();
    sorted.dedup();
    assert_eq!(sorted.len(), using.len());
    assert_eq!(pick_cloud(0, &clouds, &using), CloudPick::Full);
}

#[test]
fn rebalancing_fills_a_block_to_its_target() {
    let clouds = vec![1, 2, 3, 4, 5];
    let mut using = vec![2];
    let size = shard_target(clouds.len(), 3);
    let mut random = 0usize;
    while using.len() < size {
        match pick_cloud(random, &clouds, &using) {
            CloudPick::Take(id) => using.push(id),
            CloudPick::Retry => {}
            CloudPick::Full => panic!("an account is free"),
        }
        random += 7;
    }
    assert_eq!(using.len(), 3);
    let mut sorted = using.clone();
    sorted.sort();
    sorted.dedup();
    assert_eq!(sorted.len(), 3);
    assert!(using.iter().all(|c| clouds.contains(c)));
}

#[test]
fn a_block_without_copies_is_deleted_after_cleaning() {
    let mut b = cloud::managers::SimpleFileBlockMetaManager::new().new_file_block_meta(3, 1, 5);
    assert!(!cloud::task::finish_block_clean(&mut b, 2));
    assert_eq!(b.deleted, 0);
    assert!(cloud::task::finish_block_clean(&mut b, 0));
    assert_eq!(b.deleted, 1);
}

#[test]
fn placed_copies_are_new_rows_on_distinct_accounts() {
    let clouds = vec![1, 2, 3, 4];
    let mut using = vec![3];
    let (copies, used) = cloud::rebalance::place_copies(9, &clouds, &mut using, 2, &vec![2, 0, 4, 1, 3], 77);
    // draw 2 -> account 3 is in use; draw 0 -> account 1; draw 4 -> 4 % 4 = 0 -> 1 again; draw 1 -> account 2
    assert_eq!(used, 4);
    assert_eq!(using, vec![3, 1, 2]);
    assert_eq!(copies.len(), 2);
    assert!(copies.iter().all(|c| c.file_block_id == 9 && c.id.is_none() && c.update_time == 77));
    assert_eq!(copies.iter().map(|c| c.cloud_meta_id).collect::<Vec<_>>(), vec![1, 2]);
    // draws that run out leave the block short
    let mut u2 = vec![1];
    let (few, used2) = cloud::rebalance::place_copies(9, &clouds, &mut u2, 3, &vec![0, 1], 1);
    assert_eq!((few.len(), used2), (1, 2));
}
