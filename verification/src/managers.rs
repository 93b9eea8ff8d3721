//! The metadata managers: what they write into records before storing them.
use vstd::prelude::*;
use crate::meta::{FileMetaType, FileStatus};
use crate::tables::{block_key, CloudFileBlock, CloudMeta, FileBlockMeta, FileMeta};
use crate::hash::md5_hex;
use vstd::utf8::encode_utf8;

verus! {

/// How many enabled accounts, drawn at random, a new block is first copied to.
pub const INITIAL_COPY_ACCOUNTS: i32 = 3;

/// Keeps the cloud accounts.
#[derive(Debug, Clone, PartialEq, Eq, Structural)]
pub struct SimpleCloudMetaManager {}

/// Keeps the blocks of files.
pub struct SimpleFileBlockMetaManager {}

/// Keeps the files and directories.
pub struct SimpleFileMetaManager {}

/// Keeps the configuration properties.
pub struct ConfigManager {}

impl ConfigManager {
    pub fn new() -> (m: ConfigManager) {
        ConfigManager {}
    }
}

impl SimpleCloudMetaManager {
    pub fn new() -> (m: SimpleCloudMetaManager) {
        SimpleCloudMetaManager {}
    }

    /// An account as it is added: never deleted.
    pub fn prepare_add(&self, meta: &CloudMeta) -> (m: CloudMeta)
        ensures
            m == (CloudMeta { deleted: 0, ..*meta }),
    {
        let mut m = meta.clone();
        m.deleted = 0;
        m
    }

    /// An account as it is deleted: kept, marked deleted.
    pub fn mark_deleted(&self, meta: &mut CloudMeta)
        ensures
            *final(meta) == (CloudMeta { deleted: 1, ..*old(meta) }),
    {
        meta.deleted = 1;
    }
}

impl SimpleFileBlockMetaManager {
    pub fn new() -> (m: SimpleFileBlockMetaManager) {
        SimpleFileBlockMetaManager {}
    }

    /// The record of a new block of a file, named by the MD5 of `file_meta_id:block_index`.
    pub fn new_file_block_meta(&self, file_meta_id: i64, block_index: i64, now: i64) -> (m: FileBlockMeta)
        ensures
            m.id is None && m.block_index == block_index && m.file_meta_id == file_meta_id
                && m.file_part_id@ == md5_hex(encode_utf8(block_key(file_meta_id, block_index)))
                && m.update_time == now && m.file_modify_time == now && m.deleted == 0 && m.part_hash is None
                && m.status == FileStatus::Init.spec_code(),
    {
        FileBlockMeta::new_block(file_meta_id, block_index, now)
    }

    /// A block record as it is updated: stamped with the time.
    pub fn touch(&self, meta: &mut FileBlockMeta, now: i64)
        ensures
            *final(meta) == (FileBlockMeta { update_time: now, ..*old(meta) }),
    {
        meta.update_time = now;
    }

    /// The copies a new block gets: one on each account drawn, all at time `now`.
    pub fn initial_copies(&self, file_block_meta_id: i64, clouds: &Vec<i32>, now: i64) -> (copies: Vec<CloudFileBlock>)
        ensures
            copies@.len() == clouds@.len(),
            forall|i: int| 0 <= i < clouds@.len() ==> #[trigger] copies@[i] == CloudFileBlock::init_spec(
                file_block_meta_id,
                clouds@[i],
                now,
            ),
    {
        let mut copies: Vec<CloudFileBlock> = Vec::new();
        let mut i: usize = 0;
        while i < clouds.len()
            invariant
                i <= clouds@.len(),
                copies@.len() == i,
                forall|k: int| 0 <= k < i ==> #[trigger] copies@[k] == CloudFileBlock::init_spec(
                    file_block_meta_id,
                    clouds@[k],
                    now,
                ),
            decreases clouds.len() - i,
        {
            copies.push(CloudFileBlock::init_at(file_block_meta_id, clouds[i], now));
            i = i + 1;
        }
        copies
    }
}

impl SimpleFileMetaManager {
    pub fn new() -> (m: SimpleFileMetaManager) {
        SimpleFileMetaManager {}
    }

    /// The record of a new, empty entry.
    pub fn new_file(&self, parent_id: i64, name: &str, file_type: FileMetaType, now: i64) -> (m: FileMeta)
        ensures
            m.id is None && m.name@ == name@ && m.parent_id == parent_id && m.file_type == file_type.spec_code()
                && m.file_length == 0 && m.status == FileStatus::Init.spec_code() && m.deleted == 0
                && m.create_time == now && m.update_time == now,
    {
        FileMeta::new_entry(parent_id, name, file_type, now)
    }

    /// Whether deleting the entry goes on to its children.
    pub fn is_dir(&self, meta: &FileMeta) -> (b: bool)
        ensures
            b == (meta.file_type == FileMetaType::DIR.spec_code()),
    {
        meta.file_type == FileMetaType::DIR.get_code()
    }

    /// An entry as it is deleted: kept, marked deleted at `now`.
    pub fn mark_deleted(&self, meta: &mut FileMeta, now: i64)
        ensures
            *final(meta) == (FileMeta { deleted: 1, update_time: now, ..*old(meta) }),
    {
        meta.deleted = 1;
        meta.update_time = now;
    }
}

} // verus!
