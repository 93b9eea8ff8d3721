//! A directory of the local disk used as a cloud.
use vstd::prelude::*;
use vstd::string::*;
use crate::storage::{CreateResponse, Quota};

verus! {

/// Keeps blocks as files under the account's data root.
pub struct LocalStorage {}

impl LocalStorage {
    pub fn new() -> (s: LocalStorage) {
        LocalStorage {}
    }

    /// The file a block is kept in: `data_root/file_id`.
    pub fn block_path(&self, data_root: &str, file_id: &str) -> (p: String)
        ensures
            p@ == data_root@ + "/"@ + file_id@,
    {
        let mut p = data_root.to_owned();
        p.append("/");
        p.append(file_id);
        p
    }

    /// The answer to an upload: the block is known by its cache name.
    pub fn upload_response(&self, file_part_id: &str) -> (r: CreateResponse)
        ensures
            r.file_id@ == file_part_id@ && r.file_name@ == file_part_id@ && r.encrypt_mode@.len() == 0
                && r.file_type@.len() == 0 && r.domain_id@.len() == 0 && r.drive_id@.len() == 0
                && r.location@.len() == 0 && r.parent_file_id@.len() == 0 && !r.rapid_upload && r.upload_id@.len() == 0,
    {
        CreateResponse::with_file(file_part_id.to_owned(), file_part_id.to_owned(), String::new(), String::new())
    }

    /// The quota of a local disk: a fixed gigabyte, all of it free.
    pub fn drive_quota(&self) -> (q: Quota)
        ensures
            q == (Quota { total: 1073741824, used: 0, remaining: 1073741824 }),
    {
        Quota { total: 1073741824, used: 0, remaining: 1073741824 }
    }
}

} // verus!
