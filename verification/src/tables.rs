//! The records kept in the metadata tables, and how new ones are made.
use vstd::prelude::*;
use vstd::string::*;
use crate::meta::{FileMetaType, FileStatus, EventType, EventResult};
use crate::text::{int_decimal, append_i64};
use crate::hash::{md5_hex, md5_hex_digest};
use crate::clock::now_millis;
use vstd::utf8::encode_utf8;

verus! {

/// A file or directory of the virtual file system.
#[derive(Debug)]
pub struct FileMeta {
    pub id: Option<i64>,
    pub name: String,
    pub parent_id: i64,
    pub file_type: i32,
    pub file_length: usize,
    pub status: i8,
    pub deleted: i8,
    pub create_time: i64,
    pub update_time: i64,
}

/// One block of a file's content, cached locally under `file_part_id`.
#[derive(Debug)]
pub struct FileBlockMeta {
    pub id: Option<i64>,
    pub block_index: i64,
    pub file_part_id: String,
    pub update_time: i64,
    pub file_modify_time: i64,
    pub deleted: i8,
    pub file_meta_id: i64,
    pub part_hash: Option<String>,
    pub status: i8,
}

/// A cloud account that blocks are copied to.
#[derive(Debug)]
pub struct CloudMeta {
    pub id: Option<i32>,
    pub name: String,
    pub auth: Option<String>,
    pub last_work_time: Option<i64>,
    pub data_root: Option<String>,
    pub status: i8,
    pub deleted: i8,
    pub cloud_type: i8,
    pub total_quota: Option<u64>,
    pub used_quota: Option<u64>,
    pub remaining_quota: Option<u64>,
    pub extra: Option<String>,
    pub expires_in: Option<i32>,
}

/// The copy of a block in one cloud account. Times are milliseconds since the Unix epoch.
#[derive(Debug)]
pub struct CloudFileBlock {
    pub id: Option<i64>,
    pub file_block_id: i64,
    pub cloud_meta_id: i32,
    pub cloud_file_id: Option<String>,
    pub cloud_file_hash: Option<String>,
    pub status: i8,
    pub deleted: i8,
    pub create_time: i64,
    pub update_time: i64,
}

/// A configuration property.
#[derive(Debug)]
pub struct Config {
    pub id: Option<i32>,
    pub property: String,
    pub value: String,
}

/// A recorded event.
#[derive(Debug)]
pub struct EventMessage {
    pub id: Option<i32>,
    pub event_type: i8,
    pub event_result: i8,
    pub message: String,
    pub create_time: i64,
}

impl Default for CloudMeta {
    fn default() -> (m: CloudMeta)
        ensures
            m.id is None && m.name@ == Seq::<char>::empty() && m.auth is None && m.last_work_time is None
                && m.data_root is None && m.status == 0 && m.deleted == 0 && m.cloud_type == 0
                && m.total_quota is None && m.used_quota is None && m.remaining_quota is None
                && m.extra is None && m.expires_in is None,
    {
        CloudMeta {
            id: None,
            name: String::new(),
            auth: None,
            last_work_time: None,
            data_root: None,
            status: 0,
            deleted: 0,
            cloud_type: 0,
            total_quota: None,
            used_quota: None,
            remaining_quota: None,
            extra: None,
            expires_in: None,
        }
    }
}

impl Default for Config {
    fn default() -> (c: Config)
        ensures
            c.id is None && c.property@ == Seq::<char>::empty() && c.value@ == Seq::<char>::empty(),
    {
        Config { id: None, property: String::new(), value: String::new() }
    }
}

impl Default for FileMeta {
    fn default() -> (m: FileMeta)
        ensures
            m.id is None && m.name@ == Seq::<char>::empty() && m.parent_id == 0 && m.file_type == 0
                && m.file_length == 0 && m.status == 0 && m.deleted == 0 && m.create_time == 0
                && m.update_time == 0,
    {
        FileMeta {
            id: None,
            name: String::new(),
            parent_id: 0,
            file_type: 0,
            file_length: 0,
            status: 0,
            deleted: 0,
            create_time: 0,
            update_time: 0,
        }
    }
}

impl Default for FileBlockMeta {
    fn default() -> (m: FileBlockMeta)
        ensures
            m.id == Some(0i64) && m.block_index == 0 && m.file_part_id@ == Seq::<char>::empty()
                && m.update_time == 0 && m.file_modify_time == 0 && m.deleted == 0 && m.file_meta_id == 0
                && (m.part_hash matches Some(h) && h@ == Seq::<char>::empty()) && m.status == 0,
    {
        FileBlockMeta {
            id: Some(0),
            block_index: 0,
            file_part_id: String::new(),
            update_time: 0,
            file_modify_time: 0,
            deleted: 0,
            file_meta_id: 0,
            part_hash: Some(String::new()),
            status: 0,
        }
    }
}

impl CloudFileBlock {
    /// A new copy of block `file_block_id` for cloud `cloud_meta_id`, made at time `now`.
    pub open spec fn init_spec(file_block_id: i64, cloud_meta_id: i32, now: i64) -> CloudFileBlock {
        CloudFileBlock {
            id: None,
            file_block_id,
            cloud_meta_id,
            cloud_file_id: None,
            cloud_file_hash: None,
            status: FileStatus::Init.spec_code(),
            deleted: 0,
            create_time: now,
            update_time: now,
        }
    }

    /// A new copy of block `file_block_id` for cloud `cloud_meta_id`, made at time `now`.
    pub fn init_at(file_block_id: i64, cloud_meta_id: i32, now: i64) -> (b: CloudFileBlock)
        ensures
            b == CloudFileBlock::init_spec(file_block_id, cloud_meta_id, now),
    {
        CloudFileBlock {
            id: None,
            file_block_id,
            cloud_meta_id,
            cloud_file_id: None,
            cloud_file_hash: None,
            status: FileStatus::Init.code(),
            deleted: 0,
            create_time: now,
            update_time: now,
        }
    }

    /// A new copy of block `file_block_id` for cloud `cloud_meta_id`, made now.
    pub fn init(file_block_id: i64, cloud_meta_id: i32) -> (b: CloudFileBlock)
        ensures
            b.id is None && b.file_block_id == file_block_id && b.cloud_meta_id == cloud_meta_id
                && b.cloud_file_id is None && b.cloud_file_hash is None
                && b.status == FileStatus::Init.spec_code() && b.deleted == 0
                && b.create_time == b.update_time,
    {
        CloudFileBlock::init_at(file_block_id, cloud_meta_id, now_millis())
    }
}

impl Default for CloudFileBlock {
    fn default() -> (b: CloudFileBlock)
        ensures
            b.id is None && b.file_block_id == 0 && b.cloud_meta_id == 0 && b.cloud_file_id is None
                && b.cloud_file_hash is None && b.status == 0 && b.deleted == 0,
    {
        let now = now_millis();
        CloudFileBlock {
            id: None,
            file_block_id: 0,
            cloud_meta_id: 0,
            cloud_file_id: None,
            cloud_file_hash: None,
            status: 0,
            deleted: 0,
            create_time: now,
            update_time: now,
        }
    }
}

impl EventMessage {
    /// An event of `event_type` that ended with `result`, recorded at `now`.
    pub fn new_at(event_type: EventType, result: EventResult, message: String, now: i64) -> (e: EventMessage)
        ensures
            e.id is None && e.event_type == event_type.spec_code() && e.event_result == result.spec_code()
                && e.message == message && e.create_time == now,
    {
        EventMessage {
            id: None,
            event_type: event_type.code(),
            event_result: result.code(),
            message,
            create_time: now,
        }
    }

    pub fn new(event_type: EventType, result: EventResult, message: String) -> (e: EventMessage)
        ensures
            e.id is None && e.event_type == event_type.spec_code() && e.event_result == result.spec_code()
                && e.message == message,
    {
        EventMessage::new_at(event_type, result, message, now_millis())
    }

    /// A successful event.
    pub fn success(event_type: EventType, message: String) -> (e: EventMessage)
        ensures
            e.id is None && e.event_type == event_type.spec_code()
                && e.event_result == EventResult::Success.spec_code() && e.message == message,
    {
        EventMessage::new(event_type, EventResult::Success, message)
    }

    /// A failed event.
    pub fn fail(event_type: EventType, message: String) -> (e: EventMessage)
        ensures
            e.id is None && e.event_type == event_type.spec_code()
                && e.event_result == EventResult::Fail.spec_code() && e.message == message,
    {
        EventMessage::new(event_type, EventResult::Fail, message)
    }
}

impl FileMeta {
    /// The root directory, as the schema upgrade inserts it.
    pub fn root() -> (m: FileMeta)
        ensures
            m.id == Some(1i64) && m.name@ == "/"@ && m.parent_id == 0
                && m.file_type == FileMetaType::DIR.spec_code() && m.file_length == 0
                && m.status == FileStatus::UploadSuccess.spec_code() && m.deleted == 0
                && m.create_time == 0 && m.update_time == 0,
    {
        FileMeta {
            id: Some(1),
            name: "/".to_owned(),
            parent_id: 0,
            file_type: FileMetaType::DIR.get_code(),
            file_length: 0,
            status: FileStatus::UploadSuccess.code(),
            deleted: 0,
            create_time: 0,
            update_time: 0,
        }
    }

    /// A new, empty entry named `name` under directory `parent_id`, made at `now`.
    pub fn new_entry(parent_id: i64, name: &str, file_type: FileMetaType, now: i64) -> (m: FileMeta)
        ensures
            m.id is None && m.name@ == name@ && m.parent_id == parent_id
                && m.file_type == file_type.spec_code() && m.file_length == 0
                && m.status == FileStatus::Init.spec_code() && m.deleted == 0 && m.create_time == now
                && m.update_time == now,
    {
        FileMeta {
            id: None,
            name: name.to_owned(),
            parent_id,
            file_type: file_type.get_code(),
            file_length: 0,
            status: FileStatus::Init.code(),
            deleted: 0,
            create_time: now,
            update_time: now,
        }
    }
}

/// The text that a block's cache name is hashed from: `file_meta_id:block_index`.
pub open spec fn block_key(file_meta_id: i64, block_index: i64) -> Seq<char> {
    int_decimal(file_meta_id as int) + ":"@ + int_decimal(block_index as int)
}

/// The name a block is cached and uploaded under: the MD5 of its key.
pub fn block_part_id(file_meta_id: i64, block_index: i64) -> (s: String)
    ensures
        s@ == md5_hex(encode_utf8(block_key(file_meta_id, block_index))),
{
    let mut key = String::new();
    append_i64(&mut key, file_meta_id as i64);
    key.append(":");
    append_i64(&mut key, block_index);
    assert(key@ =~= block_key(file_meta_id, block_index));
    md5_hex_digest(key.as_str().as_bytes())
}

impl FileBlockMeta {
    /// The record of a new block `block_index` of file `file_meta_id`, made at `now`.
    pub fn new_block(file_meta_id: i64, block_index: i64, now: i64) -> (m: FileBlockMeta)
        ensures
            m.id is None && m.block_index == block_index && m.file_meta_id == file_meta_id
                && m.file_part_id@ == md5_hex(encode_utf8(block_key(file_meta_id, block_index)))
                && m.update_time == now && m.file_modify_time == now && m.deleted == 0
                && m.part_hash is None && m.status == FileStatus::Init.spec_code(),
    {
        FileBlockMeta {
            id: None,
            file_part_id: block_part_id(file_meta_id, block_index),
            block_index,
            update_time: now,
            file_modify_time: now,
            file_meta_id,
            deleted: 0,
            part_hash: None,
            status: FileStatus::Init.code(),
        }
    }
}

/// A copy of an optional text.
pub fn clone_opt_string(o: &Option<String>) -> (r: Option<String>)
    ensures
        r == *o,
{
    match o {
        Some(s) => Some(s.clone()),
        None => None,
    }
}

impl Clone for FileMeta {
    fn clone(&self) -> (r: FileMeta)
        ensures
            r == *self,
    {
        FileMeta {
            id: self.id,
            name: self.name.clone(),
            parent_id: self.parent_id,
            file_type: self.file_type,
            file_length: self.file_length,
            status: self.status,
            deleted: self.deleted,
            create_time: self.create_time,
            update_time: self.update_time,
        }
    }
}

impl Clone for FileBlockMeta {
    fn clone(&self) -> (r: FileBlockMeta)
        ensures
            r == *self,
    {
        FileBlockMeta {
            id: self.id,
            block_index: self.block_index,
            file_part_id: self.file_part_id.clone(),
            update_time: self.update_time,
            file_modify_time: self.file_modify_time,
            deleted: self.deleted,
            file_meta_id: self.file_meta_id,
            part_hash: clone_opt_string(&self.part_hash),
            status: self.status,
        }
    }
}

impl Clone for CloudMeta {
    fn clone(&self) -> (r: CloudMeta)
        ensures
            r == *self,
    {
        CloudMeta {
            id: self.id,
            name: self.name.clone(),
            auth: clone_opt_string(&self.auth),
            last_work_time: self.last_work_time,
            data_root: clone_opt_string(&self.data_root),
            status: self.status,
            deleted: self.deleted,
            cloud_type: self.cloud_type,
            total_quota: self.total_quota,
            used_quota: self.used_quota,
            remaining_quota: self.remaining_quota,
            extra: clone_opt_string(&self.extra),
            expires_in: self.expires_in,
        }
    }
}

impl Clone for CloudFileBlock {
    fn clone(&self) -> (r: CloudFileBlock)
        ensures
            r == *self,
    {
        CloudFileBlock {
            id: self.id,
            file_block_id: self.file_block_id,
            cloud_meta_id: self.cloud_meta_id,
            cloud_file_id: clone_opt_string(&self.cloud_file_id),
            cloud_file_hash: clone_opt_string(&self.cloud_file_hash),
            status: self.status,
            deleted: self.deleted,
            create_time: self.create_time,
            update_time: self.update_time,
        }
    }
}

impl Clone for Config {
    fn clone(&self) -> (r: Config)
        ensures
            r == *self,
    {
        Config {
            id: self.id,
            property: self.property.clone(),
            value: self.value.clone(),
        }
    }
}

impl Clone for EventMessage {
    fn clone(&self) -> (r: EventMessage)
        ensures
            r == *self,
    {
        EventMessage {
            id: self.id,
            event_type: self.event_type,
            event_result: self.event_result,
            message: self.message.clone(),
            create_time: self.create_time,
        }
    }
}

} // verus!

verus! {

/// A table's columns as the schema sync creates them: name and SQL type, in order.
pub open spec fn column_view(cols: Seq<(&'static str, &'static str)>) -> Seq<(Seq<char>, Seq<char>)> {
    cols.map_values(|c: (&'static str, &'static str)| (c.0@, c.1@))
}

/// The columns of the `Config` table.
pub open spec fn config_columns() -> Seq<(Seq<char>, Seq<char>)> {
    seq![
        ("id"@, "INTEGER PRIMARY KEY AUTOINCREMENT"@),
        ("property"@, "TEXT"@),
        ("value"@, "TEXT"@),
    ]
}

impl Config {
    /// The columns the table is created with.
    pub fn sync_default() -> (c: Vec<(&'static str, &'static str)>)
        ensures
            column_view(c@) == config_columns(),
    {
        let mut c = Vec::new();
        c.push(("id", "INTEGER PRIMARY KEY AUTOINCREMENT"));
        c.push(("property", "TEXT"));
        c.push(("value", "TEXT"));
        assert(column_view(c@) =~= config_columns());
        c
    }
}

/// The columns of the `CloudMeta` table.
pub open spec fn cloud_meta_columns() -> Seq<(Seq<char>, Seq<char>)> {
    seq![
        ("id"@, "INTEGER PRIMARY KEY AUTOINCREMENT"@),
        ("name"@, "TEXT not null"@),
        ("auth"@, "TEXT"@),
        ("last_work_time"@, "int8"@),
        ("data_root"@, "TEXT"@),
        ("status"@, "int  not null"@),
        ("deleted"@, "int not null"@),
        ("cloud_type"@, "int not null"@),
        ("total_quota"@, "int8"@),
        ("used_quota"@, "int8"@),
        ("remaining_quota"@, "int8"@),
        ("extra"@, "TEXT"@),
        ("expires_in"@, "int"@),
    ]
}

impl CloudMeta {
    /// The columns the table is created with.
    pub fn sync_default() -> (c: Vec<(&'static str, &'static str)>)
        ensures
            column_view(c@) == cloud_meta_columns(),
    {
        let mut c = Vec::new();
        c.push(("id", "INTEGER PRIMARY KEY AUTOINCREMENT"));
        c.push(("name", "TEXT not null"));
        c.push(("auth", "TEXT"));
        c.push(("last_work_time", "int8"));
        c.push(("data_root", "TEXT"));
        c.push(("status", "int  not null"));
        c.push(("deleted", "int not null"));
        c.push(("cloud_type", "int not null"));
        c.push(("total_quota", "int8"));
        c.push(("used_quota", "int8"));
        c.push(("remaining_quota", "int8"));
        c.push(("extra", "TEXT"));
        c.push(("expires_in", "int"));
        assert(column_view(c@) =~= cloud_meta_columns());
        c
    }
}

/// The columns of the `FileMeta` table.
pub open spec fn file_meta_columns() -> Seq<(Seq<char>, Seq<char>)> {
    seq![
        ("id"@, "INTEGER PRIMARY KEY AUTOINCREMENT"@),
        ("name"@, "TEXT not null"@),
        ("parent_id"@, "INT not null"@),
        ("file_type"@, "int not null"@),
        ("file_length"@, "int8 not null"@),
        ("status"@, "int not null"@),
        ("deleted"@, "int not null"@),
        ("create_time"@, "int8 not null"@),
        ("update_time"@, "int8 not null"@),
    ]
}

impl FileMeta {
    /// The columns the table is created with.
    pub fn sync_default() -> (c: Vec<(&'static str, &'static str)>)
        ensures
            column_view(c@) == file_meta_columns(),
    {
        let mut c = Vec::new();
        c.push(("id", "INTEGER PRIMARY KEY AUTOINCREMENT"));
        c.push(("name", "TEXT not null"));
        c.push(("parent_id", "INT not null"));
        c.push(("file_type", "int not null"));
        c.push(("file_length", "int8 not null"));
        c.push(("status", "int not null"));
        c.push(("deleted", "int not null"));
        c.push(("create_time", "int8 not null"));
        c.push(("update_time", "int8 not null"));
        assert(column_view(c@) =~= file_meta_columns());
        c
    }
}

/// The columns of the `CloudFileBlock` table.
pub open spec fn cloud_file_block_columns() -> Seq<(Seq<char>, Seq<char>)> {
    seq![
        ("id"@, "INTEGER PRIMARY KEY AUTOINCREMENT"@),
        ("file_block_id"@, "int not null"@),
        ("cloud_meta_id"@, "int not null"@),
        ("cloud_file_id"@, "TEXT"@),
        ("cloud_file_hash"@, "TEXT"@),
        ("status"@, "int not null"@),
        ("deleted"@, "int not null"@),
        ("create_time"@, "int8 not null"@),
        ("update_time"@, "int8 not null"@),
    ]
}

impl CloudFileBlock {
    /// The columns the table is created with.
    pub fn sync_default() -> (c: Vec<(&'static str, &'static str)>)
        ensures
            column_view(c@) == cloud_file_block_columns(),
    {
        let mut c = Vec::new();
        c.push(("id", "INTEGER PRIMARY KEY AUTOINCREMENT"));
        c.push(("file_block_id", "int not null"));
        c.push(("cloud_meta_id", "int not null"));
        c.push(("cloud_file_id", "TEXT"));
        c.push(("cloud_file_hash", "TEXT"));
        c.push(("status", "int not null"));
        c.push(("deleted", "int not null"));
        c.push(("create_time", "int8 not null"));
        c.push(("update_time", "int8 not null"));
        assert(column_view(c@) =~= cloud_file_block_columns());
        c
    }
}

/// The columns of the `FileBlockMeta` table.
pub open spec fn file_block_meta_columns() -> Seq<(Seq<char>, Seq<char>)> {
    seq![
        ("id"@, "INTEGER PRIMARY KEY AUTOINCREMENT"@),
        ("block_index"@, "int not null"@),
        ("file_part_id"@, "text not null"@),
        ("update_time"@, "int8 not null"@),
        ("file_modify_time"@, "int8 not null"@),
        ("deleted"@, "int not null"@),
        ("file_meta_id"@, "int8 not null"@),
        ("part_hash"@, "TEXT"@),
        ("status"@, "int not null"@),
    ]
}

impl FileBlockMeta {
    /// The columns the table is created with.
    pub fn sync_default() -> (c: Vec<(&'static str, &'static str)>)
        ensures
            column_view(c@) == file_block_meta_columns(),
    {
        let mut c = Vec::new();
        c.push(("id", "INTEGER PRIMARY KEY AUTOINCREMENT"));
        c.push(("block_index", "int not null"));
        c.push(("file_part_id", "text not null"));
        c.push(("update_time", "int8 not null"));
        c.push(("file_modify_time", "int8 not null"));
        c.push(("deleted", "int not null"));
        c.push(("file_meta_id", "int8 not null"));
        c.push(("part_hash", "TEXT"));
        c.push(("status", "int not null"));
        assert(column_view(c@) =~= file_block_meta_columns());
        c
    }
}

/// The columns of the `EventMessage` table.
pub open spec fn event_message_columns() -> Seq<(Seq<char>, Seq<char>)> {
    seq![
        ("id"@, "INTEGER PRIMARY KEY AUTOINCREMENT"@),
        ("event_type"@, "int not null"@),
        ("event_result"@, "text not null"@),
        ("message"@, "int8 not null"@),
        ("create_time"@, "int8 not null"@),
    ]
}

impl EventMessage {
    /// The columns the table is created with.
    pub fn sync_default() -> (c: Vec<(&'static str, &'static str)>)
        ensures
            column_view(c@) == event_message_columns(),
    {
        let mut c = Vec::new();
        c.push(("id", "INTEGER PRIMARY KEY AUTOINCREMENT"));
        c.push(("event_type", "int not null"));
        c.push(("event_result", "text not null"));
        c.push(("message", "int8 not null"));
        c.push(("create_time", "int8 not null"));
        assert(column_view(c@) =~= event_message_columns());
        c
    }
}

} // verus!
