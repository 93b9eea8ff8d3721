//! The logic behind the web API: the list of storage kinds, request defaults, and the
//! accounts made or changed from requests.
use vstd::prelude::*;
use crate::meta::{CloudType, MetaStatus};
use crate::tables::{CloudMeta, Config};
use crate::error::ErrorInfo;
use crate::vfs::DEFAULT_TEMP_PATH;
use crate::text::{parse_u16, parse_u16_spec};

verus! {

/// An entry of the list of supported storage kinds.
#[derive(Debug)]
pub struct TypeItem {
    pub id: String,
    pub name: String,
}

/// Appends an entry with `id` and `name` to the list.
pub fn add_item(result: &mut Vec<TypeItem>, id: &str, name: &str)
    ensures
        final(result)@.len() == old(result)@.len() + 1,
        forall|i: int| 0 <= i < old(result)@.len() ==> #[trigger] final(result)@[i] == old(result)@[i],
        final(result)@.last().id@ == id@ && final(result)@.last().name@ == name@,
{
    result.push(TypeItem { id: id.to_owned(), name: name.to_owned() });
}

/// The storage kinds, by the codes accounts store them under.
pub fn cloud_types() -> (r: Vec<TypeItem>)
    ensures
        r@.len() == 5,
        r@[0].id@ == "1"@ && r@[0].name@ == "阿里云盘"@,
        r@[1].id@ == "2"@ && r@[1].name@ == "百度云盘"@,
        r@[2].id@ == "3"@ && r@[2].name@ == "本地磁盘"@,
        r@[3].id@ == "4"@ && r@[3].name@ == "OneDriver"@,
        r@[4].id@ == "5"@ && r@[4].name@ == "SFTP"@,
{
    let mut result = Vec::new();
    add_item(&mut result, "1", "阿里云盘");
    add_item(&mut result, "2", "百度云盘");
    add_item(&mut result, "3", "本地磁盘");
    add_item(&mut result, "4", "OneDriver");
    add_item(&mut result, "5", "SFTP");
    result
}

/// The port the web server listens on: the configured setting when it reads as a port
/// number, else 8088, which is also the port when nothing is configured.
pub fn http_port(setting: Option<&str>) -> (p: u16)
    ensures
        p == match setting {
            Some(s) => match parse_u16_spec(s@) {
                Some(v) => v,
                None => 8088,
            },
            None => 8088,
        },
{
    match setting {
        Some(s) => match parse_u16(s) {
            Some(v) => v,
            None => 8088,
        },
        None => 8088,
    }
}

/// The configuration property that holds where the file system is mounted.
pub const MOUNT_PATH_KEY: &'static str = "MOUNT_PATH";

/// The configuration property that holds where blocks are cached.
pub const TEMP_PATH_KEY: &'static str = "TEMP_PATH";

/// Where the file system is mounted, and where its blocks are cached.
#[derive(Debug)]
pub struct MountPlan {
    pub mount_point: String,
    pub cache_file: String,
}

/// The mount a request asks for, from the configured properties: a mount point is needed,
/// and blocks are cached where configured, else in the default place.
pub fn mount_plan(mount_path: Option<Config>, temp_path: Option<Config>) -> (r: Result<MountPlan, ErrorInfo>)
    ensures
        mount_path is None ==> (r matches Err(ErrorInfo::OTHER(c, m)) && c == 1 && m@ == "没有配置挂在路径"@),
        mount_path matches Some(m) ==> (r matches Ok(p) && p.mount_point == m.value && p.cache_file@ == (
        match temp_path {
            Some(t) => t.value@,
            None => DEFAULT_TEMP_PATH@,
        })),
{
    match mount_path {
        None => Err(ErrorInfo::new(1, "没有配置挂在路径")),
        Some(m) => {
            let cache_file = match temp_path {
                None => DEFAULT_TEMP_PATH.to_owned(),
                Some(t) => t.value,
            };
            Ok(MountPlan { mount_point: m.value, cache_file })
        },
    }
}

/// The value of a request header, or `default_value` when it is missing.
pub fn header_value(value: Option<&str>, default_value: &str) -> (s: String)
    ensures
        value matches Some(v) ==> s@ == v@,
        value is None ==> s@ == default_value@,
{
    match value {
        None => default_value.to_owned(),
        Some(v) => v.to_owned(),
    }
}

/// The server an authorization answer comes back to: the request's `Host`, by default
/// the public address.
pub fn callback_server(host: Option<&str>) -> (s: String)
    ensures
        host matches Some(v) ==> s@ == v@,
        host is None ==> s@ == "pan.calm0406.com:8080"@,
{
    header_value(host, "pan.calm0406.com:8080")
}

/// The answer of an authorization: its code, and the account id as its state.
#[derive(Debug)]
pub struct Callback {
    pub code: String,
    pub state: String,
}

/// An account as a request describes it.
#[derive(Debug)]
pub struct CloudMetaVo {
    pub name: String,
    pub cloud_type: CloudType,
    pub auth: Option<String>,
    pub data_root: Option<String>,
}

impl CloudMetaVo {
    /// The new account: as described, not yet stored, waiting to start.
    pub fn into_cloud_meta(self) -> (m: CloudMeta)
        ensures
            m == (CloudMeta {
                id: None,
                name: self.name,
                auth: self.auth,
                last_work_time: None,
                data_root: self.data_root,
                status: 0,
                deleted: 0,
                cloud_type: self.cloud_type.spec_code(),
                total_quota: None,
                used_quota: None,
                remaining_quota: None,
                extra: None,
                expires_in: None,
            }),
    {
        CloudMeta {
            id: None,
            name: self.name,
            auth: self.auth,
            last_work_time: None,
            data_root: self.data_root,
            status: 0,
            deleted: 0,
            cloud_type: self.cloud_type.code(),
            total_quota: None,
            used_quota: None,
            remaining_quota: None,
            extra: None,
            expires_in: None,
        }
    }
}

/// An account renamed as a request asks; nothing else changes.
pub fn rename_account(meta: &mut CloudMeta, name: &String)
    ensures
        *final(meta) == (CloudMeta { name: *name, ..*old(meta) }),
{
    meta.name = name.clone();
}

/// An account switched on or off.
pub fn set_enabled(meta: &mut CloudMeta, enabled: bool)
    ensures
        enabled ==> *final(meta) == (CloudMeta { status: MetaStatus::Enable.spec_code(), ..*old(meta) }),
        !enabled ==> *final(meta) == (CloudMeta { status: MetaStatus::Disabled.spec_code(), ..*old(meta) }),
{
    if enabled {
        meta.status = MetaStatus::Enable.code();
    } else {
        meta.status = MetaStatus::Disabled.code();
    }
}

} // verus!
