//! The Aliyun drive: requests, upload parts and answers.
use vstd::prelude::*;
use vstd::string::*;
use crate::error::ErrorInfo;
use crate::meta::MetaStatus;
use crate::storage::{pairs_view, CreateResponse, Quota};
use crate::tables::CloudMeta;
use crate::text::{int_decimal, append_i64, last_index_of, lemma_last_index_of, rfind_char};
use crate::encoding::{url_encode, url_encode_bytes};

verus! {

/// Bytes uploaded per part.
pub const CHUNK_SIZE: usize = 134217728;

pub const API_DOMAIN_PREFIX: &'static str = "https://openapi.alipan.com";

/// Where uploaded blocks are kept in the drive.
pub const DATA_ROOT: &'static str = "/app/cluster-shard";

#[derive(Debug, Clone)]
pub struct UserData {
    pub ding_ding_robot_url: String,
    pub encourage_desc: String,
    pub feed_back_switch: bool,
    pub following_desc: String,
}

/// Signs requests with the account's access token.
pub struct AliAuthMiddleware;

/// A file in a drive.
#[derive(Debug)]
pub struct DriveFile {
    pub drive_id: String,
    pub file_id: String,
}

/// One part of an upload.
#[derive(Debug)]
pub struct PartInfo {
    pub part_number: u32,
    pub upload_url: Option<String>,
    pub internal_upload_url: Option<String>,
    pub content_type: Option<String>,
}

/// A request to create a file or a folder.
#[derive(Debug)]
pub struct CreateFile {
    pub drive_id: String,
    pub parent_file_id: String,
    pub part_info_list: Vec<PartInfo>,
    pub name: String,
    pub file_type: String,
    pub check_name_mode: Option<String>,
    pub size: u64,
    pub pre_hash: String,
    pub content_hash: Option<String>,
    pub content_hash_name: Option<String>,
    pub proof_code: Option<String>,
    pub proof_version: Option<String>,
}

/// A request to finish an upload.
#[derive(Debug)]
pub struct CompleteRequest {
    pub drive_id: String,
    pub file_id: String,
    pub upload_id: String,
}

/// What the drive answers to a create request.
#[derive(Debug)]
pub struct UploadPreResult {
    pub parent_file_id: String,
    pub upload_id: Option<String>,
    pub rapid_upload: bool,
    pub exist: Option<bool>,
    pub file_type: String,
    pub file_id: String,
    pub domain_id: String,
    pub drive_id: String,
    pub encrypt_mode: String,
    pub file_name: String,
    pub part_info_list: Option<Vec<PartInfo>>,
}

/// Space of a drive.
#[derive(Debug, Clone, Copy)]
pub struct DriveCapacity {
    pub total_size: u64,
    pub used_size: u64,
}

/// What the account keeps of its drive.
#[derive(Debug)]
pub struct AliExtra {
    pub drive_id: Option<String>,
    pub root_file_id: Option<String>,
}

/// An OAuth token.
#[derive(Debug)]
pub struct AuthToken {
    pub token_type: String,
    pub access_token: String,
    pub refresh_token: Option<String>,
    pub expires_in: i32,
}

/// The `authorization` header of a signed request: the token type, a space, the token.
pub fn authorization_header(token: &AuthToken) -> (h: String)
    ensures
        h@ == token.token_type@ + " "@ + token.access_token@,
{
    let mut h = token.token_type.clone();
    h.append(" ");
    h.append(token.access_token.as_str());
    h
}

/// The number of parts `len` bytes are uploaded in: `len / CHUNK_SIZE`, rounded up.
pub fn chunk_count(len: u64) -> (n: u64)
    requires
        len + CHUNK_SIZE <= u64::MAX,
    ensures
        n == (len + CHUNK_SIZE - 1) / (CHUNK_SIZE as int),
{
    (len + CHUNK_SIZE as u64 - 1) / CHUNK_SIZE as u64
}

/// The parts of an upload, numbered from 1, without addresses yet.
pub fn part_infos(count: u64) -> (parts: Vec<PartInfo>)
    ensures
        parts@.len() == count,
        forall|i: int| 0 <= i < count ==> {
            &&& #[trigger] parts@[i].part_number == (i + 1) as u32
            &&& parts@[i].upload_url is None
            &&& parts@[i].internal_upload_url is None
            &&& parts@[i].content_type is None
        },
{
    let mut parts: Vec<PartInfo> = Vec::new();
    let mut index: u64 = 0;
    while index < count
        invariant
            index <= count,
            parts@.len() == index,
            forall|i: int| 0 <= i < index ==> {
                &&& #[trigger] parts@[i].part_number == (i + 1) as u32
                &&& parts@[i].upload_url is None
                &&& parts@[i].internal_upload_url is None
                &&& parts@[i].content_type is None
            },
        decreases count - index,
    {
        parts.push(
            PartInfo { part_number: (index + 1) as u32, upload_url: None, internal_upload_url: None, content_type: None },
        );
        index = index + 1;
    }
    parts
}

/// A block the drive already holds under its name is deleted and created again.
pub fn must_replace(exist: Option<bool>) -> (b: bool)
    ensures
        b == (exist == Some(true)),
{
    match exist {
        Some(true) => true,
        _ => false,
    }
}

/// The bytes `[start, end)` uploaded as part `index` (counted from 0) of `len` bytes: the
/// end stops one byte short of the next part, or at `len`.
pub open spec fn part_range_spec(index: int, len: int) -> (int, int) {
    let start = index * CHUNK_SIZE;
    let end = (index + 1) * CHUNK_SIZE - 1;
    (start, if end > len { len } else { end })
}

/// The range of part `index` of an upload of `len` bytes.
pub fn part_range(index: usize, len: usize) -> (r: (usize, usize))
    requires
        (index + 1) * CHUNK_SIZE <= usize::MAX,
        index * CHUNK_SIZE <= len,
    ensures
        r.0 as int == part_range_spec(index as int, len as int).0,
        r.1 as int == part_range_spec(index as int, len as int).1,
        r.0 <= r.1 <= len,
{
    let start = index * CHUNK_SIZE;
    let mut end = (index + 1) * CHUNK_SIZE - 1;
    if end > len {
        end = len;
    }
    (start, end)
}

/// The request that creates block `name` of `size` bytes under `parent_file_id`, in parts,
/// refusing a name that is taken.
pub fn create_file_request(drive_id: &str, parent_file_id: String, name: &str, size: u64, parts: Vec<PartInfo>) -> (c:
    CreateFile)
    ensures
        c.drive_id@ == drive_id@ && c.parent_file_id == parent_file_id && c.part_info_list == parts
            && c.name@ == name@ && c.file_type@ == "file"@ && (c.check_name_mode matches Some(m) && m@ == "refuse"@)
            && c.size == size && c.pre_hash@.len() == 0 && c.content_hash is None && c.content_hash_name is None
            && c.proof_code is None && c.proof_version is None,
{
    CreateFile {
        drive_id: drive_id.to_owned(),
        parent_file_id,
        part_info_list: parts,
        name: name.to_owned(),
        file_type: "file".to_owned(),
        check_name_mode: Some("refuse".to_owned()),
        size,
        pre_hash: String::new(),
        content_hash: None,
        content_hash_name: None,
        proof_code: None,
        proof_version: None,
    }
}

/// The request that creates folder `name` under `parent_file_id`.
pub fn create_folder_request(drive_id: &str, parent_file_id: String, name: &str) -> (c: CreateFile)
    ensures
        c.drive_id@ == drive_id@ && c.parent_file_id == parent_file_id && c.part_info_list@.len() == 0
            && c.name@ == name@ && c.file_type@ == "folder"@ && (c.check_name_mode matches Some(m) && m@
            == "refuse"@) && c.size == 0 && c.pre_hash@.len() == 0 && c.content_hash is None
            && c.content_hash_name is None && c.proof_code is None && c.proof_version is None,
{
    CreateFile {
        drive_id: drive_id.to_owned(),
        parent_file_id,
        part_info_list: Vec::new(),
        name: name.to_owned(),
        file_type: "folder".to_owned(),
        check_name_mode: Some("refuse".to_owned()),
        size: 0,
        pre_hash: String::new(),
        content_hash: None,
        content_hash_name: None,
        proof_code: None,
        proof_version: None,
    }
}

/// Where a folder is created.
pub enum FolderParent {
    /// At the top of the drive.
    Root,
    /// Under the folder at this path.
    Path(String),
}

/// Cuts a folder path at its last `/` into the parent and the folder's name: no `/`, or
/// only a leading one, means the top of the drive.
pub fn folder_parent(path: &str) -> (r: (FolderParent, String))
    ensures
        match last_index_of(path@, '/') {
            None => r.0 is Root && r.1@ == path@,
            Some(pos) => if pos == 0 {
                r.0 is Root && r.1@ == path@.subrange(1, path@.len() as int)
            } else {
                (r.0 matches FolderParent::Path(p) && p@ == path@.subrange(0, pos))
                && r.1@ == path@.subrange(pos + 1, path@.len() as int)
            },
        },
{
    proof {
        lemma_last_index_of(path@, '/');
    }
    let n = path.unicode_len();
    match rfind_char(path, '/') {
        None => {
            assert(path@.subrange(0, n as int) =~= path@);
            (FolderParent::Root, path.substring_char(0, n).to_owned())
        },
        Some(pos) => {
            if pos == 0 {
                (FolderParent::Root, path.substring_char(1, n).to_owned())
            } else {
                (FolderParent::Path(path.substring_char(0, pos).to_owned()), path.substring_char(pos + 1, n).to_owned())
            }
        },
    }
}

/// The id of the folder a new folder goes under, when it is known without a lookup: the
/// top of the drive is `root`; a folder under a path needs that path looked up.
pub fn known_parent_id(parent: &FolderParent) -> (r: Option<String>)
    ensures
        parent is Root ==> (r matches Some(id) && id@ == "root"@),
        parent is Path ==> r is None,
{
    match parent {
        FolderParent::Root => Some("root".to_owned()),
        FolderParent::Path(_) => None,
    }
}

/// The folder an upload goes under, when the account's extra already records it; `None`
/// means it is resolved (looked up by the data root, or created) and then recorded.
pub fn known_root(extra: &AliExtra) -> (r: Option<String>)
    ensures
        r == extra.root_file_id,
{
    match &extra.root_file_id {
        Some(id) => Some(id.clone()),
        None => None,
    }
}

/// Records the folder that uploads go under in the account's extra, which keeps its drive.
pub fn record_root(extra: &mut AliExtra, root_file_id: String)
    ensures
        *final(extra) == (AliExtra { root_file_id: Some(root_file_id), ..*old(extra) }),
{
    extra.root_file_id = Some(root_file_id);
}

/// Whether creating a folder failed because its parent is missing: then the parent at
/// that path is created first.
pub fn missing_parent(e: &ErrorInfo) -> (r: Option<String>)
    ensures
        match *e {
            ErrorInfo::FileNotFound(p) => r == Some(p),
            _ => r is None,
        },
{
    match e {
        ErrorInfo::FileNotFound(p) => Some(p.clone()),
        _ => None,
    }
}

/// The error of a path lookup whose answer carries the code `NotFound.File`.
pub fn path_lookup_error(code: &Option<String>, path: &str) -> (r: Option<ErrorInfo>)
    ensures
        (code matches Some(c) && c@ == "NotFound.File"@) ==> (r matches Some(ErrorInfo::FileNotFound(p))
            && p@ == path@),
        !(code matches Some(c) && c@ == "NotFound.File"@) ==> r is None,
{
    match code {
        Some(c) => {
            let nf = "NotFound.File".to_owned();
            if *c == nf {
                Some(ErrorInfo::FileNotFound(path.to_owned()))
            } else {
                None
            }
        },
        None => None,
    }
}

impl DriveCapacity {
    /// The quota of the drive: what is left is the total less the used space.
    pub fn to_quota(&self) -> (q: Quota)
        requires
            self.used_size <= self.total_size,
        ensures
            q == (Quota { total: self.total_size, used: self.used_size, remaining: (self.total_size - self.used_size) as u64 }),
    {
        Quota { total: self.total_size, used: self.used_size, remaining: self.total_size - self.used_size }
    }
}

impl CompleteRequest {
    /// The upload's answer: the file's id.
    pub fn into_response(self) -> (r: CreateResponse)
        ensures
            r.file_id == self.file_id && r.file_name@.len() == 0 && r.encrypt_mode@.len() == 0
                && r.file_type@.len() == 0 && r.domain_id@.len() == 0 && r.drive_id@.len() == 0
                && r.location@.len() == 0 && r.parent_file_id@.len() == 0 && !r.rapid_upload && r.upload_id@.len() == 0,
    {
        CreateResponse::with_file(self.file_id, String::new(), String::new(), String::new())
    }
}

impl UploadPreResult {
    /// The upload's answer taken from the create answer.
    pub fn into_response(self) -> (r: CreateResponse)
        ensures
            r.file_id == self.file_id && r.file_name == self.file_name && r.encrypt_mode == self.encrypt_mode
                && r.file_type == self.file_type && r.domain_id@.len() == 0 && r.drive_id@.len() == 0
                && r.location@.len() == 0 && r.parent_file_id@.len() == 0 && !r.rapid_upload && r.upload_id@.len() == 0,
    {
        CreateResponse::with_file(self.file_id, self.file_name, self.encrypt_mode, self.file_type)
    }
}

/// The address the user is sent to for authorizing account `id`: a relay page that is
/// given the callback on `server` and the drive's authorization page.
pub open spec fn authorize_url_spec(server: Seq<char>, id: int, client_id: Seq<char>) -> Seq<char> {
    let callback = server + "/api/cloud/callback"@;
    let target = API_DOMAIN_PREFIX@ + "/oauth/authorize?response_type=code&client_id="@ + client_id
        + "&scope=user:base,file:all:read,file:all:write&state="@ + int_decimal(id);
    "https://cloud.calm0406.tk/callback.html?target="@ + url_encode_bytes(vstd::utf8::encode_utf8(callback))
        + "&redirect_uri="@ + url_encode_bytes(vstd::utf8::encode_utf8(target))
}

pub fn authorize_url(server: &str, id: i32, client_id: &str) -> (u: String)
    ensures
        u@ == authorize_url_spec(server@, id as int, client_id@),
{
    let mut callback = server.to_owned();
    callback.append("/api/cloud/callback");
    let encoded = url_encode(callback.as_str());
    let mut target = API_DOMAIN_PREFIX.to_owned();
    target.append("/oauth/authorize?response_type=code&client_id=");
    target.append(client_id);
    target.append("&scope=user:base,file:all:read,file:all:write&state=");
    append_i64(&mut target, id as i64);
    let mut call = "https://cloud.calm0406.tk/callback.html?target=".to_owned();
    call.append(encoded.as_str());
    call.append("&redirect_uri=");
    let e2 = url_encode(target.as_str());
    call.append(e2.as_str());
    call
}

/// The path, under the API, that trades an authorization `code` for a token.
pub fn token_path(server: &str, code: &str, client_id: &str, client_secret: &str) -> (p: String)
    ensures
        p@ == "oauth/access_token?grant_type=authorization_code&code="@ + code@ + "&client_id="@ + client_id@
            + "&client_secret="@ + client_secret@ + "&redirect_uri="@ + url_encode_bytes(
            vstd::utf8::encode_utf8(server@ + "/api/cloud/callback"@),
        ),
{
    let mut callback = server.to_owned();
    callback.append("/api/cloud/callback");
    let encoded = url_encode(callback.as_str());
    let mut p = "oauth/access_token?grant_type=authorization_code&code=".to_owned();
    p.append(code);
    p.append("&client_id=");
    p.append(client_id);
    p.append("&client_secret=");
    p.append(client_secret);
    p.append("&redirect_uri=");
    p.append(encoded.as_str());
    p
}

/// The body that renews a token: the refresh token held, the app's id and secret, and the
/// grant.
pub fn refresh_body(refresh_token: &str, client_id: &str, client_secret: &str) -> (b: Vec<(String, String)>)
    ensures
        pairs_view(b@) == seq![
            ("refresh_token"@, refresh_token@),
            ("client_id"@, client_id@),
            ("client_secret"@, client_secret@),
            ("grant_type"@, "refresh_token"@),
        ],
{
    let mut b: Vec<(String, String)> = Vec::new();
    b.push(("refresh_token".to_owned(), refresh_token.to_owned()));
    b.push(("client_id".to_owned(), client_id.to_owned()));
    b.push(("client_secret".to_owned(), client_secret.to_owned()));
    b.push(("grant_type".to_owned(), "refresh_token".to_owned()));
    assert(pairs_view(b@) =~= seq![
        ("refresh_token"@, refresh_token@),
        ("client_id"@, client_id@),
        ("client_secret"@, client_secret@),
        ("grant_type"@, "refresh_token"@),
    ]);
    b
}

/// The body that trades an authorization `code` for a token.
pub fn authorization_body(code: &str, client_id: &str, client_secret: &str) -> (b: Vec<(String, String)>)
    ensures
        pairs_view(b@) == seq![
            ("client_id"@, client_id@),
            ("client_secret"@, client_secret@),
            ("grant_type"@, "authorization_code"@),
            ("code"@, code@),
        ],
{
    let mut b: Vec<(String, String)> = Vec::new();
    b.push(("client_id".to_owned(), client_id.to_owned()));
    b.push(("client_secret".to_owned(), client_secret.to_owned()));
    b.push(("grant_type".to_owned(), "authorization_code".to_owned()));
    b.push(("code".to_owned(), code.to_owned()));
    assert(pairs_view(b@) =~= seq![
        ("client_id"@, client_id@),
        ("client_secret"@, client_secret@),
        ("grant_type"@, "authorization_code"@),
        ("code"@, code@),
    ]);
    b
}

/// The body that names a file of the drive, as deleting a file sends it.
pub fn file_body(drive_id: &str, file_id: &str) -> (b: Vec<(String, String)>)
    ensures
        pairs_view(b@) == seq![("drive_id"@, drive_id@), ("file_id"@, file_id@)],
{
    let mut b: Vec<(String, String)> = Vec::new();
    b.push(("drive_id".to_owned(), drive_id.to_owned()));
    b.push(("file_id".to_owned(), file_id.to_owned()));
    assert(pairs_view(b@) =~= seq![("drive_id"@, drive_id@), ("file_id"@, file_id@)]);
    b
}

/// The body that looks a file up by its path.
pub fn path_body(drive_id: &str, path: &str) -> (b: Vec<(String, String)>)
    ensures
        pairs_view(b@) == seq![("drive_id"@, drive_id@), ("file_path"@, path@)],
{
    let mut b: Vec<(String, String)> = Vec::new();
    b.push(("drive_id".to_owned(), drive_id.to_owned()));
    b.push(("file_path".to_owned(), path.to_owned()));
    assert(pairs_view(b@) =~= seq![("drive_id"@, drive_id@), ("file_path"@, path@)]);
    b
}

/// The address of an API path.
pub fn api_url(path: &str) -> (u: String)
    ensures
        u@ == API_DOMAIN_PREFIX@ + "/"@ + path@,
{
    let mut u = API_DOMAIN_PREFIX.to_owned();
    u.append("/");
    u.append(path);
    u
}

/// The account once authorized: its drive recorded in `extra`, blocks kept under the data
/// root, and enabled.
pub fn after_callback(meta: &mut CloudMeta, extra: String)
    ensures
        final(meta).data_root matches Some(d) && d@ == DATA_ROOT@,
        *final(meta) == (CloudMeta {
            extra: Some(extra),
            data_root: final(meta).data_root,
            status: MetaStatus::Enable.spec_code(),
            ..*old(meta)
        }),
{
    meta.extra = Some(extra);
    meta.data_root = Some(DATA_ROOT.to_owned());
    meta.status = MetaStatus::Enable.code();
}

/// A block shorter than a chunk, as every stored block is, goes up as one part that holds
/// all of its bytes. (From a chunk on, each part stops one byte short of the next one.)
pub proof fn short_upload_is_one_whole_part(len: int)
    requires
        0 < len < CHUNK_SIZE,
    ensures
        (len + CHUNK_SIZE - 1) / (CHUNK_SIZE as int) == 1,
        part_range_spec(0, len) == (0int, len),
{
}

} // verus!
