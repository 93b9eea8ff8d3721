//! The Baidu net disk: signing requests, cutting uploads into blocks, and following
//! download redirections.
use vstd::prelude::*;
use vstd::string::*;
use vstd::slice::{slice_subrange, slice_to_vec};
use vstd::utf8::encode_utf8;
use crate::error::ErrorInfo;
use crate::tables::CloudMeta;
use crate::storage::CreateResponse;
use crate::text::{int_decimal, nat_decimal, append_i64, append_u64, parse_i64, parse_i64_spec};
use crate::encoding::{url_encode, url_encode_bytes, json_strings, json_string_array, json_plain_array, json_plain_char, json_ints, json_int_array, lemma_json_string_array_plain};
use crate::hash::{md5_hex, md5_hex_digest, is_lower_hex};

verus! {

/// Bytes per uploaded block.
pub const BLOCK_SIZE: usize = 4194304;

pub const API_DOMAIN_PREFIX: &'static str = "https://pan.baidu.com";

pub const AUTH_DOMAIN_PREFIX: &'static str = "https://openapi.baidu.com";

pub const FILE_DOMAIN_PREFIX: &'static str = "https://d.pcs.baidu.com";

/// The relay page that OAuth answers are sent to.
pub const RELAY_PAGE: &'static str = "https://cloud.calm0406.tk/callback.html";

/// An OAuth token of the net disk.
#[derive(Debug)]
pub struct Token {
    pub expires_in: i32,
    pub refresh_token: String,
    pub access_token: String,
}

/// Adds the account's access token to the query of every request.
pub struct BaiduAuthMiddleware {}

impl BaiduAuthMiddleware {
    pub fn new() -> (m: BaiduAuthMiddleware) {
        BaiduAuthMiddleware {}
    }

    /// The stored token of the account a request is made for; an error when the request
    /// carries no account, or the account no token.
    pub fn stored_token(meta: Option<&CloudMeta>) -> (r: Result<String, ErrorInfo>)
        ensures
            meta is None ==> (r matches Err(ErrorInfo::NotFoundConfig(m)) && m@ == "db token没有配置"@),
            (meta matches Some(m) && m.auth is None) ==> (r matches Err(ErrorInfo::NotFoundConfig(m))
                && m@ == "token没有配置"@),
            (meta matches Some(m) && m.auth is Some) ==> r == Ok::<String, ErrorInfo>(meta->0.auth->0),
    {
        match meta {
            None => Err(ErrorInfo::NotFoundConfig("db token没有配置".to_owned())),
            Some(m) => match &m.auth {
                None => Err(ErrorInfo::NotFoundConfig("token没有配置".to_owned())),
                Some(t) => Ok(t.clone()),
            },
        }
    }

    /// The query of a signed request: the old query, then `&` if the address already holds
    /// a `?` and `?` otherwise, then the access token.
    pub fn signed_query(query: Option<&str>, url: &str, access_token: &str) -> (q: String)
        ensures
            q@ == (match query {
                Some(s) => s@,
                None => Seq::<char>::empty(),
            }) + (if url@.contains('?') { "&"@ } else { "?"@ }) + "access_token="@ + access_token@,
    {
        let mut q = match query {
            Some(s) => s.to_owned(),
            None => String::new(),
        };
        if contains_char(url, '?') {
            q.append("&");
        } else {
            q.append("?");
        }
        q.append("access_token=");
        q.append(access_token);
        q
    }
}

/// The text holds the character `c`.
pub fn contains_char(s: &str, c: char) -> (b: bool)
    ensures
        b == s@.contains(c),
{
    let n = s.unicode_len();
    let mut i: usize = 0;
    while i < n
        invariant
            n == s@.len(),
            i <= n,
            forall|j: int| 0 <= j < i ==> s@[j] != c,
        decreases n - i,
    {
        if s.get_char(i) == c {
            return true;
        }
        i = i + 1;
    }
    false
}

/// The number of blocks `len` bytes are uploaded in.
pub open spec fn block_count(len: int) -> int {
    (len + BLOCK_SIZE - 1) / (BLOCK_SIZE as int)
}

/// Block `i` of `content`: `BLOCK_SIZE` bytes from `i * BLOCK_SIZE`, the last one shorter.
pub open spec fn block_of(content: Seq<u8>, i: int) -> Seq<u8> {
    let start = i * BLOCK_SIZE;
    let end = (i + 1) * BLOCK_SIZE;
    content.subrange(start, if end > content.len() { content.len() as int } else { end })
}

/// The blocks of an upload, with the MD5 of each.
pub struct UploadBlocks {
    pub blocks: Vec<Vec<u8>>,
    pub md5s: Vec<String>,
}

/// Cuts `content` into blocks of `BLOCK_SIZE` bytes and digests each.
pub fn split_blocks(content: &[u8]) -> (r: UploadBlocks)
    requires
        content@.len() + 2 * BLOCK_SIZE <= usize::MAX,
    ensures
        r.blocks@.len() == block_count(content@.len() as int),
        r.md5s@.len() == r.blocks@.len(),
        forall|i: int| 0 <= i < r.blocks@.len() ==> #[trigger] r.blocks@[i]@ == block_of(content@, i),
        forall|i: int| 0 <= i < r.md5s@.len() ==> #[trigger] r.md5s@[i]@ == md5_hex(block_of(content@, i)),
        forall|i: int, j: int| 0 <= i < r.md5s@.len() && 0 <= j < r.md5s@[i]@.len() ==> is_lower_hex(#[trigger] r.md5s@[i]@[j]),
{
    let len = content.len();
    let mut blocks: Vec<Vec<u8>> = Vec::new();
    let mut md5s: Vec<String> = Vec::new();
    let mut start: usize = 0;
    let mut end: usize = BLOCK_SIZE;
    while start < len
        invariant
            len == content@.len(),
            len + 2 * BLOCK_SIZE <= usize::MAX,
            start == blocks@.len() * BLOCK_SIZE,
            end == start + BLOCK_SIZE,
            blocks@.len() == md5s@.len(),
            start <= len + BLOCK_SIZE,
            blocks@.len() > 0 ==> start - BLOCK_SIZE < len,
            forall|i: int| 0 <= i < blocks@.len() ==> #[trigger] blocks@[i]@ == block_of(content@, i),
            forall|i: int| 0 <= i < md5s@.len() ==> #[trigger] md5s@[i]@ == md5_hex(block_of(content@, i)),
            forall|i: int, j: int| 0 <= i < md5s@.len() && 0 <= j < md5s@[i]@.len() ==> is_lower_hex(#[trigger] md5s@[i]@[j]),
        decreases len + BLOCK_SIZE - start,
    {
        let stop = if end > len { len } else { end };
        let block = slice_to_vec(slice_subrange(content, start, stop));
        let digest = md5_hex_digest(block.as_slice());
        assert(block@ == block_of(content@, blocks@.len() as int));
        blocks.push(block);
        md5s.push(digest);
        start = start + BLOCK_SIZE;
        end = end + BLOCK_SIZE;
    }
    assert(blocks@.len() == block_count(len as int)) by (nonlinear_arith)
        requires
            start == blocks@.len() * BLOCK_SIZE,
            start >= len,
            blocks@.len() > 0 ==> start - BLOCK_SIZE < len,
            len == 0 ==> blocks@.len() == 0,
    {
    }
    UploadBlocks { blocks, md5s }
}

/// The list of block digests, as the JSON array the upload names them in; digests, being
/// hexadecimal, are written between quotes as they are.
pub fn block_list(md5s: &Vec<String>) -> (s: String)
    ensures
        s@ == json_string_array(md5s@.map_values(|m: String| m@)),
        (forall|i: int, j: int|
            0 <= i < md5s@.len() && 0 <= j < md5s@[i]@.len() ==> is_lower_hex(#[trigger] md5s@[i]@[j])) ==> s@
            == json_plain_array(md5s@.map_values(|m: String| m@)),
{
    let s = json_strings(md5s);
    proof {
        let items = md5s@.map_values(|m: String| m@);
        if forall|i: int, j: int|
            0 <= i < md5s@.len() && 0 <= j < md5s@[i]@.len() ==> is_lower_hex(#[trigger] md5s@[i]@[j]) {
            assert forall|i: int, j: int| 0 <= i < items.len() && 0 <= j < items[i].len() implies json_plain_char(
                #[trigger] items[i][j],
            ) by {
                assert(items[i] == md5s@[i]@);
                assert(is_lower_hex(md5s@[i]@[j]));
            }
            lemma_json_string_array_plain(items);
        }
    }
    s
}

/// The path a block is uploaded to: under the account's data root.
pub fn upload_path(data_root: &str, file_part_id: &str) -> (p: String)
    ensures
        p@ == data_root@ + "/"@ + file_part_id@,
{
    let mut p = data_root.to_owned();
    p.append("/");
    p.append(file_part_id);
    p
}

/// A form field.
pub struct FormField {
    pub name: String,
    pub value: String,
}

/// The fields of the request that announces an upload.
pub fn precreate_form(path: &str, size: usize, block_list: &str) -> (f: Vec<FormField>)
    ensures
        f@.len() == 6,
        f@[0].name@ == "path"@ && f@[0].value@ == path@,
        f@[1].name@ == "size"@ && f@[1].value@ == nat_decimal(size as nat),
        f@[2].name@ == "isdir"@ && f@[2].value@ == "0"@,
        f@[3].name@ == "autoinit"@ && f@[3].value@ == "1"@,
        f@[4].name@ == "rtype"@ && f@[4].value@ == "3"@,
        f@[5].name@ == "block_list"@ && f@[5].value@ == block_list@,
{
    let mut size_text = String::new();
    append_u64(&mut size_text, size as u64);
    let mut f: Vec<FormField> = Vec::new();
    f.push(FormField { name: "path".to_owned(), value: path.to_owned() });
    f.push(FormField { name: "size".to_owned(), value: size_text });
    f.push(FormField { name: "isdir".to_owned(), value: "0".to_owned() });
    f.push(FormField { name: "autoinit".to_owned(), value: "1".to_owned() });
    f.push(FormField { name: "rtype".to_owned(), value: "3".to_owned() });
    f.push(FormField { name: "block_list".to_owned(), value: block_list.to_owned() });
    f
}

/// The address block `index` of upload `upload_id` is sent to.
pub fn part_upload_url(path: &str, upload_id: &str, index: usize) -> (u: String)
    ensures
        u@ == FILE_DOMAIN_PREFIX@ + "/"@ + "rest/2.0/pcs/superfile2?method=upload&type=tmpfile&path="@ + path@
            + "&uploadid="@ + upload_id@ + "&partseq="@ + nat_decimal(index as nat),
{
    let mut u = FILE_DOMAIN_PREFIX.to_owned();
    u.append("/");
    u.append("rest/2.0/pcs/superfile2?method=upload&type=tmpfile&path=");
    u.append(path);
    u.append("&uploadid=");
    u.append(upload_id);
    u.append("&partseq=");
    append_u64(&mut u, index as u64);
    u
}

/// The fields of the request that finishes an upload: those of the announcement, then the
/// upload's id.
pub fn create_form(precreate: &Vec<FormField>, upload_id: &str) -> (f: Vec<FormField>)
    ensures
        f@.len() == precreate@.len() + 1,
        forall|i: int| 0 <= i < precreate@.len() ==> #[trigger] f@[i].name@ == precreate@[i].name@ && f@[i].value@
            == precreate@[i].value@,
        f@.last().name@ == "uploadid"@ && f@.last().value@ == upload_id@,
{
    let mut f: Vec<FormField> = Vec::new();
    let mut i: usize = 0;
    while i < precreate.len()
        invariant
            i <= precreate@.len(),
            f@.len() == i,
            forall|k: int| 0 <= k < i ==> #[trigger] f@[k].name@ == precreate@[k].name@ && f@[k].value@
                == precreate@[k].value@,
        decreases precreate.len() - i,
    {
        f.push(FormField { name: precreate[i].name.clone(), value: precreate[i].value.clone() });
        i = i + 1;
    }
    f.push(FormField { name: "uploadid".to_owned(), value: upload_id.to_owned() });
    f
}

/// The answer to an upload, from the id the disk gave the new file in its reply to the
/// create request; `None` when the reply names no file.
pub fn create_response(fs_id: Option<u64>) -> (r: Option<CreateResponse>)
    ensures
        fs_id is None ==> r is None,
        fs_id matches Some(id) ==> (r matches Some(c) && c.file_id@ == nat_decimal(id as nat)
            && c.file_name@.len() == 0 && c.encrypt_mode@.len() == 0 && c.file_type@.len() == 0
            && c.domain_id@.len() == 0 && c.drive_id@.len() == 0 && c.location@.len() == 0
            && c.parent_file_id@.len() == 0 && !c.rapid_upload && c.upload_id@.len() == 0),
{
    match fs_id {
        None => None,
        Some(id) => {
            let mut file_id = String::new();
            append_u64(&mut file_id, id);
            Some(CreateResponse::with_file(file_id, String::new(), String::new(), String::new()))
        },
    }
}

/// What an upload does next.
#[derive(Debug)]
pub enum UploadStep {
    /// Send part `index` (counted from 0) of the blocks.
    Part(usize),
    /// Every part is sent: finish the upload with the create request.
    Create,
    /// A part failed: the upload ends with its error.
    Fail(ErrorInfo),
}

/// The parts of an upload, sent one after the other: `sent` of `part_count` have gone.
pub struct PartUpload {
    pub part_count: usize,
    pub sent: usize,
}

impl PartUpload {
    /// An upload of `part_count` parts, once the announcement is answered: the first part
    /// goes first, or the create request at once when there is none.
    pub fn start(part_count: usize) -> (r: (PartUpload, UploadStep))
        ensures
            r.0.part_count == part_count && r.0.sent == 0,
            part_count == 0 ==> r.1 is Create,
            part_count > 0 ==> (r.1 matches UploadStep::Part(i) && i == 0),
    {
        let u = PartUpload { part_count, sent: 0 };
        if part_count == 0 {
            (u, UploadStep::Create)
        } else {
            (u, UploadStep::Part(0))
        }
    }

    /// Takes the answer to the part just sent: a failure ends the upload with its error;
    /// otherwise the next part goes, and after the last one the create request.
    pub fn on_part(&mut self, result: Result<(), ErrorInfo>) -> (step: UploadStep)
        requires
            old(self).sent < old(self).part_count,
        ensures
            final(self).part_count == old(self).part_count,
            result matches Err(e) ==> (step == UploadStep::Fail(e) && final(self).sent == old(self).sent),
            result is Ok ==> final(self).sent == old(self).sent + 1,
            result is Ok && final(self).sent == final(self).part_count ==> step is Create,
            result is Ok && final(self).sent < final(self).part_count ==> (step matches UploadStep::Part(i)
                && i == final(self).sent),
    {
        match result {
            Err(e) => UploadStep::Fail(e),
            Ok(()) => {
                self.sent = self.sent + 1;
                if self.sent == self.part_count {
                    UploadStep::Create
                } else {
                    UploadStep::Part(self.sent)
                }
            },
        }
    }
}

/// The path of file-manager operation `opera` (such as `delete`).
pub fn filemanager_path(opera: &str) -> (p: String)
    ensures
        p@ == "rest/2.0/xpan/file?method=filemanager&opera="@ + opera@,
{
    let mut p = "rest/2.0/xpan/file?method=filemanager&opera=".to_owned();
    p.append(opera);
    p
}

/// The fields of a file-manager request: the files as a JSON array of their paths, then
/// the mode of the operation.
pub fn filemanager_form(paths: &Vec<String>, async_mode: &str) -> (f: Vec<FormField>)
    ensures
        f@.len() == 2,
        f@[0].name@ == "filelist"@ && f@[0].value@ == json_string_array(paths@.map_values(|p: String| p@)),
        f@[1].name@ == "async"@ && f@[1].value@ == async_mode@,
{
    let list = json_strings(paths);
    let mut f: Vec<FormField> = Vec::new();
    f.push(FormField { name: "filelist".to_owned(), value: list });
    f.push(FormField { name: "async".to_owned(), value: async_mode.to_owned() });
    f
}

/// The request that deletes the file at `path`: the `delete` operation on that one file,
/// in the given mode.
pub fn delete_request(path: String, async_mode: &str) -> (r: (String, Vec<FormField>))
    ensures
        r.0@ == "rest/2.0/xpan/file?method=filemanager&opera="@ + "delete"@,
        r.1@.len() == 2,
        r.1@[0].name@ == "filelist"@ && r.1@[0].value@ == json_string_array(seq![path@]),
        r.1@[1].name@ == "async"@ && r.1@[1].value@ == async_mode@,
{
    let ghost pv = path@;
    let mut paths: Vec<String> = Vec::new();
    paths.push(path);
    assert(paths@.map_values(|p: String| p@) =~= seq![pv]);
    (filemanager_path("delete"), filemanager_form(&paths, async_mode))
}

/// Deleting a file that the disk no longer knows (404) counts as done.
pub fn delete_outcome(info: Result<(), ErrorInfo>) -> (r: Option<Result<(), ErrorInfo>>)
    ensures
        info is Ok ==> r is None,
        info matches Err(e) ==> (match e {
            ErrorInfo::Http(404) => r == Some(Ok::<(), ErrorInfo>(())),
            _ => r == Some(Err::<(), ErrorInfo>(e)),
        }),
{
    match info {
        Ok(()) => None,
        Err(e) => match e {
            ErrorInfo::Http(code) => if code == 404 {
                Some(Ok(()))
            } else {
                Some(Err(ErrorInfo::Http(code)))
            },
            other => Some(Err(other)),
        },
    }
}

/// Where a download goes next: a redirection is followed to its address, any other
/// failure ends it.
pub fn follow_redirect(e: ErrorInfo) -> (r: Result<String, ErrorInfo>)
    ensures
        match e {
            ErrorInfo::Http302(url) => r == Ok::<String, ErrorInfo>(url),
            _ => r == Err::<String, ErrorInfo>(e),
        },
{
    match e {
        ErrorInfo::Http302(url) => Ok(url),
        other => Err(other),
    }
}

/// The query that reads the metadata, download link included, of file `fsid`.
pub fn filemetas_path(fsid: i64) -> (p: String)
    ensures
        p@ == "rest/2.0/xpan/multimedia?method=filemetas&dlink=1&fsids="@ + json_int_array(seq![fsid]),
{
    let mut ids: Vec<i64> = Vec::new();
    ids.push(fsid);
    assert(ids@ =~= seq![fsid]);
    let j = json_ints(&ids);
    let mut p = "rest/2.0/xpan/multimedia?method=filemetas&dlink=1&fsids=".to_owned();
    p.append(j.as_str());
    p
}

/// The metadata query for the file the disk knows by `file_id`, whose text is its numeric
/// id; `None` for an id that is no number.
pub fn info_path(file_id: &str) -> (r: Option<String>)
    ensures
        match parse_i64_spec(file_id@) {
            Some(fsid) => r matches Some(p) && p@ == "rest/2.0/xpan/multimedia?method=filemetas&dlink=1&fsids="@
                + json_int_array(seq![fsid]),
            None => r is None,
        },
{
    match parse_i64(file_id) {
        Some(fsid) => Some(filemetas_path(fsid)),
        None => None,
    }
}

/// The error for a file the disk has no metadata of.
pub fn file_not_found(file_id: &str) -> (e: ErrorInfo)
    ensures
        e matches ErrorInfo::FileNotFound(m) && m@ == file_id@ + "不存在"@,
{
    let mut m = file_id.to_owned();
    m.append("不存在");
    ErrorInfo::FileNotFound(m)
}

/// The address the user is sent to for authorizing account `id`.
pub fn authorize_url(server: &str, id: i32, client_id: &str) -> (u: String)
    ensures
        u@ == "https://cloud.calm0406.tk/callback.html?target="@ + url_encode_bytes(
            encode_utf8("http://"@ + server@ + "/api/cloud/callback"@),
        ) + "&redirect_uri="@ + url_encode_bytes(
            encode_utf8(
                AUTH_DOMAIN_PREFIX@ + "/oauth/2.0/authorize?response_type=code&client_id="@ + client_id@
                    + "&scope=basic,netdisk&state="@ + int_decimal(id as int),
            ),
        ),
{
    let mut callback = "http://".to_owned();
    callback.append(server);
    callback.append("/api/cloud/callback");
    let encoded = url_encode(callback.as_str());
    let mut target = AUTH_DOMAIN_PREFIX.to_owned();
    target.append("/oauth/2.0/authorize?response_type=code&client_id=");
    target.append(client_id);
    target.append("&scope=basic,netdisk&state=");
    append_i64(&mut target, id as i64);
    let mut call = "https://cloud.calm0406.tk/callback.html?target=".to_owned();
    call.append(encoded.as_str());
    call.append("&redirect_uri=");
    let e2 = url_encode(target.as_str());
    call.append(e2.as_str());
    call
}

/// The address that trades an authorization `code` for a token; answers go to the relay page.
pub fn token_url(code: &str, client_id: &str, client_secret: &str) -> (u: String)
    ensures
        u@ == AUTH_DOMAIN_PREFIX@ + "/"@ + "oauth/2.0/token?grant_type=authorization_code&code="@ + code@
            + "&client_id="@ + client_id@ + "&client_secret="@ + client_secret@ + "&redirect_uri="@
            + url_encode_bytes(encode_utf8(RELAY_PAGE@)),
{
    let encoded = url_encode(RELAY_PAGE);
    let mut u = AUTH_DOMAIN_PREFIX.to_owned();
    u.append("/");
    u.append("oauth/2.0/token?grant_type=authorization_code&code=");
    u.append(code);
    u.append("&client_id=");
    u.append(client_id);
    u.append("&client_secret=");
    u.append(client_secret);
    u.append("&redirect_uri=");
    u.append(encoded.as_str());
    u
}

/// The address that renews a token, with an empty client id and secret.
pub fn refresh_url(refresh_token: &str) -> (u: String)
    ensures
        u@ == AUTH_DOMAIN_PREFIX@ + "/"@ + "oauth/2.0/token?grant_type=refresh_token&refresh_token="@
            + refresh_token@ + "&client_id="@ + "&client_secret="@,
{
    let mut u = AUTH_DOMAIN_PREFIX.to_owned();
    u.append("/");
    u.append("oauth/2.0/token?grant_type=refresh_token&refresh_token=");
    u.append(refresh_token);
    u.append("&client_id=");
    u.append("&client_secret=");
    u
}

/// Records when a new token expires: ten seconds before the disk says.
pub fn record_expiry(meta: &mut CloudMeta, token: &Token)
    requires
        token.expires_in >= i32::MIN + 10,
    ensures
        *final(meta) == (CloudMeta { expires_in: Some((token.expires_in - 10) as i32), ..*old(meta) }),
{
    meta.expires_in = Some(token.expires_in - 10);
}

/// The first `k` blocks of `content`, one after the other.
pub open spec fn first_blocks(content: Seq<u8>, k: int) -> Seq<u8>
    decreases k,
{
    if k <= 0 {
        Seq::empty()
    } else {
        first_blocks(content, k - 1) + block_of(content, k - 1)
    }
}

proof fn lemma_first_blocks(content: Seq<u8>, k: int)
    requires
        0 <= k <= block_count(content.len() as int),
    ensures
        first_blocks(content, k) == content.subrange(
            0,
            if k * BLOCK_SIZE > content.len() { content.len() as int } else { k * BLOCK_SIZE },
        ),
    decreases k,
{
    let len = content.len() as int;
    if k > 0 {
        lemma_first_blocks(content, k - 1);
        assert((k - 1) * BLOCK_SIZE < len) by (nonlinear_arith)
            requires
                k - 1 < block_count(len),
                k >= 1,
                len >= 0,
        {
        }
        assert(k * BLOCK_SIZE == (k - 1) * BLOCK_SIZE + BLOCK_SIZE) by (nonlinear_arith);
        assert(first_blocks(content, k) =~= content.subrange(
            0,
            if k * BLOCK_SIZE > len { len } else { k * BLOCK_SIZE },
        ));
    } else {
        assert(content.subrange(0, 0) =~= Seq::<u8>::empty());
    }
}

/// The blocks an upload is cut into hold the content, in order, and nothing else.
pub proof fn blocks_cover_content(content: Seq<u8>)
    ensures
        first_blocks(content, block_count(content.len() as int)) == content,
{
    let len = content.len() as int;
    let n = block_count(len);
    assert(n >= 0);
    lemma_first_blocks(content, n);
    assert(n * BLOCK_SIZE >= len) by (nonlinear_arith)
        requires
            n == (len + BLOCK_SIZE - 1) / (BLOCK_SIZE as int),
            len >= 0,
    {
    }
    assert(content.subrange(0, len) =~= content);
}

} // verus!
