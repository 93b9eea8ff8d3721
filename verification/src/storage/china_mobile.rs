//! The China Mobile cloud: its XML requests and answers.
use vstd::prelude::*;
use vstd::string::*;
use vstd::utf8::encode_utf8;
use crate::storage::{pairs_view, CreateResponse, Quota};
use crate::tables::CloudMeta;
use crate::text::{int_decimal, nat_decimal, append_i64, append_u64};
use crate::encoding::{url_encode, url_encode_bytes};

verus! {

pub const CHANNEL_ID: &'static str = "10009";

pub const APP_ID: &'static str = "750894";

pub const API_DOMAIN_PREFIX: &'static str = "https://miniapp.yun.139.com";

/// The declaration that starts every XML request.
pub const XML_HEADER: &'static str = "<?xml version=\"1.0\" encoding=\"UTF-8\"?>";

/// A request or part of one that is written as XML.
pub trait ToXml {
    /// The XML text of the value.
    spec fn xml(&self) -> Seq<char>;

    /// Appends the XML text of the value to `buf`.
    fn to_xml(&self, buf: &mut String)
        ensures
            final(buf)@ == old(buf)@ + self.xml(),
    ;

    /// Appends the XML declaration and then the XML text of the value.
    fn to_xml_with_header(&self, buf: &mut String)
        ensures
            final(buf)@ == old(buf)@ + XML_HEADER@ + self.xml(),
    {
        buf.append(XML_HEADER);
        self.to_xml(buf);
        assert(buf@ =~= old(buf)@ + XML_HEADER@ + self.xml());
    }
}

/// One file announced in an upload.
#[derive(Debug)]
pub struct UploadContentInfo {
    pub content_name: String,
    pub content_size: u64,
    pub content_desc: String,
    pub content_tag_list: String,
    pub comlex_flag: i32,
    pub comlex_cid: String,
    pub res_cid: String,
    pub digest: String,
}

/// The request that announces an upload.
#[derive(Debug)]
pub struct PcUploadFileRequest {
    pub total_size: u64,
    pub upload_content_list: Vec<UploadContentInfo>,
}

/// Space of the cloud.
#[derive(Debug, Clone, Copy)]
pub struct DiskInfo {
    pub free_disk_size: u64,
    pub disk_size: u64,
}

/// An access token of the cloud.
#[derive(Debug)]
pub struct AccessToken {
    pub access_token: String,
    pub expires_in: u32,
}

/// A file the cloud made for an upload.
#[derive(Debug)]
pub struct NewContent {
    pub content_id: String,
    pub content_name: String,
}

impl ToXml for UploadContentInfo {
    open spec fn xml(&self) -> Seq<char> {
        "<uploadContentInfo>"@ + "<contentName>"@ + self.content_name@ + "</contentName>"@ + "<contentSize>"@
            + nat_decimal(self.content_size as nat) + "</contentSize>"@ + "<contentDesc>"@ + self.content_desc@
            + "</contentDesc>"@ + "<contentTagList>"@ + self.content_tag_list@ + "</contentTagList>"@
            + "<comlexFlag>"@ + int_decimal(self.comlex_flag as int) + "</comlexFlag>"@ + "<comlexCid>"@
            + self.comlex_cid@ + "</comlexCid>"@ + "<resCid>"@ + self.res_cid@ + "</resCid>"@ + "<digest>"@
            + self.digest@ + "</digest>"@ + "</uploadContentInfo>"@
    }

    fn to_xml(&self, buf: &mut String) {
        buf.append("<uploadContentInfo>");
        buf.append("<contentName>");
        buf.append(self.content_name.as_str());
        buf.append("</contentName>");
        buf.append("<contentSize>");
        append_u64(buf, self.content_size);
        buf.append("</contentSize>");
        buf.append("<contentDesc>");
        buf.append(self.content_desc.as_str());
        buf.append("</contentDesc>");
        buf.append("<contentTagList>");
        buf.append(self.content_tag_list.as_str());
        buf.append("</contentTagList>");
        buf.append("<comlexFlag>");
        append_i64(buf, self.comlex_flag as i64);
        buf.append("</comlexFlag>");
        buf.append("<comlexCid>");
        buf.append(self.comlex_cid.as_str());
        buf.append("</comlexCid>");
        buf.append("<resCid>");
        buf.append(self.res_cid.as_str());
        buf.append("</resCid>");
        buf.append("<digest>");
        buf.append(self.digest.as_str());
        buf.append("</digest>");
        buf.append("</uploadContentInfo>");
        assert(buf@ =~= old(buf)@ + self.xml());
    }
}

/// The XML of the first `k` announced files, one after the other.
pub open spec fn content_list_xml(items: Seq<UploadContentInfo>, k: int) -> Seq<char>
    decreases k,
{
    if k <= 0 {
        Seq::empty()
    } else {
        content_list_xml(items, k - 1) + items[k - 1].xml()
    }
}

impl ToXml for PcUploadFileRequest {
    open spec fn xml(&self) -> Seq<char> {
        "<pcUploadFileRequest>"@ + "<totalSize>"@ + nat_decimal(self.total_size as nat) + "</totalSize>"@
            + "<uploadContentList length=\""@ + nat_decimal(self.upload_content_list@.len()) + "\">"@
            + content_list_xml(self.upload_content_list@, self.upload_content_list@.len() as int)
            + "</uploadContentList>"@ + "</pcUploadFileRequest>"@
    }

    fn to_xml(&self, buf: &mut String) {
        buf.append("<pcUploadFileRequest>");
        buf.append("<totalSize>");
        append_u64(buf, self.total_size);
        buf.append("</totalSize>");
        buf.append("<uploadContentList length=\"");
        append_u64(buf, self.upload_content_list.len() as u64);
        buf.append("\">");
        let ghost head = buf@;
        let mut i: usize = 0;
        while i < self.upload_content_list.len()
            invariant
                i <= self.upload_content_list@.len(),
                buf@ == head + content_list_xml(self.upload_content_list@, i as int),
            decreases self.upload_content_list.len() - i,
        {
            self.upload_content_list[i].to_xml(buf);
            i = i + 1;
            assert(buf@ =~= head + content_list_xml(self.upload_content_list@, i as int));
        }
        buf.append("</uploadContentList>");
        buf.append("</pcUploadFileRequest>");
        assert(buf@ =~= old(buf)@ + self.xml());
    }
}

/// The request that announces the upload of `size` bytes under the name `content_name`.
pub fn upload_request(content_name: String, size: u64) -> (r: PcUploadFileRequest)
    ensures
        r.total_size == size,
        r.upload_content_list@.len() == 1,
        r.upload_content_list@[0].content_name == content_name,
        r.upload_content_list@[0].content_size == size,
        r.upload_content_list@[0].content_desc@.len() == 0,
        r.upload_content_list@[0].content_tag_list@.len() == 0,
        r.upload_content_list@[0].comlex_flag == 0,
        r.upload_content_list@[0].comlex_cid@.len() == 0,
        r.upload_content_list@[0].res_cid@.len() == 0,
        r.upload_content_list@[0].digest@.len() == 0,
{
    let info = UploadContentInfo {
        content_name,
        content_size: size,
        content_desc: String::new(),
        content_tag_list: String::new(),
        comlex_flag: 0,
        comlex_cid: String::new(),
        res_cid: String::new(),
        digest: String::new(),
    };
    let mut list = Vec::new();
    list.push(info);
    PcUploadFileRequest { total_size: size, upload_content_list: list }
}

impl NewContent {
    /// The upload's answer: the new file's id and name.
    pub fn into_response(self) -> (r: CreateResponse)
        ensures
            r.file_id == self.content_id && r.file_name == self.content_name && r.encrypt_mode@.len() == 0
                && r.file_type@.len() == 0 && r.domain_id@.len() == 0 && r.drive_id@.len() == 0
                && r.location@.len() == 0 && r.parent_file_id@.len() == 0 && !r.rapid_upload && r.upload_id@.len() == 0,
    {
        CreateResponse::with_file(self.content_id, self.content_name, String::new(), String::new())
    }
}

impl DiskInfo {
    /// The quota of the cloud: the used space is the size less what is free.
    pub fn to_quota(&self) -> (q: Quota)
        requires
            self.free_disk_size <= self.disk_size,
        ensures
            q == (Quota { total: self.disk_size, used: (self.disk_size - self.free_disk_size) as u64, remaining: self.free_disk_size }),
    {
        Quota { total: self.disk_size, used: self.disk_size - self.free_disk_size, remaining: self.free_disk_size }
    }
}

/// Records when a new token expires: ten seconds before the cloud says.
pub fn record_expiry(meta: &mut CloudMeta, token: &AccessToken)
    requires
        token.expires_in >= 10,
    ensures
        *final(meta) == (CloudMeta { expires_in: Some((token.expires_in - 10) as i32), ..*old(meta) }),
{
    meta.expires_in = Some((token.expires_in - 10) as i32);
}

/// The address the user is sent to for authorizing account `id`.
pub fn authorize_url(server: &str, id: i32, client_id: &str) -> (u: String)
    ensures
        u@ == "https://cloud.calm0406.tk/callback.html?target="@ + url_encode_bytes(
            encode_utf8("http://"@ + server@ + "/api/cloud/callback"@),
        ) + "&redirect_uri="@ + url_encode_bytes(
            encode_utf8(
                API_DOMAIN_PREFIX@ + "/middle/index.html#/middlePage?pageType=3&app_id="@ + APP_ID@ + "&appKey="@
                    + client_id@ + "&deviceId="@ + int_decimal(id as int) + "&uuid="@ + "&appTitle="@ + "cloud"@,
            ),
        ),
{
    let mut callback = "http://".to_owned();
    callback.append(server);
    callback.append("/api/cloud/callback");
    let encoded = url_encode(callback.as_str());
    let mut target = API_DOMAIN_PREFIX.to_owned();
    target.append("/middle/index.html#/middlePage?pageType=3&app_id=");
    target.append(APP_ID);
    target.append("&appKey=");
    target.append(client_id);
    target.append("&deviceId=");
    append_i64(&mut target, id as i64);
    target.append("&uuid=");
    target.append("&appTitle=");
    target.append("cloud");
    let mut call = "https://cloud.calm0406.tk/callback.html?target=".to_owned();
    call.append(encoded.as_str());
    call.append("&redirect_uri=");
    let e2 = url_encode(target.as_str());
    call.append(e2.as_str());
    call
}

/// The address of an API path.
pub fn api_url(path: &str) -> (u: String)
    ensures
        u@ == API_DOMAIN_PREFIX@ + path@,
{
    let mut u = API_DOMAIN_PREFIX.to_owned();
    u.append(path);
    u
}

/// The headers of an XML request: its content type, the app, the app key, the account's
/// access token, the device, and the channel.
pub fn xml_headers(secret_key: &str, access_token: &str) -> (h: Vec<(String, String)>)
    ensures
        pairs_view(h@) == seq![
            ("Content-Type"@, "text/xml;UTF-8"@),
            ("appid"@, APP_ID@),
            ("secretkey"@, secret_key@),
            ("accesstoken"@, access_token@),
            ("deviceid"@, "text/xml;UTF-8"@),
            ("channelid"@, CHANNEL_ID@),
        ],
{
    let mut h: Vec<(String, String)> = Vec::new();
    h.push(("Content-Type".to_owned(), "text/xml;UTF-8".to_owned()));
    h.push(("appid".to_owned(), APP_ID.to_owned()));
    h.push(("secretkey".to_owned(), secret_key.to_owned()));
    h.push(("accesstoken".to_owned(), access_token.to_owned()));
    h.push(("deviceid".to_owned(), "text/xml;UTF-8".to_owned()));
    h.push(("channelid".to_owned(), CHANNEL_ID.to_owned()));
    assert(pairs_view(h@) =~= seq![
        ("Content-Type"@, "text/xml;UTF-8"@),
        ("appid"@, APP_ID@),
        ("secretkey"@, secret_key@),
        ("accesstoken"@, access_token@),
        ("deviceid"@, "text/xml;UTF-8"@),
        ("channelid"@, CHANNEL_ID@),
    ]);
    h
}

/// The headers the bytes of an upload are sent with, to the upload task the announcement
/// opened.
pub fn upload_headers(upload_task_id: &str) -> (h: Vec<(String, String)>)
    ensures
        pairs_view(h@) == seq![
            ("Content-Type"@, "image/jpeg; name=11.jpg"@),
            ("contentSize"@, "image/jpeg; name=11.jpg"@),
            ("UploadtaskID"@, upload_task_id@),
        ],
{
    let mut h: Vec<(String, String)> = Vec::new();
    h.push(("Content-Type".to_owned(), "image/jpeg; name=11.jpg".to_owned()));
    h.push(("contentSize".to_owned(), "image/jpeg; name=11.jpg".to_owned()));
    h.push(("UploadtaskID".to_owned(), upload_task_id.to_owned()));
    assert(pairs_view(h@) =~= seq![
        ("Content-Type"@, "image/jpeg; name=11.jpg"@),
        ("contentSize"@, "image/jpeg; name=11.jpg"@),
        ("UploadtaskID"@, upload_task_id@),
    ]);
    h
}

/// The body that renews a token: the app, its secret, and the token held.
pub fn refresh_body(app_secret: &str, access_token: &str) -> (b: Vec<(String, String)>)
    ensures
        pairs_view(b@) == seq![("appId"@, APP_ID@), ("appSecret"@, app_secret@), ("refreshToken"@, access_token@)],
{
    let mut b: Vec<(String, String)> = Vec::new();
    b.push(("appId".to_owned(), APP_ID.to_owned()));
    b.push(("appSecret".to_owned(), app_secret.to_owned()));
    b.push(("refreshToken".to_owned(), access_token.to_owned()));
    assert(pairs_view(b@) =~= seq![("appId"@, APP_ID@), ("appSecret"@, app_secret@), ("refreshToken"@, access_token@)]);
    b
}

} // verus!
