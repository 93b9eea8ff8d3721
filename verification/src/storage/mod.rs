//! What the cloud storages have in common: quotas, upload answers, users, and how an HTTP
//! answer is turned into text or an error.
use vstd::prelude::*;
use vstd::string::*;
use crate::error::ErrorInfo;

pub mod ali;
pub mod baidu;
pub mod china_mobile;
pub mod local;
pub mod onedrive;
pub mod facade;

verus! {

/// Space of a cloud account, in bytes.
#[derive(Debug, Clone, Copy, PartialEq, Eq, Structural)]
pub struct Quota {
    pub total: u64,
    pub used: u64,
    pub remaining: u64,
}

/// What a cloud answers to an upload.
#[derive(Debug)]
pub struct CreateResponse {
    pub domain_id: String,
    pub drive_id: String,
    pub encrypt_mode: String,
    pub file_id: String,
    pub file_name: String,
    pub location: String,
    pub parent_file_id: String,
    pub rapid_upload: bool,
    pub file_type: String,
    pub upload_id: String,
}

impl CreateResponse {
    /// An answer that names the stored file; every other field is empty.
    pub fn with_file(file_id: String, file_name: String, encrypt_mode: String, file_type: String) -> (r: CreateResponse)
        ensures
            r.file_id == file_id && r.file_name == file_name && r.encrypt_mode == encrypt_mode
                && r.file_type == file_type && r.domain_id@.len() == 0 && r.drive_id@.len() == 0
                && r.location@.len() == 0 && r.parent_file_id@.len() == 0 && !r.rapid_upload
                && r.upload_id@.len() == 0,
    {
        CreateResponse {
            domain_id: String::new(),
            drive_id: String::new(),
            encrypt_mode,
            file_id,
            file_name,
            location: String::new(),
            parent_file_id: String::new(),
            rapid_upload: false,
            file_type,
            upload_id: String::new(),
        }
    }
}

/// Names and values, such as the headers of a request or the fields of a body, as text.
pub open spec fn pairs_view(h: Seq<(String, String)>) -> Seq<(Seq<char>, Seq<char>)> {
    h.map_values(|e: (String, String)| (e.0@, e.1@))
}

/// A user of a cloud account.
#[derive(Debug)]
pub struct User {
    pub domain_id: Option<String>,
    pub user_id: Option<String>,
    pub avatar: Option<String>,
    pub email: Option<String>,
    pub nick_name: Option<String>,
    pub phone: Option<String>,
    pub role: Option<String>,
    pub status: Option<String>,
    pub user_name: Option<String>,
    pub default_drive_id: Option<String>,
    pub deny_change_password_by_self: Option<bool>,
    pub need_change_password_next_login: Option<bool>,
    pub creator: Option<String>,
    pub created_at: Option<i64>,
    pub updated_at: Option<i64>,
}

/// A source of an access token.
pub trait TokenManager {
    fn get_token(&self) -> String;

    fn refresh_token(&self);
}

/// How the text of an HTTP answer is taken, by its status code.
#[derive(Debug, PartialEq, Eq, Structural, Clone, Copy)]
pub enum StatusClass {
    /// 200, 201 and 400: the body is the text.
    Body,
    /// 204: the text is empty.
    Empty,
    /// 403: the body goes into an error.
    Forbidden,
    /// Any other status is an error.
    Fail,
}

/// The class of status `code`.
pub fn classify_status(code: u16) -> (c: StatusClass)
    ensures
        (code == 200 || code == 201 || code == 400) ==> c == StatusClass::Body,
        code == 204 ==> c == StatusClass::Empty,
        code == 403 ==> c == StatusClass::Forbidden,
        !(code == 200 || code == 201 || code == 400 || code == 204 || code == 403) ==> c == StatusClass::Fail,
{
    if code == 200 || code == 201 || code == 400 {
        StatusClass::Body
    } else if code == 204 {
        StatusClass::Empty
    } else if code == 403 {
        StatusClass::Forbidden
    } else {
        StatusClass::Fail
    }
}

/// The error for a 403 answer: `status` is how the status is displayed.
pub fn forbidden_error(status: &str, body: &str) -> (e: ErrorInfo)
    ensures
        e matches ErrorInfo::OTHER(c, m) && c == 401 && m@ == "状态码是"@ + status@ + ",body:"@ + body@,
{
    let mut m = "状态码是".to_owned();
    m.append(status);
    m.append(",body:");
    m.append(body);
    ErrorInfo::new_string(401, m)
}

/// The error for an answer with an unexpected status.
pub fn status_error(code: u16, status: &str, url: &str) -> (e: ErrorInfo)
    ensures
        e matches ErrorInfo::OTHER(c, m) && c == code as i32 && m@ == "\n状态码是"@ + status@ + "\n"@ + url@,
{
    let mut m = "\n状态码是".to_owned();
    m.append(status);
    m.append("\n");
    m.append(url);
    ErrorInfo::new_string(code as i32, m)
}

/// The error for a body that could not be read as text.
pub fn body_error(message: String) -> (e: ErrorInfo)
    ensures
        e == ErrorInfo::OTHER(30, message),
{
    ErrorInfo::new_string(30, message)
}

/// The error for a request that a middleware stopped without an `ErrorInfo` of its own.
pub fn middleware_error(message: &str) -> (e: ErrorInfo)
    ensures
        e matches ErrorInfo::OTHER(c, m) && c == 10 && m@ == "中间件错误"@ + message@,
{
    let mut m = "中间件错误".to_owned();
    m.append(message);
    ErrorInfo::new_string(10, m)
}

/// The error for a request that failed in transport.
pub fn transport_error(message: String) -> (e: ErrorInfo)
    ensures
        e == ErrorInfo::OTHER(20, message),
{
    ErrorInfo::new_string(20, message)
}

/// A status of the 3xx class: the body is not read, the answer is a redirection.
pub fn is_redirection(code: u16) -> (b: bool)
    ensures
        b == (300 <= code <= 399),
{
    300 <= code && code <= 399
}

/// The error for a body that could not be read as bytes: the status if the error has one.
pub fn bytes_error(status: Option<String>) -> (e: ErrorInfo)
    ensures
        status is None ==> (e matches ErrorInfo::OTHER(c, m) && c == 1 && m@ == "未知错误"@),
        status matches Some(s) ==> e == ErrorInfo::OTHER(1, s),
{
    match status {
        None => ErrorInfo::new(1, "未知错误"),
        Some(s) => ErrorInfo::new_string(1, s),
    }
}

} // verus!
