//! OneDrive: its quota, owner and authorization.
use vstd::prelude::*;
use vstd::string::*;
use vstd::utf8::encode_utf8;
use crate::storage::{Quota, User};
use crate::text::{int_decimal, append_i64};
use crate::encoding::{url_encode, url_encode_bytes};

verus! {

pub const API_DOMAIN_PREFIX: &'static str = "https://graph.microsoft.com/v1.0";

pub const AUTH_DOMAIN_PREFIX: &'static str = "https://login.microsoftonline.com";

/// Signs requests with the account's access token.
pub struct OneDriveAuthMiddleware {}

impl OneDriveAuthMiddleware {
    pub fn new() -> (m: OneDriveAuthMiddleware) {
        OneDriveAuthMiddleware {}
    }
}

/// An OAuth token of OneDrive.
#[derive(Debug)]
pub struct AuthorizationToken {
    pub token_type: String,
    pub expires_in: u64,
    pub scope: String,
    pub access_token: String,
    pub refresh_token: String,
}

/// The `authorization` header of a signed request: the token type, a space, the token.
pub fn authorization_header(token: &AuthorizationToken) -> (h: String)
    ensures
        h@ == token.token_type@ + " "@ + token.access_token@,
{
    let mut h = token.token_type.clone();
    h.append(" ");
    h.append(token.access_token.as_str());
    h
}

/// Space of a drive.
#[derive(Debug)]
pub struct OneDriveQuota {
    pub deleted: u64,
    pub file_count: u64,
    pub remaining: u64,
    pub state: String,
    pub total: u64,
    pub used: u64,
}

/// The owner of a drive.
#[derive(Debug)]
pub struct OneDriveUser {
    pub id: String,
    pub display_name: String,
}

impl OneDriveQuota {
    pub fn to_quota(&self) -> (q: Quota)
        ensures
            q == (Quota { total: self.total, used: self.used, remaining: self.remaining }),
    {
        Quota { total: self.total, used: self.used, remaining: self.remaining }
    }
}

impl OneDriveUser {
    /// The user: the owner's id, and its display name as both nick name and user name.
    pub fn into_user(self) -> (u: User)
        ensures
            u.user_id == Some(self.id),
            u.nick_name == Some(self.display_name),
            u.user_name == Some(self.display_name),
            u.domain_id is None && u.avatar is None && u.email is None && u.phone is None && u.role is None
                && u.status is None && u.default_drive_id is None && u.deny_change_password_by_self is None
                && u.need_change_password_next_login is None && u.creator is None && u.created_at is None
                && u.updated_at is None,
    {
        User {
            domain_id: None,
            user_id: Some(self.id),
            avatar: None,
            email: None,
            nick_name: Some(self.display_name.clone()),
            phone: None,
            role: None,
            status: None,
            user_name: Some(self.display_name),
            default_drive_id: None,
            deny_change_password_by_self: None,
            need_change_password_next_login: None,
            creator: None,
            created_at: None,
            updated_at: None,
        }
    }
}

/// The address the user is sent to for authorizing account `id`. The scope is encoded in
/// the authorization address, and that address is encoded again as a whole.
pub fn authorize_url(server: &str, id: i32, client_id: &str) -> (u: String)
    ensures
        u@ == "https://cloud.calm0406.tk/callback.html?target="@ + url_encode_bytes(
            encode_utf8("http://"@ + server@ + "/api/cloud/callback"@),
        ) + "&redirect_uri="@ + url_encode_bytes(
            encode_utf8(
                AUTH_DOMAIN_PREFIX@ + "/consumers/oauth2/v2.0/authorize?response_type=code&client_id="@ + client_id@
                    + "&scope="@ + url_encode_bytes(encode_utf8("offline_access files.readwrite.all"@))
                    + "&state="@ + int_decimal(id as int),
            ),
        ),
{
    let mut callback = "http://".to_owned();
    callback.append(server);
    callback.append("/api/cloud/callback");
    let target = url_encode(callback.as_str());
    let scope = url_encode("offline_access files.readwrite.all");
    let mut auth = AUTH_DOMAIN_PREFIX.to_owned();
    auth.append("/consumers/oauth2/v2.0/authorize?response_type=code&client_id=");
    auth.append(client_id);
    auth.append("&scope=");
    auth.append(scope.as_str());
    auth.append("&state=");
    append_i64(&mut auth, id as i64);
    let encoded = url_encode(auth.as_str());
    let mut u = "https://cloud.calm0406.tk/callback.html?target=".to_owned();
    u.append(target.as_str());
    u.append("&redirect_uri=");
    u.append(encoded.as_str());
    u
}

/// The address that trades an authorization code for a token.
pub fn token_url() -> (u: String)
    ensures
        u@ == AUTH_DOMAIN_PREFIX@ + "/"@ + "consumers/oauth2/v2.0/token"@,
{
    let mut u = AUTH_DOMAIN_PREFIX.to_owned();
    u.append("/");
    u.append("consumers/oauth2/v2.0/token");
    u
}

/// The fields of the request that trades authorization `code` for a token.
pub fn token_form(code: &str, client_id: &str, client_secret: &str) -> (f: Vec<(String, String)>)
    ensures
        f@.len() == 5,
        f@[0].0@ == "grant_type"@ && f@[0].1@ == "authorization_code"@,
        f@[1].0@ == "code"@ && f@[1].1@ == code@,
        f@[2].0@ == "client_id"@ && f@[2].1@ == client_id@,
        f@[3].0@ == "client_secret"@ && f@[3].1@ == client_secret@,
        f@[4].0@ == "redirect_uri"@ && f@[4].1@ == "https://cloud.calm0406.tk/callback.html"@,
{
    let mut f: Vec<(String, String)> = Vec::new();
    f.push(("grant_type".to_owned(), "authorization_code".to_owned()));
    f.push(("code".to_owned(), code.to_owned()));
    f.push(("client_id".to_owned(), client_id.to_owned()));
    f.push(("client_secret".to_owned(), client_secret.to_owned()));
    f.push(("redirect_uri".to_owned(), "https://cloud.calm0406.tk/callback.html".to_owned()));
    f
}

} // verus!
