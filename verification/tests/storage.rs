use cloud::storage::baidu::{PartUpload, UploadStep};
use cloud::storage::facade::{RetryStep, TokenRetry};
use cloud::error::ErrorInfo;
use cloud::storage::ali::{self, AuthToken, CompleteRequest, DriveCapacity, FolderParent};
use cloud::storage::baidu::{self, BaiduAuthMiddleware, FormField};
use cloud::storage::china_mobile::{self, DiskInfo, NewContent, ToXml};
use cloud::storage::local::LocalStorage;
use cloud::storage::onedrive::{self, OneDriveAuthMiddleware, OneDriveQuota, OneDriveUser};
use cloud::storage::{
    body_error, bytes_error, classify_status, forbidden_error, is_redirection, middleware_error, status_error,
    transport_error, Quota, StatusClass,
};
use cloud::tables::CloudMeta;

/// Percent-encoding as URLs carry it: ASCII letters, digits and `-._~` as they are, every
/// other byte as `%XX`.
fn url_encode(s: &str) -> String {
    s.bytes()
        .map(|b| if b.is_ascii_alphanumeric() || b"-._~".contains(&b) { (b as char).to_string() } else { format!("%{:02X}", b) })
        .collect()
}

#[test]
fn percent_encoding() {
    let u = china_mobile::authorize_url("a b/ü", 1, "K");
    assert!(u.starts_with("https://cloud.calm0406.tk/callback.html?target=http%3A%2F%2Fa%20b%2F%C3%BC%2Fapi%2Fcloud%2Fcallback&redirect_uri="));
    let v = china_mobile::authorize_url("Az09-._~", 1, "K");
    assert!(v.starts_with("https://cloud.calm0406.tk/callback.html?target=http%3A%2F%2FAz09-._~%2Fapi%2Fcloud%2Fcallback&"));
}

#[test]
fn json_arrays() {
    assert_eq!(baidu::block_list(&vec!["a".to_string(), "b".to_string()]), "[\"a\",\"b\"]");
    assert_eq!(baidu::block_list(&vec![]), "[]");
    assert_eq!(baidu::block_list(&vec!["q\"".to_string()]), "[\"q\\\"\"]");
    assert_eq!(baidu::filemetas_path(-3), "rest/2.0/xpan/multimedia?method=filemetas&dlink=1&fsids=[-3]");
}

#[test]
fn status_classes() {
    assert_eq!(classify_status(200), StatusClass::Body);
    assert_eq!(classify_status(201), StatusClass::Body);
    assert_eq!(classify_status(400), StatusClass::Body);
    assert_eq!(classify_status(204), StatusClass::Empty);
    assert_eq!(classify_status(403), StatusClass::Forbidden);
    assert_eq!(classify_status(500), StatusClass::Fail);
    assert!(is_redirection(302) && !is_redirection(200) && !is_redirection(400));
}

#[test]
fn answer_errors() {
    assert_eq!(forbidden_error("403 Forbidden", "no"), ErrorInfo::OTHER(401, "状态码是403 Forbidden,body:no".to_string()));
    assert_eq!(status_error(404, "404 Not Found", "http://x"), ErrorInfo::OTHER(404, "\n状态码是404 Not Found\nhttp://x".to_string()));
    assert_eq!(body_error("b".to_string()), ErrorInfo::OTHER(30, "b".to_string()));
    assert_eq!(middleware_error("m"), ErrorInfo::OTHER(10, "中间件错误m".to_string()));
    assert_eq!(transport_error("t".to_string()), ErrorInfo::OTHER(20, "t".to_string()));
    assert_eq!(bytes_error(None), ErrorInfo::OTHER(1, "未知错误".to_string()));
    assert_eq!(bytes_error(Some("500".to_string())), ErrorInfo::OTHER(1, "500".to_string()));
}

#[test]
fn ali_parts() {
    assert_eq!(ali::chunk_count(0), 0);
    assert_eq!(ali::chunk_count(1), 1);
    assert_eq!(ali::chunk_count(ali::CHUNK_SIZE as u64), 1);
    assert_eq!(ali::chunk_count(ali::CHUNK_SIZE as u64 + 1), 2);
    let parts = ali::part_infos(3);
    assert_eq!(parts.iter().map(|p| p.part_number).collect::<Vec<_>>(), vec![1, 2, 3]);
    assert_eq!(ali::part_range(0, 10), (0, 10));
    assert_eq!(ali::part_range(0, 2 * ali::CHUNK_SIZE), (0, ali::CHUNK_SIZE - 1));
    assert_eq!(ali::part_range(1, ali::CHUNK_SIZE + 5), (ali::CHUNK_SIZE, ali::CHUNK_SIZE + 5));
}

#[test]
fn ali_requests() {
    let c = ali::create_file_request("d", "root".to_string(), "part", 9, ali::part_infos(1));
    assert_eq!((c.file_type.as_str(), c.check_name_mode.as_deref(), c.size), ("file", Some("refuse"), 9));
    let f = ali::create_folder_request("d", "root".to_string(), "x");
    assert_eq!((f.file_type.as_str(), f.size, f.part_info_list.len()), ("folder", 0, 0));
    let token = AuthToken { token_type: "Bearer".to_string(), access_token: "T".to_string(), refresh_token: None, expires_in: 1 };
    assert_eq!(ali::authorization_header(&token), "Bearer T");
    let r = CompleteRequest { drive_id: "d".to_string(), file_id: "F".to_string(), upload_id: "u".to_string() }.into_response();
    assert_eq!((r.file_id.as_str(), r.file_name.as_str()), ("F", ""));
}

#[test]
fn ali_folder_parents() {
    match ali::folder_parent("/app/cluster-shard") {
        (FolderParent::Path(p), n) => assert_eq!((p.as_str(), n.as_str()), ("/app", "cluster-shard")),
        _ => panic!("parent path"),
    }
    match ali::folder_parent("/app") {
        (FolderParent::Root, n) => assert_eq!(n, "app"),
        _ => panic!("root"),
    }
    match ali::folder_parent("app") {
        (FolderParent::Root, n) => assert_eq!(n, "app"),
        _ => panic!("root"),
    }
    assert_eq!(ali::missing_parent(&ErrorInfo::FileNotFound("/app".to_string())), Some("/app".to_string()));
    assert_eq!(ali::missing_parent(&ErrorInfo::Retry), None);
    assert_eq!(
        ali::path_lookup_error(&Some("NotFound.File".to_string()), "/p"),
        Some(ErrorInfo::FileNotFound("/p".to_string()))
    );
    assert_eq!(ali::path_lookup_error(&Some("Other".to_string()), "/p"), None);
}

#[test]
fn ali_addresses_and_quota() {
    assert_eq!(
        ali::authorize_url("host:80", 7, "CID"),
        "https://cloud.calm0406.tk/callback.html?target=host%3A80%2Fapi%2Fcloud%2Fcallback&redirect_uri=https%3A%2F%2Fopenapi.alipan.com%2Foauth%2Fauthorize%3Fresponse_type%3Dcode%26client_id%3DCID%26scope%3Duser%3Abase%2Cfile%3Aall%3Aread%2Cfile%3Aall%3Awrite%26state%3D7"
    );
    assert_eq!(
        ali::token_path("s", "C", "I", "S"),
        "oauth/access_token?grant_type=authorization_code&code=C&client_id=I&client_secret=S&redirect_uri=s%2Fapi%2Fcloud%2Fcallback"
    );
    assert_eq!(ali::api_url("a/b"), "https://openapi.alipan.com/a/b");
    let q = DriveCapacity { total_size: 10, used_size: 4 }.to_quota();
    assert_eq!(q, Quota { total: 10, used: 4, remaining: 6 });
    let mut meta = CloudMeta::default();
    ali::after_callback(&mut meta, "{}".to_string());
    assert_eq!((meta.extra.as_deref(), meta.data_root.as_deref(), meta.status), (Some("{}"), Some("/app/cluster-shard"), 2));
}

#[test]
fn baidu_blocks_cover_content() {
    let content: Vec<u8> = (0..(baidu::BLOCK_SIZE + 3)).map(|i| (i % 251) as u8).collect();
    let r = baidu::split_blocks(&content);
    assert_eq!(r.blocks.len(), 2);
    assert_eq!(r.blocks[0].len(), baidu::BLOCK_SIZE);
    assert_eq!(r.blocks[1].len(), 3);
    assert_eq!([r.blocks[0].clone(), r.blocks[1].clone()].concat(), content);
    let small = baidu::split_blocks(b"abc");
    assert_eq!(small.md5s, vec!["900150983cd24fb0d6963f7d28e17f72".to_string()]);
    assert_eq!(baidu::block_list(&small.md5s), "[\"900150983cd24fb0d6963f7d28e17f72\"]");
    assert_eq!(baidu::split_blocks(b"").blocks.len(), 0);
}

#[test]
fn baidu_forms_and_addresses() {
    let path = baidu::upload_path("/root", "p1");
    assert_eq!(path, "/root/p1");
    let form = baidu::precreate_form(&path, 12, "[]");
    let pairs: Vec<(String, String)> = form.iter().map(|f: &FormField| (f.name.clone(), f.value.clone())).collect();
    assert_eq!(pairs[1], ("size".to_string(), "12".to_string()));
    assert_eq!(pairs[5], ("block_list".to_string(), "[]".to_string()));
    let create = baidu::create_form(&form, "U");
    assert_eq!(create.len(), 7);
    assert_eq!((create[6].name.as_str(), create[6].value.as_str()), ("uploadid", "U"));
    assert_eq!(
        baidu::part_upload_url("/root/p1", "U", 2),
        "https://d.pcs.baidu.com/rest/2.0/pcs/superfile2?method=upload&type=tmpfile&path=/root/p1&uploadid=U&partseq=2"
    );
    assert_eq!(baidu::filemetas_path(123), "rest/2.0/xpan/multimedia?method=filemetas&dlink=1&fsids=[123]");
    assert_eq!(
        baidu::refresh_url("R"),
        "https://openapi.baidu.com/oauth/2.0/token?grant_type=refresh_token&refresh_token=R&client_id=&client_secret="
    );
    assert_eq!(
        baidu::token_url("C", "I", "S"),
        "https://openapi.baidu.com/oauth/2.0/token?grant_type=authorization_code&code=C&client_id=I&client_secret=S&redirect_uri=https%3A%2F%2Fcloud.calm0406.tk%2Fcallback.html"
    );
    assert_eq!(
        baidu::authorize_url("h", 3, "I"),
        "https://cloud.calm0406.tk/callback.html?target=http%3A%2F%2Fh%2Fapi%2Fcloud%2Fcallback&redirect_uri=https%3A%2F%2Fopenapi.baidu.com%2Foauth%2F2.0%2Fauthorize%3Fresponse_type%3Dcode%26client_id%3DI%26scope%3Dbasic%2Cnetdisk%26state%3D3"
    );
}

#[test]
fn baidu_signing_and_outcomes() {
    let _m = BaiduAuthMiddleware::new();
    assert_eq!(BaiduAuthMiddleware::stored_token(None), Err(ErrorInfo::NotFoundConfig("db token没有配置".to_string())));
    let meta = CloudMeta::default();
    assert_eq!(BaiduAuthMiddleware::stored_token(Some(&meta)), Err(ErrorInfo::NotFoundConfig("token没有配置".to_string())));
    assert_eq!(BaiduAuthMiddleware::signed_query(Some("a=1"), "http://x?a=1", "T"), "a=1&access_token=T");
    assert_eq!(BaiduAuthMiddleware::signed_query(None, "http://x", "T"), "?access_token=T");
    assert_eq!(baidu::delete_outcome(Err(ErrorInfo::Http(404))), Some(Ok(())));
    assert_eq!(baidu::delete_outcome(Err(ErrorInfo::Http(500))), Some(Err(ErrorInfo::Http(500))));
    assert_eq!(baidu::delete_outcome(Ok(())), None);
    assert_eq!(baidu::follow_redirect(ErrorInfo::Http302("u".to_string())), Ok("u".to_string()));
    assert_eq!(baidu::follow_redirect(ErrorInfo::Retry), Err(ErrorInfo::Retry));
    assert_eq!(baidu::file_not_found("9"), ErrorInfo::FileNotFound("9不存在".to_string()));
    let mut m = CloudMeta::default();
    baidu::record_expiry(&mut m, &baidu::Token { expires_in: 100, refresh_token: String::new(), access_token: String::new() });
    assert_eq!(m.expires_in, Some(90));
}

#[test]
fn china_mobile_xml() {
    let req = china_mobile::upload_request("h".to_string(), 5);
    let mut buf = String::new();
    req.to_xml_with_header(&mut buf);
    assert_eq!(
        buf,
        "<?xml version=\"1.0\" encoding=\"UTF-8\"?><pcUploadFileRequest><totalSize>5</totalSize><uploadContentList length=\"1\"><uploadContentInfo><contentName>h</contentName><contentSize>5</contentSize><contentDesc></contentDesc><contentTagList></contentTagList><comlexFlag>0</comlexFlag><comlexCid></comlexCid><resCid></resCid><digest></digest></uploadContentInfo></uploadContentList></pcUploadFileRequest>"
    );
}

#[test]
fn china_mobile_answers() {
    assert_eq!(DiskInfo { free_disk_size: 3, disk_size: 10 }.to_quota(), Quota { total: 10, used: 7, remaining: 3 });
    let r = NewContent { content_id: "c1".to_string(), content_name: "n1".to_string() }.into_response();
    assert_eq!((r.file_id.as_str(), r.file_name.as_str()), ("c1", "n1"));
    assert_eq!(china_mobile::api_url("/x"), "https://miniapp.yun.139.com/x");
    let mut m = CloudMeta::default();
    china_mobile::record_expiry(&mut m, &china_mobile::AccessToken { access_token: String::new(), expires_in: 60 });
    assert_eq!(m.expires_in, Some(50));
    assert_eq!(
        china_mobile::authorize_url("h", 3, "K"),
        format!(
            "https://cloud.calm0406.tk/callback.html?target={}&redirect_uri={}",
            url_encode("http://h/api/cloud/callback"),
            url_encode("https://miniapp.yun.139.com/middle/index.html#/middlePage?pageType=3&app_id=750894&appKey=K&deviceId=3&uuid=&appTitle=cloud")
        )
    );
}

#[test]
fn onedrive_pieces() {
    let _m = OneDriveAuthMiddleware::new();
    let q = OneDriveQuota { deleted: 0, file_count: 1, remaining: 5, state: "normal".to_string(), total: 9, used: 4 };
    assert_eq!(q.to_quota(), Quota { total: 9, used: 4, remaining: 5 });
    let u = OneDriveUser { id: "i".to_string(), display_name: "d".to_string() }.into_user();
    assert_eq!((u.user_id.as_deref(), u.nick_name.as_deref(), u.user_name.as_deref()), (Some("i"), Some("d"), Some("d")));
    assert_eq!(onedrive::token_url(), "https://login.microsoftonline.com/consumers/oauth2/v2.0/token");
    let f = onedrive::token_form("C", "I", "S");
    assert_eq!(f[1], ("code".to_string(), "C".to_string()));
    assert_eq!(
        onedrive::authorize_url("h", 2, "I"),
        format!(
            "https://cloud.calm0406.tk/callback.html?target={}&redirect_uri={}",
            url_encode("http://h/api/cloud/callback"),
            url_encode("https://login.microsoftonline.com/consumers/oauth2/v2.0/authorize?response_type=code&client_id=I&scope=offline_access%20files.readwrite.all&state=2")
        )
    );
}

#[test]
fn local_storage_pieces() {
    let s = LocalStorage::new();
    assert_eq!(s.block_path("/d", "p"), "/d/p");
    assert_eq!(s.drive_quota(), Quota { total: 1073741824, used: 0, remaining: 1073741824 });
    let r = s.upload_response("p");
    assert_eq!((r.file_id.as_str(), r.file_name.as_str()), ("p", "p"));
}

#[test]
fn only_an_existing_block_is_replaced() {
    assert!(ali::must_replace(Some(true)));
    assert!(!ali::must_replace(Some(false)));
    assert!(!ali::must_replace(None));
}

#[test]
fn info_path_needs_a_numeric_id() {
    assert_eq!(
        baidu::info_path("123").as_deref(),
        Some("rest/2.0/xpan/multimedia?method=filemetas&dlink=1&fsids=[123]")
    );
    assert_eq!(
        baidu::info_path("-5").as_deref(),
        Some("rest/2.0/xpan/multimedia?method=filemetas&dlink=1&fsids=[-5]")
    );
    assert_eq!(baidu::info_path("12a"), None);
    assert_eq!(baidu::info_path(""), None);
    assert_eq!(baidu::info_path("9223372036854775808"), None);
}

#[test]
fn china_mobile_requests_carry_their_headers() {
    let h = china_mobile::xml_headers("KEY", "TOKEN");
    let h: Vec<(&str, &str)> = h.iter().map(|(a, b)| (a.as_str(), b.as_str())).collect();
    assert_eq!(
        h,
        vec![
            ("Content-Type", "text/xml;UTF-8"),
            ("appid", "750894"),
            ("secretkey", "KEY"),
            ("accesstoken", "TOKEN"),
            ("deviceid", "text/xml;UTF-8"),
            ("channelid", "10009"),
        ]
    );
    let u = china_mobile::upload_headers("T1");
    assert_eq!(u[2], ("UploadtaskID".to_string(), "T1".to_string()));
    assert_eq!(u.len(), 3);
    let b = china_mobile::refresh_body("S", "R");
    assert_eq!(
        b,
        vec![
            ("appId".to_string(), "750894".to_string()),
            ("appSecret".to_string(), "S".to_string()),
            ("refreshToken".to_string(), "R".to_string()),
        ]
    );
}

#[test]
fn ali_request_bodies() {
    let pairs = |v: Vec<(String, String)>| v.into_iter().map(|(a, b)| format!("{}={}", a, b)).collect::<Vec<_>>().join("&");
    assert_eq!(
        pairs(ali::refresh_body("R", "ID", "SEC")),
        "refresh_token=R&client_id=ID&client_secret=SEC&grant_type=refresh_token"
    );
    assert_eq!(
        pairs(ali::authorization_body("C", "ID", "SEC")),
        "client_id=ID&client_secret=SEC&grant_type=authorization_code&code=C"
    );
    assert_eq!(pairs(ali::file_body("D", "F")), "drive_id=D&file_id=F");
    assert_eq!(pairs(ali::path_body("D", "/app/x")), "drive_id=D&file_path=/app/x");
}

#[test]
fn json_strings_are_escaped() {
    assert_eq!(
        baidu::block_list(&vec!["a\tb".to_string(), "\u{1}\\\n".to_string(), "é/".to_string()]),
        "[\"a\\tb\",\"\\u0001\\\\\\n\",\"é/\"]"
    );
}

#[test]
fn baidu_answer_names_the_new_file_by_its_id() {
    let r = baidu::create_response(Some(778899)).expect("a file id");
    assert_eq!(r.file_id, "778899");
    assert_eq!((r.file_name.as_str(), r.upload_id.as_str(), r.rapid_upload), ("", "", false));
    assert!(baidu::create_response(None).is_none());
}

#[test]
fn baidu_parts_go_in_order_and_stop_at_a_failure() {
    let (mut u, step) = PartUpload::start(3);
    assert!(matches!(step, UploadStep::Part(0)));
    assert!(matches!(u.on_part(Ok(())), UploadStep::Part(1)));
    assert!(matches!(u.on_part(Ok(())), UploadStep::Part(2)));
    assert!(matches!(u.on_part(Ok(())), UploadStep::Create));
    let (mut v, _) = PartUpload::start(2);
    match v.on_part(Err(ErrorInfo::Http(500))) {
        UploadStep::Fail(e) => assert_eq!(e, ErrorInfo::Http(500)),
        _ => panic!("a failed part ends the upload"),
    }
    assert_eq!(v.sent, 0);
    let (_, none) = PartUpload::start(0);
    assert!(matches!(none, UploadStep::Create));
}

#[test]
fn ali_top_folder_is_root() {
    assert_eq!(ali::known_parent_id(&FolderParent::Root).as_deref(), Some("root"));
    assert_eq!(ali::known_parent_id(&FolderParent::Path("/a".to_string())), None);
}

#[test]
fn a_401_is_retried_once_after_a_refresh() {
    let mut t = TokenRetry::new();
    assert!(matches!(t.on_attempt::<u8>(Err(ErrorInfo::Http401)), RetryStep::Refresh));
    assert!(matches!(t.on_refresh::<u8, String>(Ok("token".to_string())), RetryStep::Retry));
    match t.on_attempt::<u8>(Err(ErrorInfo::Http401)) {
        RetryStep::Done(Err(ErrorInfo::Http401)) => {}
        _ => panic!("the second 401 is the answer"),
    }
    let mut ok = TokenRetry::new();
    assert!(matches!(ok.on_attempt(Ok(7u8)), RetryStep::Done(Ok(7))));
    let mut other = TokenRetry::new();
    assert!(matches!(other.on_attempt::<u8>(Err(ErrorInfo::Http(500))), RetryStep::Done(Err(ErrorInfo::Http(500)))));
    let mut failed = TokenRetry::new();
    failed.on_attempt::<u8>(Err(ErrorInfo::Http401));
    assert!(matches!(failed.on_refresh::<u8, ()>(Err(ErrorInfo::Http(400))), RetryStep::Done(Err(ErrorInfo::Http(400)))));
}

#[test]
fn ali_root_is_kept_or_recorded() {
    let mut extra = ali::AliExtra { drive_id: Some("D".to_string()), root_file_id: None };
    assert_eq!(ali::known_root(&extra), None);
    ali::record_root(&mut extra, "R1".to_string());
    assert_eq!(ali::known_root(&extra).as_deref(), Some("R1"));
    assert_eq!(extra.drive_id.as_deref(), Some("D"));
}

#[test]
fn baidu_delete_request() {
    let (path, form) = baidu::delete_request("/apps/a b".to_string(), "2");
    assert_eq!(path, "rest/2.0/xpan/file?method=filemanager&opera=delete");
    assert_eq!((form[0].name.as_str(), form[0].value.as_str()), ("filelist", "[\"/apps/a b\"]"));
    assert_eq!((form[1].name.as_str(), form[1].value.as_str()), ("async", "2"));
    assert_eq!(baidu::filemanager_path("move"), "rest/2.0/xpan/file?method=filemanager&opera=move");
}

#[test]
fn answers_leave_other_fields_empty() {
    let r = china_mobile::NewContent { content_id: "c".to_string(), content_name: "n".to_string() }.into_response();
    assert_eq!((r.domain_id.as_str(), r.drive_id.as_str(), r.location.as_str(), r.parent_file_id.as_str(), r.upload_id.as_str(), r.rapid_upload), ("", "", "", "", "", false));
}
