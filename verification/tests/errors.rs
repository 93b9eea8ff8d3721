use cloud::error::ErrorInfo;

#[test]
fn error_constructors() {
    assert_eq!(ErrorInfo::new(3, "x"), ErrorInfo::OTHER(3, "x".to_string()));
    assert_eq!(ErrorInfo::new_string(4, "y".to_string()), ErrorInfo::OTHER(4, "y".to_string()));
}

#[test]
fn error_display_texts() {
    assert_eq!(ErrorInfo::Retry.to_display_string(), "3000:retry");
    assert_eq!(ErrorInfo::Http(404).to_display_string(), "5404:");
    assert_eq!(ErrorInfo::Http401.to_display_string(), "5401:");
    assert_eq!(ErrorInfo::OTHER(1, "x".to_string()).to_display_string(), "6001:x");
    assert_eq!(ErrorInfo::FileNotFound("f".to_string()).to_display_string(), "4000:f");
    assert_eq!(ErrorInfo::NotFoundConfig("c".to_string()).to_display_string(), "4000:c");
    assert_eq!(ErrorInfo::FileAlreadyExist("f".to_string()).to_display_string(), "4001:f");
    assert_eq!(ErrorInfo::Http302("u".to_string()).to_display_string(), "5302:u");
    assert_eq!(ErrorInfo::NoneCloudFileId(5).to_display_string(), "7000:未找到云文件ID:5");
    assert_eq!(ErrorInfo::NoneCloudMeta(7).to_display_string(), "7000:云配置：7,没有找到");
    assert_eq!(ErrorInfo::OTHER(-7000, String::new()).to_display_string(), "-1000:");
}

#[test]
fn outside_failures_get_their_codes() {
    assert_eq!(ErrorInfo::database("db".to_string()), ErrorInfo::OTHER(1, "db".to_string()));
    assert_eq!(ErrorInfo::http_client("net".to_string()), ErrorInfo::OTHER(20, "net".to_string()));
    assert_eq!(ErrorInfo::bad_token("tok".to_string()), ErrorInfo::OTHER(50, "tok".to_string()));
    assert_eq!(ErrorInfo::json("js".to_string()), ErrorInfo::OTHER(102, "js".to_string()));
}
