use cloud::meta::{CloudType, MetaStatus};
use cloud::tables::CloudMeta;
use cloud::web::{add_item, callback_server, cloud_types, header_value, rename_account, set_enabled, CloudMetaVo, TypeItem};
use cloud::xml::{from_xml_default, try_from_xml_default};

#[test]
fn storage_kinds_listed() {
    let kinds = cloud_types();
    let pairs: Vec<(&str, &str)> = kinds.iter().map(|k| (k.id.as_str(), k.name.as_str())).collect();
    assert_eq!(pairs, vec![("1", "阿里云盘"), ("2", "百度云盘"), ("3", "本地磁盘"), ("4", "OneDriver"), ("5", "SFTP")]);
    let mut list: Vec<TypeItem> = Vec::new();
    add_item(&mut list, "9", "x");
    assert_eq!((list[0].id.as_str(), list[0].name.as_str()), ("9", "x"));
}

#[test]
fn header_defaults() {
    assert_eq!(header_value(Some("h:1"), "d"), "h:1");
    assert_eq!(header_value(None, "d"), "d");
    assert_eq!(callback_server(None), "pan.calm0406.com:8080");
}

#[test]
fn accounts_from_requests() {
    let vo = CloudMetaVo { name: "n".to_string(), cloud_type: CloudType::OneDrive, auth: None, data_root: Some("/r".to_string()) };
    let m = vo.into_cloud_meta();
    assert_eq!((m.id, m.name.as_str(), m.cloud_type, m.status, m.data_root.as_deref()), (None, "n", 4, 0, Some("/r")));
    let mut m2 = CloudMeta::default();
    rename_account(&mut m2, &"z".to_string());
    assert_eq!(m2.name, "z");
    set_enabled(&mut m2, true);
    assert_eq!(m2.status, MetaStatus::Enable.code());
    set_enabled(&mut m2, false);
    assert_eq!(m2.status, MetaStatus::Disabled.code());
}

#[test]
fn xml_result_as_json() {
    let xml = "<result><code>0</code></result>".to_string();
    assert_eq!(try_from_xml_default(xml.clone()), Some("{\"code\":0}".to_string()));
    assert_eq!(from_xml_default(xml), "{\"code\":0}");
    assert_eq!(try_from_xml_default("<other/>".to_string()), None);
    assert_eq!(try_from_xml_default("not xml".to_string()), None);
}

#[test]
fn http_port_reads_the_setting_or_falls_back() {
    assert_eq!(cloud::web::http_port(None), 8088);
    assert_eq!(cloud::web::http_port(Some("9000")), 9000);
    assert_eq!(cloud::web::http_port(Some("+80")), 80);
    assert_eq!(cloud::web::http_port(Some("65536")), 8088);
    assert_eq!(cloud::web::http_port(Some("-1")), 8088);
    assert_eq!(cloud::web::http_port(Some(" 80")), 8088);
    assert_eq!(cloud::web::http_port(Some("")), 8088);
}

#[test]
fn mounting_needs_a_mount_point() {
    let cfg = |v: &str| cloud::tables::Config { id: None, property: String::new(), value: v.to_string() };
    match cloud::web::mount_plan(None, Some(cfg("/tmp/x"))) {
        Err(cloud::error::ErrorInfo::OTHER(1, m)) => assert_eq!(m, "没有配置挂在路径"),
        _ => panic!("a mount point is needed"),
    }
    let p = cloud::web::mount_plan(Some(cfg("/mnt/c")), None).expect("mount");
    assert_eq!((p.mount_point.as_str(), p.cache_file.as_str()), ("/mnt/c", "/var/lib/storage/temp"));
    let q = cloud::web::mount_plan(Some(cfg("/mnt/c")), Some(cfg("/cache"))).expect("mount");
    assert_eq!(q.cache_file, "/cache");
}
