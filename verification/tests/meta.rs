use cloud::meta::{CloudType, FileMetaType, MetaStatus};

#[test]
fn stored_codes_read_back() {
    assert_eq!(FileMetaType::from_stored(1), Some(FileMetaType::DIR));
    assert_eq!(CloudType::from_stored(4), Some(CloudType::OneDrive));
    assert_eq!(MetaStatus::from_stored(2), Some(MetaStatus::Enable));
}

#[test]
fn stored_codes_keep_the_low_bits() {
    // 258 is 0x102: its low eight bits are 2, its low 32 bits are 258
    assert_eq!(MetaStatus::from_stored(258), Some(MetaStatus::Enable));
    assert_eq!(CloudType::from_stored(256 + 3), Some(CloudType::Local));
    assert_eq!(FileMetaType::from_stored(258), None);
    assert_eq!(FileMetaType::from_stored((1i64 << 32) + 2), Some(FileMetaType::SYMLINK));
}

#[test]
fn unknown_codes_give_none() {
    assert_eq!(MetaStatus::from_stored(-1), None);
    assert_eq!(CloudType::from_stored(0), None);
    assert_eq!(FileMetaType::from_stored(3), None);
}

#[test]
fn codes_round_trip() {
    for t in [FileMetaType::FILE, FileMetaType::DIR, FileMetaType::SYMLINK] {
        assert_eq!(FileMetaType::from_code(t.get_code()), Some(t));
    }
    for t in [CloudType::AliYun, CloudType::Baidu, CloudType::Local, CloudType::OneDrive, CloudType::Sftp] {
        assert_eq!(CloudType::from_code(t.code()), Some(t));
    }
    for t in [MetaStatus::WaitInit, MetaStatus::WaitDataRoot, MetaStatus::Enable, MetaStatus::Disabled] {
        assert_eq!(MetaStatus::from_code(t.code()), Some(t));
    }
}
