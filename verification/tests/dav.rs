use cloud::dav::{CloudDavDirEntry, CloudDavFile, CloudFsMetaData, SeekPos, BLOCK_SIZE};
use cloud::meta::FileMetaType;
use cloud::tables::FileMeta;

fn meta(length: usize, file_type: FileMetaType) -> FileMeta {
    let mut m = FileMeta::new_entry(1, "ü.txt", file_type, 77);
    m.id = Some(9);
    m.file_length = length;
    m
}

#[test]
fn metadata_of_entries() {
    let d = CloudFsMetaData::new(meta(12, FileMetaType::DIR));
    assert_eq!(d.len(), 12);
    assert!(d.is_dir());
    assert_eq!(d.modified(), 77);
    let f = CloudFsMetaData::new(meta(0, FileMetaType::FILE));
    assert!(!f.is_dir());
    let e = CloudDavDirEntry::new(meta(3, FileMetaType::FILE));
    assert_eq!(e.name(), "ü.txt".as_bytes().to_vec());
    assert_eq!(e.metadata().len(), 3);
}

#[test]
fn seek_from_each_origin() {
    let mut f = CloudDavFile::new(meta(100, FileMetaType::FILE));
    assert_eq!(f.seek(SeekPos::Start(10)), Some(10));
    assert_eq!(f.seek(SeekPos::Current(5)), Some(15));
    assert_eq!(f.seek(SeekPos::Current(-15)), Some(0));
    assert_eq!(f.seek(SeekPos::Current(-1)), None);
    assert_eq!(f.pos, 0);
    assert_eq!(f.seek(SeekPos::End(-30)), Some(70));
    assert_eq!(f.seek(SeekPos::End(-101)), None);
    assert_eq!(f.pos, 70);
    assert_eq!(f.seek(SeekPos::End(4)), Some(104));
}

#[test]
fn writes_are_buffered_until_past_a_block() {
    let mut f = CloudDavFile::new(meta(0, FileMetaType::FILE));
    let small = vec![1u8; 10];
    assert!(f.write_bytes(&small).is_none());
    assert_eq!(f.pos, 10);
    assert_eq!(f.temp_buf.len(), 10);
    let big = vec![2u8; BLOCK_SIZE - 10];
    // exactly a block buffered: still kept
    assert!(f.write_bytes(&big).is_none());
    assert_eq!(f.temp_buf.len(), BLOCK_SIZE);
    let w = f.write_bytes(&[3u8]).expect("past a block");
    assert_eq!(w.offset, 0);
    assert_eq!(w.data.len(), BLOCK_SIZE + 1);
    assert_eq!(w.data[BLOCK_SIZE], 3);
    assert_eq!(f.pos, BLOCK_SIZE + 1);
    assert_eq!(f.temp_pos, BLOCK_SIZE + 1);
    assert!(f.temp_buf.is_empty());
}

#[test]
fn flush_hands_out_the_rest_and_resets() {
    let mut f = CloudDavFile::new(meta(0, FileMetaType::FILE));
    f.write_bytes(&[7, 8, 9]);
    let w = f.flush().expect("buffered bytes");
    assert_eq!(w.offset, 0);
    assert_eq!(w.data, vec![7, 8, 9]);
    assert_eq!((f.pos, f.temp_pos, f.temp_buf.len()), (0, 0, 0));
    assert!(f.flush().is_none());
}

#[test]
fn reads_move_the_position() {
    let mut f = CloudDavFile::new(meta(0, FileMetaType::FILE));
    let r = f.read_bytes(5);
    assert_eq!((r.offset, r.count), (0, 5));
    let r = f.read_bytes(3);
    assert_eq!((r.offset, r.count), (5, 3));
    assert_eq!(f.pos, 8);
}

#[test]
fn everything_written_is_stored_once_in_order() {
    let mut f = CloudDavFile::new(meta(0, FileMetaType::FILE));
    let bufs: Vec<Vec<u8>> = vec![vec![1; 3 << 20], vec![2; 2 << 20], vec![3; 1 << 20], vec![4; 4 << 20], vec![5; 7]];
    let mut stores: Vec<(i64, Vec<u8>)> = Vec::new();
    for b in &bufs {
        if let Some(w) = f.write_bytes(b) {
            stores.push((w.offset, w.data));
        }
    }
    if let Some(w) = f.flush() {
        stores.push((w.offset, w.data));
    }
    let mut at = 0i64;
    let mut all: Vec<u8> = Vec::new();
    for (offset, data) in &stores {
        assert_eq!(*offset, at);
        at += data.len() as i64;
        all.extend_from_slice(data);
    }
    assert_eq!(all, bufs.concat());
    assert_eq!(stores.len(), 3);
}
