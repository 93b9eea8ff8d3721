use cloud::error::ErrorInfo;
use cloud::meta::FileMetaType;
use cloud::tables::FileMeta;
use cloud::vfs::{
    check_name_free, check_readable, found_or_not_found, lookup_result, plan_block_write, rename_entry, resize,
    retry_read, split_parent, write_pieces, BlockReader, FilePathWalk, Lookup, PathMetaWalk, PathStep,
    VirtualFileSystem, CLOUD_FILE_BLOCK_SIZE,
};

fn entry(id: i64, parent: i64, name: &str) -> FileMeta {
    let mut m = FileMeta::new_entry(parent, name, FileMetaType::DIR, 0);
    m.id = Some(id);
    m
}

#[test]
fn block_write_inside_one_block() {
    let w = plan_block_write(10, 20);
    assert_eq!((w.block_index, w.block_offset, w.take, w.new_length, w.store_length), (0, 10, 20, 30, true));
}

#[test]
fn block_write_cut_at_block_end() {
    let at = (CLOUD_FILE_BLOCK_SIZE - 2) as i64;
    let w = plan_block_write(at, 5);
    assert_eq!(w.block_index, 0);
    assert_eq!(w.block_offset, (CLOUD_FILE_BLOCK_SIZE - 2) as u64);
    assert_eq!(w.take, 2);
    assert_eq!(w.new_length, CLOUD_FILE_BLOCK_SIZE);
    assert!(!w.store_length);
}

#[test]
fn write_split_into_pieces() {
    let at = (CLOUD_FILE_BLOCK_SIZE - 1) as i64;
    let pieces = write_pieces(at, CLOUD_FILE_BLOCK_SIZE + 3);
    assert_eq!(pieces.len(), 3);
    assert_eq!((pieces[0].start, pieces[0].write.block_index, pieces[0].write.take), (0, 0, 1));
    assert_eq!((pieces[1].start, pieces[1].write.block_index, pieces[1].write.block_offset), (1, 1, 0));
    assert_eq!(pieces[1].write.take, CLOUD_FILE_BLOCK_SIZE);
    assert_eq!((pieces[2].start, pieces[2].write.block_index, pieces[2].write.take), (CLOUD_FILE_BLOCK_SIZE + 1, 2, 2));
    assert!(pieces[2].write.store_length);
    let empty = write_pieces(5, 0);
    assert_eq!(empty.len(), 1);
    assert_eq!(empty[0].write.take, 0);
}

#[test]
fn reader_starts_in_the_right_block() {
    let r = BlockReader::new((CLOUD_FILE_BLOCK_SIZE as i64) * 2 + 7, 4);
    assert_eq!((r.start_block_index, r.seek), (2, 7));
    assert!(r.wants(2) && r.wants(3) && !r.wants(1));
    let n = BlockReader::new(-1, 4);
    assert_eq!(n.start_block_index, 0);
    assert_eq!(n.seek, u64::MAX);
}

#[test]
fn reader_gathers_until_size() {
    let mut r = BlockReader::new(0, 5);
    assert_eq!(r.take_seek(), 0);
    assert!(!r.append_body(&[1, 2, 3]));
    assert!(r.append_body(&[4, 5, 6, 7]));
    assert_eq!(r.body, vec![1, 2, 3, 4, 5]);
    let mut all = BlockReader::new(0, 0);
    assert!(!all.append_body(&[1, 2]));
    assert_eq!(all.body, vec![1, 2]);
}

#[test]
fn first_read_uses_seek_then_zero() {
    let mut r = BlockReader::new(12, 1);
    assert_eq!(r.take_seek(), 12);
    assert_eq!(r.take_seek(), 0);
    assert!(retry_read(&ErrorInfo::Retry));
    assert!(!retry_read(&ErrorInfo::Http401));
}

#[test]
fn path_walk_of_root() {
    let (mut w, step) = PathMetaWalk::start("/");
    assert!(matches!(step, PathStep::Query(Lookup::ById(1))));
    let root = entry(1, 0, "/");
    match w.on_result(Some(root)) {
        PathStep::Done(Ok(Some(m))) => assert_eq!(m.id, Some(1)),
        _ => panic!("root expected"),
    }
}

#[test]
fn path_walk_of_nested_path() {
    let (mut w, step) = PathMetaWalk::start("/a/b");
    assert!(matches!(step, PathStep::Query(Lookup::ById(1))));
    match w.on_result(Some(entry(1, 0, "/"))) {
        PathStep::Query(Lookup::ByParentAndName(p, n)) => assert_eq!((p, n.as_str()), (1, "a")),
        _ => panic!("query for a"),
    }
    match w.on_result(Some(entry(5, 1, "a"))) {
        PathStep::Query(Lookup::ByParentAndName(p, n)) => assert_eq!((p, n.as_str()), (5, "b")),
        _ => panic!("query for b"),
    }
    match w.on_result(None) {
        PathStep::Done(Err(ErrorInfo::FileNotFound(n))) => assert_eq!(n, "b"),
        _ => panic!("b not found"),
    }
}

#[test]
fn path_walk_of_relative_path() {
    let (mut w, step) = PathMetaWalk::start("a");
    match step {
        PathStep::Query(Lookup::ByParentAndName(p, n)) => assert_eq!((p, n.as_str()), (0, "a")),
        _ => panic!("query for a under 0"),
    }
    match w.on_result(Some(entry(3, 0, "a"))) {
        PathStep::Done(Ok(Some(m))) => assert_eq!(m.id, Some(3)),
        _ => panic!("done"),
    }
}

#[test]
fn file_path_walk_restarts_under_root() {
    let (mut w, step) = FilePathWalk::start("x/y");
    match step {
        PathStep::Query(Lookup::ByParentAndName(p, n)) => assert_eq!((p, n.as_str()), (1, "x")),
        _ => panic!("query for x"),
    }
    match w.on_result(None) {
        PathStep::Query(Lookup::ByParentAndName(p, n)) => assert_eq!((p, n.as_str()), (1, "y")),
        _ => panic!("query for y under the root"),
    }
    match w.on_result(None) {
        PathStep::Done(Ok(None)) => {}
        _ => panic!("done, nothing found"),
    }
    let (_, root_step) = FilePathWalk::start("");
    assert!(matches!(root_step, PathStep::Query(Lookup::ById(1))));
}

#[test]
fn parent_and_name_of_paths() {
    assert_eq!(split_parent("/a/b.txt"), ("/a".to_string(), "b.txt".to_string()));
    assert_eq!(split_parent("/top"), ("".to_string(), "top".to_string()));
}

#[test]
fn checks_around_entries() {
    assert!(check_name_free(&None, "n").is_ok());
    assert_eq!(check_name_free(&Some(entry(2, 1, "n")), "n"), Err(ErrorInfo::FileAlreadyExist("n".to_string())));
    assert_eq!(found_or_not_found(None, "q").unwrap_err(), ErrorInfo::FileNotFound("q".to_string()));
    assert_eq!(lookup_result(None, "q").unwrap_err(), ErrorInfo::OTHER(3, "文件[q]不存在".to_string()));
    assert_eq!(lookup_result(Some(entry(4, 1, "q")), "q").unwrap().id, Some(4));
    assert_eq!(check_readable(&None, 3), Err(ErrorInfo::OTHER(3, "文件不存在".to_string())));
    assert_eq!(check_readable(&Some(entry(1, 0, "/")), 0), Err(ErrorInfo::OTHER(3, "文件块数据不存在".to_string())));
    assert!(check_readable(&Some(entry(1, 0, "/")), 2).is_ok());
}

#[test]
fn rename_moves_and_refuses() {
    let moved = rename_entry(Some(entry(4, 1, "old")), &None, 7, "new").unwrap();
    assert_eq!((moved.parent_id, moved.name.as_str(), moved.id), (7, "new", Some(4)));
    assert_eq!(rename_entry(None, &None, 7, "new").unwrap_err(), ErrorInfo::FileNotFound("源文件不存在".to_string()));
    assert_eq!(
        rename_entry(Some(entry(4, 1, "old")), &Some(entry(5, 7, "new")), 7, "new").unwrap_err(),
        ErrorInfo::FileAlreadyExist("目标文件已经存在".to_string())
    );
}

#[test]
fn resize_sets_length() {
    assert_eq!(resize(Some(entry(4, 1, "f")), Some(33)).unwrap().file_length, 33);
    assert_eq!(resize(Some(entry(4, 1, "f")), None).unwrap().file_length, 0);
    assert_eq!(resize(None, Some(1)).unwrap_err(), ErrorInfo::OTHER(3, "文件不存在".to_string()));
}

#[test]
fn cache_path_of_block() {
    let v = VirtualFileSystem::new("/tmp/c");
    assert_eq!(v.cache_path("abc"), "/tmp/c/abc");
}

#[test]
fn a_read_gathers_the_first_bytes_of_its_blocks() {
    let blocks: Vec<Vec<u8>> = vec![vec![1, 2, 3], vec![4, 5], vec![6, 7, 8]];
    let mut r = BlockReader::new(0, 4);
    let mut done = false;
    for b in &blocks {
        if r.append_body(b) {
            done = true;
            break;
        }
    }
    assert!(done);
    assert_eq!(r.body, vec![1, 2, 3, 4]);

    let mut all = BlockReader::new(0, 100);
    let mut finished = false;
    for b in &blocks {
        finished = all.append_body(b);
    }
    assert!(!finished);
    assert_eq!(all.body, vec![1, 2, 3, 4, 5, 6, 7, 8]);
}

/// Writes `bytes` at `at` into a block file held in memory, as a file is written in place.
fn store_at(block: &mut Vec<u8>, at: usize, bytes: &[u8]) {
    if block.len() < at + bytes.len() {
        block.resize(at + bytes.len(), 0);
    }
    block[at..at + bytes.len()].copy_from_slice(bytes);
}

#[test]
fn a_read_gives_back_a_write_across_blocks() {
    let offset = (CLOUD_FILE_BLOCK_SIZE - 5) as i64;
    let data: Vec<u8> = (1..=15).collect();
    let mut cache: std::collections::HashMap<i64, Vec<u8>> = std::collections::HashMap::new();
    // an older, longer write in the second block
    cache.insert(1, vec![99; 40]);
    for p in write_pieces(offset, data.len()) {
        let block = cache.entry(p.write.block_index).or_default();
        store_at(block, p.write.block_offset as usize, &data[p.start..p.start + p.write.take]);
    }
    let mut r = BlockReader::new(offset, 12);
    let mut done = false;
    let mut index = 0i64;
    while !done {
        if r.wants(index) {
            let seek = r.take_seek() as usize;
            let block = cache.get(&index).cloned().unwrap_or_default();
            let from = seek.min(block.len());
            done = r.append_body(&block[from..]);
        }
        index += 1;
    }
    assert_eq!(r.body, data[..12].to_vec());
    // the whole write reads back too, followed by what the second block held after it
    let mut all = BlockReader::new(offset, 15);
    let first = &cache[&0][CLOUD_FILE_BLOCK_SIZE - 5..];
    assert!(!all.append_body(first));
    assert!(all.append_body(&cache[&1]));
    assert_eq!(all.body, data);
}

#[test]
fn an_empty_write_at_a_negative_offset_is_one_empty_piece() {
    let pieces = write_pieces(-5, 0);
    assert_eq!(pieces.len(), 1);
    assert_eq!((pieces[0].start, pieces[0].write.take), (0, 0));
}
