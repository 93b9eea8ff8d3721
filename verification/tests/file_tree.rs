use cloud::file_tree::{FileManager, FileNode};
use cloud::meta::FileMetaType;

#[test]
fn new_node_is_fresh() {
    let n = FileNode::new("a", FileMetaType::FILE);
    assert_eq!(n.name, "a");
    assert!(n.dirty);
    assert!(n.children.is_empty());
}

#[test]
fn tree_text_after_two_paths() {
    let mut m = FileManager::new();
    m.add_node("/test/123/123".to_string(), FileMetaType::DIR);
    assert_eq!(
        m.to_text(),
        "{id:None,name:,file_type:DIR,children:[{id:None,name:test,file_type:DIR,children:[{id:None,name:123,file_type:DIR,children:[{id:None,name:123,file_type:DIR,children:[]}]}]}]}"
    );
    m.add_node("/test/123/123/test".to_string(), FileMetaType::DIR);
    assert_eq!(
        m.to_text(),
        "{id:None,name:,file_type:DIR,children:[{id:None,name:test,file_type:DIR,children:[{id:None,name:123,file_type:DIR,children:[{id:None,name:123,file_type:DIR,children:[{id:None,name:test,file_type:DIR,children:[]}]}]}]}]}"
    );
}

#[test]
fn add_node_without_slash_goes_under_root() {
    let mut m = FileManager::new();
    m.add_node("a".to_string(), FileMetaType::FILE);
    assert_eq!(m.nodes.len(), 2);
    assert_eq!(m.nodes[0].children, vec![1]);
    assert_eq!(m.nodes[1].name, "a");
    assert_eq!(m.nodes[1].file_type, FileMetaType::FILE);
}

#[test]
fn add_node_keeps_existing_entries() {
    let mut m = FileManager::new();
    m.add_node("x/y".to_string(), FileMetaType::FILE);
    let before: Vec<(String, usize)> = m.nodes.iter().map(|n| (n.name.clone(), n.children.len())).collect();
    m.add_node("x/z".to_string(), FileMetaType::SYMLINK);
    for (i, (name, count)) in before.iter().enumerate() {
        assert_eq!(&m.nodes[i].name, name);
        assert!(m.nodes[i].children.len() >= *count);
    }
    // the new entry is the last node, the last child of directory x
    let last = m.nodes.len() - 1;
    assert_eq!(m.nodes[last].name, "z");
    assert_eq!(m.nodes[last].file_type, FileMetaType::SYMLINK);
    assert_eq!(*m.nodes[1].children.last().unwrap(), last);
}

#[test]
fn add_node_follows_last_same_named_child() {
    let mut m = FileManager::new();
    m.add_node("/d/f".to_string(), FileMetaType::DIR);
    m.add_node("/d/f".to_string(), FileMetaType::DIR);
    m.add_node("/d/f/g".to_string(), FileMetaType::FILE);
    // d has two children named f; g goes under the second
    let d = m.nodes[0].children[0];
    assert_eq!(m.nodes[d].children.len(), 2);
    let second = m.nodes[d].children[1];
    assert_eq!(m.nodes[second].children.len(), 1);
    assert_eq!(m.nodes[m.nodes[second].children[0]].name, "g");
}

#[test]
fn can_add_node_refuses_a_path_through_a_file() {
    let mut m = FileManager::new();
    m.add_node("/a/b".to_string(), FileMetaType::FILE);
    assert!(m.can_add_node(&"/a/c".to_string()));
    assert!(!m.can_add_node(&"/a/b/c".to_string()));
    assert!(m.can_add_node(&"/a/b".to_string()));
    assert!(m.can_add_node(&"/new/deep/path/x".to_string()));
}

#[test]
fn can_add_node_refuses_a_bare_leading_slash() {
    let m = FileManager::new();
    assert!(!m.can_add_node(&"/x".to_string()));
    assert!(m.can_add_node(&"x".to_string()));
    assert!(m.can_add_node(&"".to_string()));
}
