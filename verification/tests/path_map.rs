use unidrive_mount::path_map::{PathMap, ROOT_INODE};

#[test]
fn root_inode_is_one() {
    let m = PathMap::new();
    assert_eq!(m.root_inode(), 1);
}

#[test]
fn root_maps_to_empty_path() {
    let m = PathMap::new();
    assert_eq!(m.path_for(ROOT_INODE), Some(""));
}

#[test]
fn empty_path_maps_back_to_root_on_intern() {
    let mut m = PathMap::new();
    assert_eq!(m.intern(""), ROOT_INODE);
}

#[test]
fn interning_same_path_returns_same_inode() {
    let mut m = PathMap::new();
    let a = m.intern("/foo.txt");
    let b = m.intern("/foo.txt");
    assert_eq!(a, b);
}

#[test]
fn different_paths_get_different_inodes() {
    let mut m = PathMap::new();
    let a = m.intern("/foo.txt");
    let b = m.intern("/bar.txt");
    assert_ne!(a, b);
}

#[test]
fn path_for_returns_the_original_path() {
    let mut m = PathMap::new();
    let ino = m.intern("/folder/deep/file.txt");
    assert_eq!(m.path_for(ino), Some("/folder/deep/file.txt"));
}

#[test]
fn path_for_unknown_inode_returns_none() {
    let m = PathMap::new();
    assert_eq!(m.path_for(9999), None);
}

#[test]
fn new_inodes_start_above_root() {
    let mut m = PathMap::new();
    let first = m.intern("/a");
    assert!(first > ROOT_INODE);
}

#[test]
fn inode_for_returns_none_for_unknown_path() {
    let mut map = PathMap::new();
    let known_ino = map.intern("/known");
    assert_eq!(map.inode_for("/known"), Some(known_ino),
        "interned path must reverse-lookup to its inode");
    assert_eq!(map.inode_for("/never_interned"), None,
        "unknown path must yield None, not a sentinel or panic");
}

#[test]
fn forget_releases_both_halves_and_returns_freed_inode() {
    let mut map = PathMap::new();
    let ino = map.intern("/doomed");
    assert_eq!(map.forget("/doomed"), Some(ino),
        "forget must return the inode it released");
    assert_eq!(map.inode_for("/doomed"), None,
        "path->inode entry must be gone after forget");
    assert_eq!(map.path_for(ino), None,
        "inode->path entry must be gone after forget");
    assert_eq!(map.forget("/doomed"), None,
        "second forget on the same path must yield None, not panic");
}

#[test]
fn forget_then_reintern_assigns_a_fresh_inode() {
    // Inode numbers MUST NOT be recycled: a kernel-cached dentry pointing at
    // the old inode must not collide with a re-created path's inode.
    let mut map = PathMap::new();
    let first = map.intern("/recreate");
    map.forget("/recreate");
    let second = map.intern("/recreate");
    assert_ne!(first, second,
        "re-interning after forget must allocate a new inode, not reuse");
}

#[test]
fn inodes_rise_from_two() {
    let mut map = PathMap::default();
    assert_eq!(map.intern("/a"), 2);
    assert_eq!(map.intern("/b"), 3);
    assert_eq!(map.intern("/a"), 2);
    assert_eq!(map.room(), u64::MAX - 4);
}

#[test]
fn rename_keeps_the_inode_and_drops_the_target() {
    let mut map = PathMap::new();
    let a = map.intern("/a");
    let b = map.intern("/b");
    assert_eq!(map.rename("/a", "/b"), Some(a));
    assert_eq!(map.inode_for("/b"), Some(a));
    assert_eq!(map.path_for(a), Some("/b"));
    assert_eq!(map.inode_for("/a"), None);
    assert_eq!(map.path_for(b), None);
}

#[test]
fn rename_to_itself_and_of_nothing_change_nothing() {
    let mut map = PathMap::new();
    let a = map.intern("/a");
    assert_eq!(map.rename("/a", "/a"), Some(a));
    assert_eq!(map.path_for(a), Some("/a"));
    assert_eq!(map.rename("/none", "/a"), None);
    assert_eq!(map.path_for(a), Some("/a"));
    assert_eq!(map.inode_for("/none"), None);
}
