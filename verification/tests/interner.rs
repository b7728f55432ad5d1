use path_interner::{FileId, PathInterner, VfsPath};

fn path(text: &str) -> VfsPath {
    VfsPath::new(text.to_string())
}

#[test]
fn intern_is_idempotent() {
    let mut interner = PathInterner::new();
    let first = interner.intern(path("/usr/lib/libc.so"));
    let size_after_first = interner.len();
    let second = interner.intern(path("/usr/lib/libc.so"));
    assert_eq!(second, first);
    assert_eq!(interner.len(), size_after_first);
    let third = interner.intern(path("/usr/lib/libc.so"));
    assert_eq!(third, first);
    assert_eq!(interner.len(), size_after_first);
}

#[test]
fn lookup_round_trips_interned_paths() {
    let mut interner = PathInterner::new();
    let texts = ["/a", "/a/b", "/a/b/c", "", "relative/path.rs"];
    let mut handles = Vec::new();
    for text in texts {
        handles.push(interner.intern(path(text)));
    }
    for (text, handle) in texts.iter().zip(handles.iter()) {
        assert_eq!(interner.lookup(*handle).as_str(), *text);
    }
}

#[test]
fn handles_are_dense_and_sequential() {
    let mut interner = PathInterner::new();
    let texts = ["/x/1", "/x/2", "/x/3", "/y/1", "/y/2"];
    for (i, text) in texts.iter().enumerate() {
        let handle = interner.intern(path(text));
        assert_eq!(handle, FileId(i as u32));
    }
    assert_eq!(interner.len(), texts.len());
}

#[test]
fn get_misses_before_and_hits_after_intern() {
    let mut interner = PathInterner::new();
    interner.intern(path("/etc/passwd"));
    assert_eq!(interner.get(&path("/etc/shadow")), None);
    let handle = interner.intern(path("/etc/shadow"));
    assert_eq!(interner.get(&path("/etc/shadow")), Some(handle));
    assert_eq!(interner.get(&path("/etc/passwd")), Some(FileId(0)));
}

#[test]
fn get_on_fresh_interner_misses_and_leaves_it_empty() {
    let mut interner = PathInterner::new();
    assert_eq!(interner.get(&path("/never/inserted")), None);
    assert_eq!(interner.len(), 0);
    // A handle minted afterwards still starts at zero.
    assert_eq!(interner.intern(path("/first")), FileId(0));
}

#[test]
fn get_does_not_mutate_a_populated_interner() {
    let mut interner = PathInterner::new();
    let a = interner.intern(path("/a/b"));
    let c = interner.intern(path("/a/c"));
    assert_eq!(interner.get(&path("/nope")), None);
    assert_eq!(interner.len(), 2);
    assert_eq!(interner.lookup(a).as_str(), "/a/b");
    assert_eq!(interner.lookup(c).as_str(), "/a/c");
}

#[test]
fn example_scenario_two_distinct_paths() {
    let mut interner = PathInterner::new();
    assert_eq!(interner.intern(path("/a/b")), FileId(0));
    assert_eq!(interner.intern(path("/a/c")), FileId(1));
    assert_eq!(interner.intern(path("/a/b")), FileId(0));
    assert_eq!(interner.len(), 2);
    assert_eq!(interner.lookup(FileId(0)).as_str(), "/a/b");
    assert_eq!(interner.lookup(FileId(1)).as_str(), "/a/c");
}

#[test]
fn default_interner_is_empty() {
    let interner = PathInterner::default();
    assert_eq!(interner.len(), 0);
}

#[test]
fn handles_order_by_creation() {
    let mut interner = PathInterner::new();
    let first = interner.intern(path("/m"));
    let second = interner.intern(path("/n"));
    assert!(first < second);
    assert_eq!(first.0, 0);
    assert_eq!(second.0, 1);
}

#[test]
fn many_distinct_paths_get_distinct_handles() {
    let mut interner = PathInterner::new();
    let mut handles = Vec::new();
    for i in 0..1000u32 {
        let text = format!("/dir{}/file{}.rs", i % 37, i);
        handles.push(interner.intern(VfsPath::new(text)));
    }
    assert_eq!(interner.len(), 1000);
    for (i, handle) in handles.iter().enumerate() {
        assert_eq!(*handle, FileId(i as u32));
        let text = format!("/dir{}/file{}.rs", (i as u32) % 37, i);
        assert_eq!(interner.lookup(*handle).as_str(), text.as_str());
    }
}

#[test]
fn vfs_path_preserves_its_text() {
    let p = VfsPath::new("/some/μνίcode/path".to_string());
    assert_eq!(p.as_str(), "/some/μνίcode/path");
}
