use safe_rm::protected::{builtin_paths, protect, ProtectedPaths};

const DEFAULTS: [&str; 26] = [
    "/bin", "/boot", "/dev", "/etc", "/home", "/initrd", "/lib", "/lib32", "/lib64", "/proc",
    "/root", "/sbin", "/sys", "/usr", "/usr/bin", "/usr/include", "/usr/lib", "/usr/local",
    "/usr/local/bin", "/usr/local/include", "/usr/local/sbin", "/usr/local/share", "/usr/sbin",
    "/usr/share", "/usr/src", "/var",
];

fn strings(texts: &[&str]) -> Vec<String> {
    texts.iter().map(|text| text.to_string()).collect()
}

#[test]
fn the_builtin_paths_are_the_fixed_list() {
    assert_eq!(builtin_paths(), strings(&DEFAULTS));
}

#[test]
fn a_new_set_protects_nothing() {
    let protected = ProtectedPaths::new();
    assert_eq!(protected.len(), 0);
    assert!(!protected.contains("/usr"));
    assert_eq!(protected.to_vec(), Vec::<String>::new());
}

#[test]
fn insert_holds_each_path_once() {
    let mut protected = ProtectedPaths::new();
    assert!(protected.insert("/a".to_string()));
    assert!(protected.insert("/b".to_string()));
    assert!(!protected.insert("/a".to_string()));
    assert_eq!(protected.len(), 2);
    assert_eq!(protected.to_vec(), strings(&["/a", "/b"]));
    assert!(protected.contains("/a"));
    assert!(protected.contains("/b"));
    assert!(!protected.contains("/c"));
}

#[test]
fn membership_goes_by_the_text() {
    let mut protected = ProtectedPaths::new();
    protected.insert("/usr".to_string());
    assert!(protected.contains("/usr"));
    assert!(!protected.contains("/usr/"));
    assert!(!protected.contains("/usr/bin"));
    assert!(!protected.contains("usr"));
    assert!(!protected.contains(""));
}

#[test]
fn insert_all_adds_what_is_new() {
    let mut protected = ProtectedPaths::new();
    protected.insert("/a".to_string());
    protected.insert_all(&strings(&["/b", "/a", "/c", "/b"]));
    assert_eq!(protected.to_vec(), strings(&["/a", "/b", "/c"]));
}

#[test]
fn the_defaults_are_protected_without_any_configuration() {
    let protected = protect(&Vec::new());
    assert_eq!(protected.len(), 26);
    for path in DEFAULTS {
        assert!(protected.contains(path), "{}", path);
    }
    assert!(!protected.contains("/tmp"));
    assert!(!protected.contains("/home/alice/file.txt"));
}

#[test]
fn the_defaults_are_protected_beside_what_the_configuration_names() {
    let protected = protect(&strings(&["/tmp/keep1", "/tmp/keep2"]));
    assert_eq!(protected.len(), 28);
    for path in DEFAULTS {
        assert!(protected.contains(path), "{}", path);
    }
    assert!(protected.contains("/tmp/keep1"));
    assert!(protected.contains("/tmp/keep2"));
    assert!(!protected.contains("/tmp/other"));
    assert_eq!(protected.to_vec()[..2], strings(&["/tmp/keep1", "/tmp/keep2"])[..]);
}

#[test]
fn naming_paths_twice_protects_the_same() {
    let once = protect(&strings(&["/tmp/a", "/tmp/b"]));
    let twice = protect(&strings(&["/tmp/a", "/tmp/b", "/tmp/a", "/tmp/b"]));
    assert_eq!(once.to_vec(), twice.to_vec());
    assert_eq!(twice.len(), 28);
}

#[test]
fn the_order_of_naming_does_not_change_what_is_protected() {
    let forth = protect(&strings(&["/tmp/a", "/tmp/b", "/usr"]));
    let back = protect(&strings(&["/usr", "/tmp/b", "/tmp/a"]));
    let mut left = forth.to_vec();
    let mut right = back.to_vec();
    left.sort();
    right.sort();
    assert_eq!(left, right);
    assert_eq!(forth.len(), 28);
}
