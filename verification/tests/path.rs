use safe_rm::path::{file_name, is_relative, join, parent};
use std::path::Path;

fn text(s: &str) -> Option<String> {
    Some(s.to_string())
}

const SAMPLES: [&str; 40] = [
    "", "/", "//", ".", "./", "..", "a", "a/", "a/b", "/a", "/a/b", "/a//b", "/a/./b", "a/.",
    "a/..", "./a", "./a/b", "./.", ".//a", "/.", "/..", ".a", "..a", "a/b/./", "a//",
    "///a///b///", "foo.txt/.//", "./..", "../a", "/a/b/..", "a/./", "./a/.", "/usr/bin/",
    "tmp/foo.txt", "...", "a/...", "/etc/passwd", "./.hidden", "b/./.", "é/ü",
];

#[test]
fn relative_paths_do_not_start_at_the_root() {
    assert!(is_relative(""));
    assert!(is_relative("a"));
    assert!(is_relative("./a"));
    assert!(is_relative("a/b"));
    assert!(!is_relative("/"));
    assert!(!is_relative("/a"));
    assert!(!is_relative("//a"));
}

#[test]
fn is_relative_agrees_with_std() {
    for sample in SAMPLES {
        assert_eq!(is_relative(sample), Path::new(sample).is_relative(), "{:?}", sample);
    }
}

#[test]
fn file_name_is_the_last_segment() {
    assert_eq!(file_name("/usr/bin"), text("bin"));
    assert_eq!(file_name("/usr/bin/"), text("bin"));
    assert_eq!(file_name("tmp/foo.txt"), text("foo.txt"));
    assert_eq!(file_name("foo.txt/."), text("foo.txt"));
    assert_eq!(file_name("foo.txt/.//"), text("foo.txt"));
    assert_eq!(file_name("foo"), text("foo"));
    assert_eq!(file_name("./foo"), text("foo"));
    assert_eq!(file_name(".hidden"), text(".hidden"));
    assert_eq!(file_name("..."), text("..."));
}

#[test]
fn file_name_is_missing_without_a_named_segment() {
    assert_eq!(file_name(""), None);
    assert_eq!(file_name("/"), None);
    assert_eq!(file_name("//"), None);
    assert_eq!(file_name("."), None);
    assert_eq!(file_name("./"), None);
    assert_eq!(file_name(".."), None);
    assert_eq!(file_name("foo.txt/.."), None);
    assert_eq!(file_name("/a/b/.."), None);
}

#[test]
fn file_name_agrees_with_std() {
    for sample in SAMPLES {
        let expected = Path::new(sample).file_name().map(|name| name.to_str().unwrap().to_string());
        assert_eq!(file_name(sample), expected, "{:?}", sample);
    }
}

#[test]
fn parent_drops_the_last_segment() {
    assert_eq!(parent("/usr/bin"), text("/usr"));
    assert_eq!(parent("/usr"), text("/"));
    assert_eq!(parent("/usr/bin/"), text("/usr"));
    assert_eq!(parent("/a//b"), text("/a"));
    assert_eq!(parent("/a/./b"), text("/a"));
    assert_eq!(parent("a/b/./"), text("a"));
    assert_eq!(parent("foo"), text(""));
    assert_eq!(parent("./foo"), text("."));
    assert_eq!(parent("./a/b"), text("./a"));
    assert_eq!(parent("./foo/.."), text("./foo"));
    assert_eq!(parent(".."), text(""));
    assert_eq!(parent("."), text(""));
}

#[test]
fn parent_is_missing_for_the_root_and_the_empty_path() {
    assert_eq!(parent("/"), None);
    assert_eq!(parent("//"), None);
    assert_eq!(parent("/."), None);
    assert_eq!(parent(""), None);
}

#[test]
fn parent_agrees_with_std() {
    for sample in SAMPLES {
        let expected = Path::new(sample).parent().map(|dir| dir.to_str().unwrap().to_string());
        assert_eq!(parent(sample), expected, "{:?}", sample);
    }
}

#[test]
fn join_puts_a_relative_path_behind_the_base() {
    assert_eq!(join("/etc", "foo"), "/etc/foo");
    assert_eq!(join("/", "foo"), "/foo");
    assert_eq!(join("a/", "b"), "a/b");
    assert_eq!(join("", "foo"), "foo");
    assert_eq!(join(".", "foo"), "./foo");
    assert_eq!(join(".", ""), "./");
    assert_eq!(join("/home/alice", ".config/safe-rm"), "/home/alice/.config/safe-rm");
}

#[test]
fn join_lets_an_absolute_path_stand_for_itself() {
    assert_eq!(join("a", "/b"), "/b");
    assert_eq!(join("/etc", "/usr/bin"), "/usr/bin");
    assert_eq!(join("", "/"), "/");
}

#[test]
fn join_agrees_with_std() {
    for base in SAMPLES {
        for sample in SAMPLES {
            let expected = Path::new(base).join(sample).to_str().unwrap().to_string();
            assert_eq!(join(base, sample), expected, "{:?} {:?}", base, sample);
        }
    }
}

#[test]
fn a_plain_name_joined_to_a_path_is_its_file_name() {
    for base in SAMPLES {
        for name in ["foo", ".hidden", "...", "a b", "é"] {
            let whole = join(base, name);
            assert_eq!(file_name(&whole), text(name), "{:?} {:?}", base, name);
            assert!(parent(&whole).is_some(), "{:?} {:?}", base, name);
        }
    }
}

fn all_paths(longest: usize) -> Vec<String> {
    let mut paths = vec![String::new()];
    let mut last = vec![String::new()];
    for _ in 0..longest {
        let mut next = Vec::new();
        for path in &last {
            for c in ['/', '.', 'a'] {
                let mut longer = path.clone();
                longer.push(c);
                next.push(longer);
            }
        }
        paths.extend(next.iter().cloned());
        last = next;
    }
    paths
}

#[test]
fn parent_and_file_name_agree_with_std_on_every_short_path() {
    let paths = all_paths(7);
    assert_eq!(paths.len(), 3280);
    for path in &paths {
        let std_path = Path::new(path);
        let name = std_path.file_name().map(|name| name.to_str().unwrap().to_string());
        let dir = std_path.parent().map(|dir| dir.to_str().unwrap().to_string());
        assert_eq!(file_name(path), name, "{:?}", path);
        assert_eq!(parent(path), dir, "{:?}", path);
        assert_eq!(is_relative(path), std_path.is_relative(), "{:?}", path);
    }
}

#[test]
fn join_agrees_with_std_on_every_pair_of_short_paths() {
    let paths = all_paths(4);
    assert_eq!(paths.len(), 121);
    for base in &paths {
        for path in &paths {
            let expected = Path::new(base).join(path).to_str().unwrap().to_string();
            assert_eq!(join(base, path), expected, "{:?} {:?}", base, path);
        }
    }
}
