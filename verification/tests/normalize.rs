use safe_rm::normalize::{
    normalize_path, resolution_target, symlink_canonicalize, symlink_parent, FileKind, PathStatus,
};
use safe_rm::protected::protect;

fn text(s: &str) -> Option<String> {
    Some(s.to_string())
}

fn missing() -> PathStatus {
    PathStatus { kind: FileKind::Missing, resolved: None }
}

fn link(directory: Option<String>) -> PathStatus {
    PathStatus { kind: FileKind::Symlink, resolved: directory }
}

fn other(canonical: Option<String>) -> PathStatus {
    PathStatus { kind: FileKind::Other, resolved: canonical }
}

#[test]
fn nothing_is_resolved_for_a_missing_path() {
    assert_eq!(resolution_target("/no/such", FileKind::Missing), None);
    assert_eq!(resolution_target("", FileKind::Missing), None);
}

#[test]
fn the_directory_is_resolved_for_a_link() {
    assert_eq!(resolution_target("/etc/link", FileKind::Symlink), text("/etc"));
    assert_eq!(resolution_target("link", FileKind::Symlink), text("."));
    assert_eq!(resolution_target("a/b/link", FileKind::Symlink), text("./a/b"));
    assert_eq!(resolution_target("/", FileKind::Symlink), None);
}

#[test]
fn the_path_itself_is_resolved_for_anything_else() {
    assert_eq!(resolution_target("/usr/lib/../bin/", FileKind::Other), text("/usr/lib/../bin/"));
    assert_eq!(resolution_target("x", FileKind::Other), text("x"));
}

#[test]
fn what_was_resolved_for_a_missing_path_is_not_looked_at() {
    let status = PathStatus { kind: FileKind::Missing, resolved: text("/etc") };
    assert_eq!(normalize_path("gone", &status), "gone");
}

#[test]
fn the_directory_of_a_link_is_the_parent_of_its_path() {
    assert_eq!(symlink_parent("/etc/link"), text("/etc"));
    assert_eq!(symlink_parent("/link"), text("/"));
    assert_eq!(symlink_parent("dir/link"), text("./dir"));
    assert_eq!(symlink_parent("./dir/link"), text("././dir"));
    assert_eq!(symlink_parent("../link"), text("./.."));
}

#[test]
fn a_bare_name_lies_in_the_current_directory() {
    assert_eq!(symlink_parent("link"), text("."));
    assert_eq!(symlink_parent(".hidden"), text("."));
}

#[test]
fn the_root_has_no_directory() {
    assert_eq!(symlink_parent("/"), None);
    assert_eq!(symlink_parent("//"), None);
}

#[test]
fn the_empty_path_lies_nowhere_that_can_be_resolved() {
    assert_eq!(symlink_parent(""), text(""));
    assert_eq!(symlink_canonicalize("", &None), None);
}

#[test]
fn a_link_is_placed_by_its_name_in_its_resolved_directory() {
    assert_eq!(symlink_canonicalize("/etc/link", &text("/etc")), text("/etc/link"));
    assert_eq!(symlink_canonicalize("link", &text("/home/alice")), text("/home/alice/link"));
    assert_eq!(symlink_canonicalize("../x/link", &text("/srv/x")), text("/srv/x/link"));
    assert_eq!(symlink_canonicalize("/a/b/../link", &text("/a")), text("/a/link"));
    assert_eq!(symlink_canonicalize("/link", &text("/")), text("/link"));
    assert_eq!(symlink_canonicalize("dir//link", &text("/mnt/dir")), text("/mnt/dir/link"));
}

#[test]
fn a_link_whose_directory_did_not_resolve_has_no_place() {
    assert_eq!(symlink_canonicalize("/gone/link", &None), None);
    assert_eq!(symlink_canonicalize("link", &None), None);
}

#[test]
fn a_path_that_ends_in_dot_dot_stands_for_the_directory_above() {
    assert_eq!(symlink_canonicalize("dir/..", &text("/a/b")), text("/a"));
    assert_eq!(symlink_canonicalize("..", &text("/home/alice")), text("/home"));
    assert_eq!(symlink_canonicalize("/a/..", &text("/a")), text("/"));
}

#[test]
fn stepping_up_stops_at_the_root() {
    assert_eq!(symlink_canonicalize("..", &text("/")), text("/"));
    assert_eq!(symlink_canonicalize("/..", &text("/")), text("/"));
}

#[test]
fn a_path_without_a_parent_is_placed_in_the_root() {
    assert_eq!(symlink_canonicalize("/", &None), text("/"));
    assert_eq!(symlink_canonicalize("/", &text("/anything")), text("/"));
}

#[test]
fn a_missing_path_is_left_as_it_is_written() {
    assert_eq!(normalize_path("no/such/../file", &missing()), "no/such/../file");
    assert_eq!(normalize_path("/usr", &missing()), "/usr");
    assert_eq!(normalize_path("", &missing()), "");
}

#[test]
fn what_is_there_is_known_by_its_canonical_form() {
    let status = other(text("/usr/bin"));
    assert_eq!(normalize_path("/usr/lib/../bin/", &status), "/usr/bin");
    assert_eq!(normalize_path("bin", &status), "/usr/bin");
}

#[test]
fn what_cannot_be_resolved_is_left_as_it_is_written() {
    assert_eq!(normalize_path("./x", &other(None)), "./x");
    assert_eq!(normalize_path("./x", &link(None)), "./x");
}

#[test]
fn a_link_is_known_by_where_it_lies() {
    let status = link(text("/etc"));
    assert_eq!(normalize_path("/etc/link", &status), "/etc/link");
    assert_eq!(normalize_path("link", &status), "/etc/link");
    assert_eq!(normalize_path("../etc/link", &status), "/etc/link");
}

#[test]
fn a_link_inside_a_protected_directory_is_judged_by_its_own_place() {
    let protected = protect(&vec!["/etc/link".to_string()]);
    let inside = link(text("/etc"));
    let normal = normalize_path("/etc/link", &inside);
    assert_eq!(normal, "/etc/link");
    assert!(protected.contains(&normal));
    let through_another_name = normalize_path("/private/../etc/link", &inside);
    assert!(protected.contains(&through_another_name));
}

#[test]
fn a_link_that_points_into_a_protected_directory_is_not_protected_by_that() {
    let protected = protect(&Vec::new());
    let outside = link(text("/tmp"));
    let normal = normalize_path("/tmp/to-etc", &outside);
    assert_eq!(normal, "/tmp/to-etc");
    assert!(!protected.contains(&normal));
    let followed = other(text("/etc"));
    assert!(protected.contains(&normalize_path("/tmp/to-etc/", &followed)));
}
