use safe_rm::config::{
    config_locations, gather, parse_line, read_config, read_config_files, ConfigFile, ConfigLine,
    ConfigSource, GLOBAL_CONFIG, LEGACY_USER_CONFIG, LOCAL_GLOBAL_CONFIG, USER_CONFIG,
};
use safe_rm::diagnostic::Diagnostic;
use safe_rm::expansion::Expansion;

fn line(text: &str) -> ConfigLine {
    ConfigLine::Text(text.to_string())
}

fn source(filename: &str, file: ConfigFile) -> ConfigSource {
    ConfigSource { filename: filename.to_string(), file }
}

#[test]
fn the_well_known_places() {
    assert_eq!(GLOBAL_CONFIG, "/etc/safe-rm.conf");
    assert_eq!(LOCAL_GLOBAL_CONFIG, "/usr/local/etc/safe-rm.conf");
    assert_eq!(USER_CONFIG, ".config/safe-rm");
    assert_eq!(LEGACY_USER_CONFIG, ".safe-rm");
}

#[test]
fn without_a_home_only_the_places_of_the_system_are_read() {
    assert_eq!(
        config_locations(None),
        vec!["/etc/safe-rm.conf".to_string(), "/usr/local/etc/safe-rm.conf".to_string()]
    );
}

#[test]
fn with_a_home_the_places_of_the_user_come_last() {
    assert_eq!(
        config_locations(Some("/home/alice")),
        vec![
            "/etc/safe-rm.conf".to_string(),
            "/usr/local/etc/safe-rm.conf".to_string(),
            "/home/alice/.config/safe-rm".to_string(),
            "/home/alice/.safe-rm".to_string(),
        ]
    );
}

#[test]
fn a_home_that_ends_in_a_separator_gets_no_second_one() {
    assert_eq!(config_locations(Some("/"))[2..], ["/.config/safe-rm".to_string(), "/.safe-rm".to_string()]);
}

#[test]
fn an_unreadable_line_is_reported_and_protects_nothing() {
    let out = parse_line("/etc/safe-rm.conf", &ConfigLine::Unreadable);
    assert_eq!(out.paths, Vec::<String>::new());
    assert_eq!(
        out.diagnostics,
        vec![Diagnostic::UnreadableLine { filename: "/etc/safe-rm.conf".to_string() }]
    );
}

#[test]
fn an_invalid_line_is_reported_and_protects_nothing() {
    let out = parse_line("/etc/safe-rm.conf", &line("/tmp/a[bc"));
    assert_eq!(out.paths, Vec::<String>::new());
    assert_eq!(
        out.diagnostics,
        vec![Diagnostic::InvalidPattern {
            pattern: "/tmp/a[bc".to_string(),
            filename: "/etc/safe-rm.conf".to_string()
        }]
    );
}

#[test]
fn a_line_protects_the_path_that_it_names() {
    let out = parse_line("conf", &line("/"));
    assert_eq!(out, Expansion { paths: vec!["/".to_string()], diagnostics: vec![] });
}

#[test]
fn a_missing_file_counts_as_empty() {
    let out = read_config("/etc/safe-rm.conf", &ConfigFile::Missing);
    assert_eq!(out, Expansion { paths: vec![], diagnostics: vec![] });
}

#[test]
fn a_file_that_cannot_be_opened_is_reported() {
    let out = read_config("/etc/safe-rm.conf", &ConfigFile::Unopened);
    assert_eq!(out.paths, Vec::<String>::new());
    assert_eq!(
        out.diagnostics,
        vec![Diagnostic::ConfigNotOpened { filename: "/etc/safe-rm.conf".to_string() }]
    );
}

#[test]
fn a_bad_line_does_not_stop_the_lines_behind_it() {
    let file = ConfigFile::Lines(vec![
        line("/tmp/["),
        ConfigLine::Unreadable,
        line("/"),
        line("/no-such-directory-for-safe-rm/*"),
    ]);
    let out = read_config("conf", &file);
    assert_eq!(out.paths, vec!["/".to_string()]);
    assert_eq!(
        out.diagnostics,
        vec![
            Diagnostic::InvalidPattern { pattern: "/tmp/[".to_string(), filename: "conf".to_string() },
            Diagnostic::UnreadableLine { filename: "conf".to_string() },
        ]
    );
}

#[test]
fn a_file_without_lines_protects_nothing() {
    let out = read_config("conf", &ConfigFile::Lines(vec![]));
    assert_eq!(out, Expansion { paths: vec![], diagnostics: vec![] });
}

#[test]
fn gather_adds_the_defaults_to_what_was_found() {
    let all = Expansion {
        paths: vec!["/tmp/keep1".to_string(), "/tmp/keep1".to_string(), "/usr".to_string()],
        diagnostics: vec![Diagnostic::UnreadableLine { filename: "conf".to_string() }],
    };
    let loaded = gather(all);
    assert_eq!(loaded.protected.len(), 27);
    assert!(loaded.protected.contains("/tmp/keep1"));
    assert!(loaded.protected.contains("/usr"));
    assert!(loaded.protected.contains("/var"));
    assert!(!loaded.protected.contains("/tmp"));
    assert_eq!(loaded.diagnostics, vec![Diagnostic::UnreadableLine { filename: "conf".to_string() }]);
}

#[test]
fn the_defaults_are_protected_when_no_file_is_there() {
    let sources = vec![
        source("/etc/safe-rm.conf", ConfigFile::Missing),
        source("/usr/local/etc/safe-rm.conf", ConfigFile::Missing),
    ];
    let loaded = read_config_files(&sources);
    assert_eq!(loaded.protected.len(), 26);
    assert!(loaded.protected.contains("/bin"));
    assert!(loaded.protected.contains("/usr/local/share"));
    assert!(loaded.protected.contains("/var"));
    assert_eq!(loaded.diagnostics, vec![]);
}

#[test]
fn the_defaults_are_protected_when_no_place_is_given() {
    let loaded = read_config_files(&Vec::new());
    assert_eq!(loaded.protected.len(), 26);
    assert!(loaded.protected.contains("/etc"));
}

#[test]
fn the_defaults_are_protected_when_every_file_is_empty_or_broken() {
    let sources = vec![
        source("/etc/safe-rm.conf", ConfigFile::Lines(vec![])),
        source("/usr/local/etc/safe-rm.conf", ConfigFile::Unopened),
        source("/home/a/.config/safe-rm", ConfigFile::Lines(vec![ConfigLine::Unreadable, line("[")])),
    ];
    let loaded = read_config_files(&sources);
    assert_eq!(loaded.protected.len(), 26);
    assert!(loaded.protected.contains("/home"));
    assert_eq!(
        loaded.diagnostics,
        vec![
            Diagnostic::ConfigNotOpened { filename: "/usr/local/etc/safe-rm.conf".to_string() },
            Diagnostic::UnreadableLine { filename: "/home/a/.config/safe-rm".to_string() },
            Diagnostic::InvalidPattern {
                pattern: "[".to_string(),
                filename: "/home/a/.config/safe-rm".to_string()
            },
        ]
    );
}

#[test]
fn reading_the_same_places_twice_protects_the_same() {
    let once = vec![source("a", ConfigFile::Lines(vec![line("/"), line("/usr")]))];
    let twice = vec![
        source("a", ConfigFile::Lines(vec![line("/"), line("/usr")])),
        source("a", ConfigFile::Lines(vec![line("/"), line("/usr")])),
    ];
    let first = read_config_files(&once);
    let second = read_config_files(&twice);
    assert_eq!(first.protected.to_vec(), second.protected.to_vec());
    assert_eq!(first.protected.len(), 27);
    assert!(first.protected.contains("/"));
}

#[test]
fn the_order_of_the_places_does_not_change_what_is_protected() {
    let forth = vec![
        source("a", ConfigFile::Lines(vec![line("/")])),
        source("b", ConfigFile::Lines(vec![line("/no-such-directory-for-safe-rm")])),
        source("c", ConfigFile::Missing),
    ];
    let back = vec![
        source("c", ConfigFile::Missing),
        source("b", ConfigFile::Lines(vec![line("/no-such-directory-for-safe-rm")])),
        source("a", ConfigFile::Lines(vec![line("/")])),
    ];
    let mut left = read_config_files(&forth).protected.to_vec();
    let mut right = read_config_files(&back).protected.to_vec();
    left.sort();
    right.sort();
    assert_eq!(left, right);
    assert_eq!(left.len(), 27);
}
