//! The configuration: where its files lie, what was found there, and the
//! paths that their lines protect. Each line of a file is a glob pattern.
//! A file that is missing counts as empty; a file or a line that cannot be
//! read, and a line that is no pattern, are reported and passed over.

use crate::diagnostic::{Diagnostic, DiagnosticView};
use crate::expansion::{
    expand_pattern, pattern_outcome, Entries, Expansion, ExpansionView, MAX_GLOB_EXPANSION,
};
use crate::model::views;
use crate::path::{join, joined};
use crate::protected::{
    default_paths, lemma_defaults_always_protected, lemma_protection_is_idempotent,
    lemma_protection_is_order_independent, protect, protected_set, ProtectedPaths,
};
use vstd::prelude::*;
use vstd::string::*;

verus! {

/// The configuration file of the system.
pub const GLOBAL_CONFIG: &'static str = "/etc/safe-rm.conf";

/// The configuration file of the system where it is installed under
/// `/usr/local`.
pub const LOCAL_GLOBAL_CONFIG: &'static str = "/usr/local/etc/safe-rm.conf";

/// The configuration file of a user, below the home directory.
pub const USER_CONFIG: &'static str = ".config/safe-rm";

/// The configuration file of a user in its older place, below the home
/// directory.
pub const LEGACY_USER_CONFIG: &'static str = ".safe-rm";

/// One line of a configuration file, as it was read.
#[derive(Debug, Clone, PartialEq, Eq)]
pub enum ConfigLine {
    Text(String),
    Unreadable,
}

impl View for ConfigLine {
    type V = Option<Seq<char>>;

    open spec fn view(&self) -> Option<Seq<char>> {
        match *self {
            ConfigLine::Text(text) => Some(text@),
            ConfigLine::Unreadable => None,
        }
    }
}

/// What was found where a configuration file may lie.
#[derive(Debug, Clone, PartialEq, Eq)]
pub enum ConfigFile {
    /// No file is there.
    Missing,
    /// A file is there and could not be opened.
    Unopened,
    /// The lines of the file.
    Lines(Vec<ConfigLine>),
}

/// A `ConfigFile` with its lines as sequences of characters.
pub enum ConfigFileView {
    Missing,
    Unopened,
    Lines(Seq<Option<Seq<char>>>),
}

impl View for ConfigFile {
    type V = ConfigFileView;

    open spec fn view(&self) -> ConfigFileView {
        match *self {
            ConfigFile::Missing => ConfigFileView::Missing,
            ConfigFile::Unopened => ConfigFileView::Unopened,
            ConfigFile::Lines(lines) => ConfigFileView::Lines(views(lines@)),
        }
    }
}

impl ConfigFileView {
    /// The lines that were read, none where no file was read.
    pub open spec fn lines(self) -> Seq<Option<Seq<char>>> {
        match self {
            ConfigFileView::Lines(lines) => lines,
            _ => Seq::empty(),
        }
    }
}

/// A place where a configuration file may lie, and what was found there.
#[derive(Debug, Clone, PartialEq, Eq)]
pub struct ConfigSource {
    pub filename: String,
    pub file: ConfigFile,
}

/// A `ConfigSource` with its texts as sequences of characters.
pub struct ConfigSourceView {
    pub filename: Seq<char>,
    pub file: ConfigFileView,
}

impl View for ConfigSource {
    type V = ConfigSourceView;

    open spec fn view(&self) -> ConfigSourceView {
        ConfigSourceView { filename: self.filename@, file: self.file@ }
    }
}

/// The protected paths and what there is to report of the configuration.
#[derive(Debug)]
pub struct Loaded {
    pub protected: ProtectedPaths,
    pub diagnostics: Vec<Diagnostic>,
}

/// A `Loaded` with its paths as a set and its texts as sequences of
/// characters.
pub struct LoadedView {
    pub protected: Set<Seq<char>>,
    pub diagnostics: Seq<DiagnosticView>,
}

impl View for Loaded {
    type V = LoadedView;

    open spec fn view(&self) -> LoadedView {
        LoadedView { protected: self.protected@, diagnostics: views(self.diagnostics@) }
    }
}

/// Where the configuration files lie, in the order in which they are read:
/// the two of the system, then the two of the user, if a home directory is
/// known.
pub open spec fn locations_of(home: Option<Seq<char>>) -> Seq<Seq<char>> {
    match home {
        Some(dir) => seq![
            GLOBAL_CONFIG@,
            LOCAL_GLOBAL_CONFIG@,
            joined(dir, USER_CONFIG@),
            joined(dir, LEGACY_USER_CONFIG@),
        ],
        None => seq![GLOBAL_CONFIG@, LOCAL_GLOBAL_CONFIG@],
    }
}

/// What one line comes to, given the entries that its expansion hands out: a
/// report for a line that could not be read, else what its pattern comes to.
pub open spec fn line_outcome(
    filename: Seq<char>,
    line: Option<Seq<char>>,
    entries: Entries,
) -> ExpansionView {
    match line {
        Some(pattern) => pattern_outcome(filename, pattern, entries),
        None => ExpansionView::only(DiagnosticView::UnreadableLine { filename }),
    }
}

/// What the lines of one file come to, one after the other, given for each
/// line the entries that its expansion hands out.
pub open spec fn lines_outcome(
    filename: Seq<char>,
    lines: Seq<Option<Seq<char>>>,
    found: Seq<Entries>,
) -> ExpansionView
    decreases lines.len(),
{
    if lines.len() == 0 {
        ExpansionView::empty()
    } else {
        lines_outcome(filename, lines.drop_last(), found.drop_last()).followed_by(
            line_outcome(filename, lines.last(), found.last()),
        )
    }
}

/// What one place comes to: nothing where no file is, a report where the
/// file could not be opened, else what its lines come to.
pub open spec fn file_outcome(
    filename: Seq<char>,
    file: ConfigFileView,
    found: Seq<Entries>,
) -> ExpansionView {
    match file {
        ConfigFileView::Missing => ExpansionView::empty(),
        ConfigFileView::Unopened => ExpansionView::only(
            DiagnosticView::ConfigNotOpened { filename },
        ),
        ConfigFileView::Lines(lines) => lines_outcome(filename, lines, found),
    }
}

/// What all places come to, one after the other, given for each line of each
/// file the entries that its expansion hands out.
pub open spec fn sources_outcome(
    sources: Seq<ConfigSourceView>,
    found: Seq<Seq<Entries>>,
) -> ExpansionView
    decreases sources.len(),
{
    if sources.len() == 0 {
        ExpansionView::empty()
    } else {
        sources_outcome(sources.drop_last(), found.drop_last()).followed_by(
            file_outcome(sources.last().filename, sources.last().file, found.last()),
        )
    }
}

/// What is protected and what is reported, once all places are read: the
/// paths found and the built-in ones, and the reports as they came.
pub open spec fn gathered(all: ExpansionView) -> LoadedView {
    LoadedView { protected: protected_set(all.paths), diagnostics: all.diagnostics }
}

/// What two lists of places come to, one behind the other, is what the first
/// comes to and then what the second comes to.
pub proof fn lemma_sources_outcome_add(
    first: Seq<ConfigSourceView>,
    first_found: Seq<Seq<Entries>>,
    second: Seq<ConfigSourceView>,
    second_found: Seq<Seq<Entries>>,
)
    requires
        first.len() == first_found.len(),
        second.len() == second_found.len(),
    ensures
        sources_outcome(first + second, first_found + second_found) == sources_outcome(
            first,
            first_found,
        ).followed_by(sources_outcome(second, second_found)),
    decreases second.len(),
{
    let whole = sources_outcome(first + second, first_found + second_found);
    let parts = sources_outcome(first, first_found).followed_by(
        sources_outcome(second, second_found),
    );
    if second.len() == 0 {
        assert(first + second =~= first);
        assert(first_found + second_found =~= first_found);
    } else {
        assert((first + second).drop_last() =~= first + second.drop_last());
        assert((first_found + second_found).drop_last() =~= first_found
            + second_found.drop_last());
        lemma_sources_outcome_add(
            first,
            first_found,
            second.drop_last(),
            second_found.drop_last(),
        );
    }
    assert(whole.paths =~= parts.paths);
    assert(whole.diagnostics =~= parts.diagnostics);
}

/// Reading the same places twice, and finding the same there, protects what
/// reading them once protects.
pub proof fn lemma_loading_is_idempotent(
    sources: Seq<ConfigSourceView>,
    found: Seq<Seq<Entries>>,
)
    requires
        sources.len() == found.len(),
    ensures
        gathered(sources_outcome(sources + sources, found + found)).protected == gathered(
            sources_outcome(sources, found),
        ).protected,
{
    lemma_sources_outcome_add(sources, found, sources, found);
    lemma_protection_is_idempotent(sources_outcome(sources, found).paths);
}

/// The order in which places are read has no part in what is protected.
pub proof fn lemma_loading_is_order_independent(
    first: Seq<ConfigSourceView>,
    first_found: Seq<Seq<Entries>>,
    second: Seq<ConfigSourceView>,
    second_found: Seq<Seq<Entries>>,
)
    requires
        first.len() == first_found.len(),
        second.len() == second_found.len(),
    ensures
        gathered(sources_outcome(first + second, first_found + second_found)).protected
            == gathered(sources_outcome(second + first, second_found + first_found)).protected,
{
    lemma_sources_outcome_add(first, first_found, second, second_found);
    lemma_sources_outcome_add(second, second_found, first, first_found);
    lemma_protection_is_order_independent(
        sources_outcome(first, first_found).paths,
        sources_outcome(second, second_found).paths,
    );
}

/// The built-in paths are protected whatever the configuration holds.
pub proof fn lemma_loading_keeps_defaults(all: ExpansionView, i: int)
    requires
        0 <= i < default_paths().len(),
    ensures
        gathered(all).protected.contains(default_paths()[i]),
{
    lemma_defaults_always_protected(all.paths, i);
}

/// Where the configuration files lie, in the order in which they are read.
/// Those of the user are left out when no home directory is known.
pub fn config_locations(home: Option<&str>) -> (locations: Vec<String>)
    ensures
        views(locations@) == locations_of(
            match home {
                Some(dir) => Some(dir@),
                None => None,
            },
        ),
{
    let mut locations: Vec<String> = Vec::new();
    locations.push(String::from_str(GLOBAL_CONFIG));
    locations.push(String::from_str(LOCAL_GLOBAL_CONFIG));
    match home {
        Some(dir) => {
            locations.push(join(dir, USER_CONFIG));
            locations.push(join(dir, LEGACY_USER_CONFIG));
            assert(views(locations@) =~= locations_of(Some(dir@)));
        },
        None => {
            assert(views(locations@) =~= locations_of(None));
        },
    }
    locations
}

/// The paths that one line of `filename` protects. What its pattern matches
/// is for the filesystem to say; whatever it says, the result is what the
/// line comes to for those entries.
pub fn parse_line(filename: &str, line: &ConfigLine) -> (out: Expansion)
    ensures
        exists|entries: Entries| out@ == #[trigger] line_outcome(filename@, line@, entries),
        out.paths@.len() <= MAX_GLOB_EXPANSION,
{
    match line {
        ConfigLine::Text(pattern) => {
            let out = expand_pattern(filename, pattern.as_str());
            proof {
                let entries = choose|entries: Entries|
                    out@ == #[trigger] pattern_outcome(filename@, pattern@, entries);
                assert(out@ == line_outcome(filename@, line@, entries));
            }
            out
        },
        ConfigLine::Unreadable => {
            let out = Expansion::only(
                Diagnostic::UnreadableLine { filename: String::from_str(filename) },
            );
            assert(out@ == line_outcome(filename@, line@, Seq::empty()));
            assert(out@.paths.len() == out.paths@.len());
            out
        },
    }
}

/// The paths that the file found at `filename` protects, line by line.
pub fn read_config(filename: &str, file: &ConfigFile) -> (out: Expansion)
    ensures
        exists|found: Seq<Entries>|
            found.len() == file@.lines().len() && out@ == #[trigger] file_outcome(
                filename@,
                file@,
                found,
            ),
{
    match file {
        ConfigFile::Missing => {
            let out = Expansion::new();
            assert(out@ == file_outcome(filename@, file@, Seq::empty()));
            out
        },
        ConfigFile::Unopened => {
            let out = Expansion::only(
                Diagnostic::ConfigNotOpened { filename: String::from_str(filename) },
            );
            assert(out@ == file_outcome(filename@, file@, Seq::empty()));
            out
        },
        ConfigFile::Lines(lines) => {
            let ghost all = views(lines@);
            let ghost mut found = Seq::<Entries>::empty();
            let mut out = Expansion::new();
            let mut i: usize = 0;
            while i < lines.len()
                invariant
                    i <= lines.len(),
                    all == views(lines@),
                    found.len() == i,
                    out@ == lines_outcome(filename@, all.take(i as int), found),
                decreases lines.len() - i,
            {
                let line_out = parse_line(filename, &lines[i]);
                proof {
                    let entries = choose|entries: Entries|
                        line_out@ == #[trigger] line_outcome(filename@, lines[i as int]@, entries);
                    assert(all.take(i + 1).drop_last() =~= all.take(i as int));
                    assert(found.push(entries).drop_last() =~= found);
                    found = found.push(entries);
                }
                out.absorb(line_out);
                i += 1;
            }
            proof {
                assert(all.take(i as int) =~= all);
                assert(out@ == file_outcome(filename@, file@, found));
            }
            out
        },
    }
}

/// The protected paths for what was found in all places: the paths found and
/// the built-in ones, each held once.
pub fn gather(all: Expansion) -> (loaded: Loaded)
    ensures
        loaded.protected.wf(),
        loaded@ == gathered(all@),
{
    let protected = protect(&all.paths);
    Loaded { protected, diagnostics: all.diagnostics }
}

/// Reads the configuration from what was found in each place, in order. The
/// built-in paths are protected whatever was found.
pub fn read_config_files(sources: &Vec<ConfigSource>) -> (loaded: Loaded)
    ensures
        loaded.protected.wf(),
        exists|found: Seq<Seq<Entries>>|
            found.len() == sources.len() && loaded@ == gathered(
                #[trigger] sources_outcome(views(sources@), found),
            ),
        forall|i: int|
            0 <= i < default_paths().len() ==> loaded.protected@.contains(default_paths()[i]),
{
    let ghost all = views(sources@);
    let ghost mut found = Seq::<Seq<Entries>>::empty();
    let mut out = Expansion::new();
    let mut i: usize = 0;
    while i < sources.len()
        invariant
            i <= sources.len(),
            all == views(sources@),
            found.len() == i,
            out@ == sources_outcome(all.take(i as int), found),
        decreases sources.len() - i,
    {
        let file_out = read_config(sources[i].filename.as_str(), &sources[i].file);
        proof {
            let lines = choose|lines: Seq<Entries>|
                lines.len() == sources[i as int].file@.lines().len() && file_out@
                    == #[trigger] file_outcome(
                    sources[i as int].filename@,
                    sources[i as int].file@,
                    lines,
                );
            assert(all.take(i + 1).drop_last() =~= all.take(i as int));
            assert(found.push(lines).drop_last() =~= found);
            found = found.push(lines);
        }
        out.absorb(file_out);
        i += 1;
    }
    proof {
        assert(all.take(i as int) =~= all);
    }
    let loaded = gather(out);
    proof {
        assert(loaded@ == gathered(sources_outcome(views(sources@), found)));
    }
    loaded
}

} // verus!
