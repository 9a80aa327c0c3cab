//! Expanding one glob pattern into the paths that it protects: at most
//! `MAX_GLOB_EXPANSION` of them for one pattern, with a diagnostic for each
//! entry that could not be read and one for a pattern that matches more.

use crate::diagnostic::{Diagnostic, DiagnosticView};
use crate::model::{lemma_views_add, lemma_views_push, views};
use vstd::prelude::*;
use vstd::string::*;

verus! {

/// How many paths one pattern may protect.
pub const MAX_GLOB_EXPANSION: usize = 256;

/// One step of an expansion: a path that matches, or the report that
/// something on the way could not be read.
#[derive(Debug, Clone, PartialEq, Eq)]
pub enum GlobEntry {
    Found(String),
    Unreadable,
}

impl View for GlobEntry {
    type V = Option<Seq<char>>;

    open spec fn view(&self) -> Option<Seq<char>> {
        match *self {
            GlobEntry::Found(path) => Some(path@),
            GlobEntry::Unreadable => None,
        }
    }
}

/// What an expansion comes to: the paths to protect, in the order in which
/// they were found, and what there is to report.
#[derive(Debug, Clone, PartialEq, Eq)]
pub struct Expansion {
    pub paths: Vec<String>,
    pub diagnostics: Vec<Diagnostic>,
}

/// An `Expansion` with its texts as sequences of characters.
pub struct ExpansionView {
    pub paths: Seq<Seq<char>>,
    pub diagnostics: Seq<DiagnosticView>,
}

impl View for Expansion {
    type V = ExpansionView;

    open spec fn view(&self) -> ExpansionView {
        ExpansionView { paths: views(self.paths@), diagnostics: views(self.diagnostics@) }
    }
}

impl ExpansionView {
    /// The expansion that found nothing and reports nothing.
    pub open spec fn empty() -> ExpansionView {
        ExpansionView { paths: Seq::empty(), diagnostics: Seq::empty() }
    }

    /// The expansion that found nothing and reports one thing.
    pub open spec fn only(diagnostic: DiagnosticView) -> ExpansionView {
        ExpansionView { paths: Seq::empty(), diagnostics: seq![diagnostic] }
    }

    /// This expansion and then another.
    pub open spec fn followed_by(self, next: ExpansionView) -> ExpansionView {
        ExpansionView {
            paths: self.paths + next.paths,
            diagnostics: self.diagnostics + next.diagnostics,
        }
    }
}

impl Expansion {
    /// The expansion that found nothing and reports nothing.
    pub fn new() -> (out: Expansion)
        ensures
            out@ == ExpansionView::empty(),
    {
        let out = Expansion { paths: Vec::new(), diagnostics: Vec::new() };
        assert(out@.paths =~= Seq::<Seq<char>>::empty());
        assert(out@.diagnostics =~= Seq::<DiagnosticView>::empty());
        out
    }

    /// The expansion that found nothing and reports one thing.
    pub fn only(diagnostic: Diagnostic) -> (out: Expansion)
        ensures
            out@ == ExpansionView::only(diagnostic@),
    {
        let mut diagnostics: Vec<Diagnostic> = Vec::new();
        diagnostics.push(diagnostic);
        let out = Expansion { paths: Vec::new(), diagnostics };
        assert(out@.paths =~= Seq::<Seq<char>>::empty());
        assert(out@.diagnostics =~= seq![diagnostic@]);
        out
    }

    /// Puts another expansion behind this one.
    pub fn absorb(&mut self, next: Expansion)
        ensures
            final(self)@ == old(self)@.followed_by(next@),
    {
        let mut next = next;
        proof {
            lemma_views_add(self.paths@, next.paths@);
            lemma_views_add(self.diagnostics@, next.diagnostics@);
        }
        self.paths.append(&mut next.paths);
        self.diagnostics.append(&mut next.diagnostics);
    }
}

/// The entries that an expansion hands out, in order: the text of a path, or
/// `None` for the report of something that could not be read.
pub type Entries = Seq<Option<Seq<char>>>;

/// Where an expansion stands after some entries: the paths kept, how many
/// entries could not be read, and whether it was cut short.
pub struct Tally {
    pub paths: Seq<Seq<char>>,
    pub unreadable: nat,
    pub cut: bool,
}

/// The entries are taken in order. A path is kept while fewer than
/// `MAX_GLOB_EXPANSION` are held; the first path beyond that cuts the
/// expansion short, and nothing after it is looked at.
pub open spec fn tally(entries: Entries) -> Tally
    decreases entries.len(),
{
    if entries.len() == 0 {
        Tally { paths: Seq::empty(), unreadable: 0, cut: false }
    } else {
        let before = tally(entries.drop_last());
        if before.cut {
            before
        } else {
            match entries.last() {
                None => Tally {
                    paths: before.paths,
                    unreadable: before.unreadable + 1,
                    cut: false,
                },
                Some(path) => if before.paths.len() >= MAX_GLOB_EXPANSION {
                    Tally { paths: before.paths, unreadable: before.unreadable, cut: true }
                } else {
                    Tally {
                        paths: before.paths.push(path),
                        unreadable: before.unreadable,
                        cut: false,
                    }
                },
            }
        }
    }
}

/// One report of an unreadable path for each of `count` entries.
pub open spec fn unreadable_reports(count: nat, filename: Seq<char>, pattern: Seq<char>) -> Seq<
    DiagnosticView,
> {
    Seq::new(count, |i: int| DiagnosticView::UnreadablePath { pattern, filename })
}

/// What the entries of one pattern come to: the paths of the tally, a report
/// for each unreadable entry, and at the end the report of the cut if there
/// was one.
pub open spec fn expansion_of(
    filename: Seq<char>,
    pattern: Seq<char>,
    entries: Entries,
) -> ExpansionView {
    let count = tally(entries);
    let reports = unreadable_reports(count.unreadable, filename, pattern);
    ExpansionView {
        paths: count.paths,
        diagnostics: if count.cut {
            reports.push(DiagnosticView::ExpansionCut { pattern, filename })
        } else {
            reports
        },
    }
}

/// The paths among the entries, in order.
pub open spec fn readable(entries: Entries) -> Seq<Seq<char>>
    decreases entries.len(),
{
    if entries.len() == 0 {
        Seq::empty()
    } else {
        match entries.last() {
            Some(path) => readable(entries.drop_last()).push(path),
            None => readable(entries.drop_last()),
        }
    }
}

/// The first `MAX_GLOB_EXPANSION` items of a sequence, or all of it.
pub open spec fn capped(paths: Seq<Seq<char>>) -> Seq<Seq<char>> {
    if paths.len() <= MAX_GLOB_EXPANSION {
        paths
    } else {
        paths.take(MAX_GLOB_EXPANSION as int)
    }
}

/// An expansion keeps the first paths among its entries, up to the limit and
/// never more, and it is cut short exactly when there are more.
pub proof fn lemma_expansion_is_capped(entries: Entries)
    ensures
        tally(entries).paths == capped(readable(entries)),
        tally(entries).paths.len() <= MAX_GLOB_EXPANSION,
        tally(entries).cut <==> readable(entries).len() > MAX_GLOB_EXPANSION,
    decreases entries.len(),
{
    if entries.len() > 0 {
        let before = entries.drop_last();
        lemma_expansion_is_capped(before);
        match entries.last() {
            Some(path) => {
                if tally(before).cut {
                    assert(readable(before).push(path).take(MAX_GLOB_EXPANSION as int)
                        =~= readable(before).take(MAX_GLOB_EXPANSION as int));
                } else if tally(before).paths.len() >= MAX_GLOB_EXPANSION {
                    assert(readable(before).push(path).take(MAX_GLOB_EXPANSION as int)
                        =~= readable(before));
                }
            },
            None => {},
        }
    }
}

/// An expansion that is not cut short reports each unreadable entry once; one
/// that is cut short reports no more than there are.
pub proof fn lemma_unreadable_entries_are_reported(entries: Entries)
    ensures
        readable(entries).len() <= entries.len(),
        tally(entries).unreadable <= entries.len() - readable(entries).len(),
        !tally(entries).cut ==> tally(entries).unreadable == entries.len() - readable(
            entries,
        ).len(),
    decreases entries.len(),
{
    if entries.len() > 0 {
        lemma_unreadable_entries_are_reported(entries.drop_last());
        lemma_expansion_is_capped(entries.drop_last());
    }
}

/// Once an expansion is cut short, the entries that follow change nothing.
pub proof fn lemma_cut_is_final(entries: Entries, seen: int)
    requires
        0 <= seen <= entries.len(),
        tally(entries.take(seen)).cut,
    ensures
        tally(entries) == tally(entries.take(seen)),
    decreases entries.len() - seen,
{
    if seen == entries.len() {
        assert(entries.take(seen) =~= entries);
    } else {
        assert(entries.drop_last().take(seen) =~= entries.take(seen));
        lemma_cut_is_final(entries.drop_last(), seen);
    }
}

/// Takes one more entry into an expansion that holds what `seen` came to, and
/// says whether the expansion goes on.
fn record_entry(
    expansion: &mut Expansion,
    entry: &GlobEntry,
    filename: &str,
    pattern: &str,
    Ghost(seen): Ghost<Entries>,
) -> (more: bool)
    requires
        old(expansion)@ == expansion_of(filename@, pattern@, seen),
        !tally(seen).cut,
    ensures
        final(expansion)@ == expansion_of(filename@, pattern@, seen.push(entry@)),
        more == !tally(seen.push(entry@)).cut,
{
    proof {
        assert(seen.push(entry@).drop_last() =~= seen);
    }
    let ghost reports = unreadable_reports(tally(seen).unreadable, filename@, pattern@);
    match entry {
        GlobEntry::Unreadable => {
            let report = Diagnostic::UnreadablePath {
                pattern: String::from_str(pattern),
                filename: String::from_str(filename),
            };
            proof {
                lemma_views_push(expansion.diagnostics@, report);
                assert(reports.push(report@) =~= unreadable_reports(
                    tally(seen).unreadable + 1,
                    filename@,
                    pattern@,
                ));
            }
            expansion.diagnostics.push(report);
            true
        },
        GlobEntry::Found(path) => {
            if expansion.paths.len() >= MAX_GLOB_EXPANSION {
                let report = Diagnostic::ExpansionCut {
                    pattern: String::from_str(pattern),
                    filename: String::from_str(filename),
                };
                proof {
                    lemma_views_push(expansion.diagnostics@, report);
                }
                expansion.diagnostics.push(report);
                false
            } else {
                let kept: String = path.clone();
                proof {
                    lemma_views_push(expansion.paths@, kept);
                }
                expansion.paths.push(kept);
                true
            }
        },
    }
}

/// What a list of entries found for `pattern`, a line of `filename`, comes to.
pub fn expand_entries(filename: &str, pattern: &str, entries: &Vec<GlobEntry>) -> (out: Expansion)
    ensures
        out@ == expansion_of(filename@, pattern@, views(entries@)),
        out@.paths == capped(readable(views(entries@))),
        out.paths@.len() <= MAX_GLOB_EXPANSION,
        readable(views(entries@)).len() > MAX_GLOB_EXPANSION ==> {
            &&& out.paths@.len() == MAX_GLOB_EXPANSION
            &&& out@.diagnostics.len() > 0
            &&& out@.diagnostics.last() == (DiagnosticView::ExpansionCut {
                pattern: pattern@,
                filename: filename@,
            })
        },
        readable(views(entries@)).len() <= MAX_GLOB_EXPANSION ==> out@.diagnostics
            == unreadable_reports(
            (entries.len() - readable(views(entries@)).len()) as nat,
            filename@,
            pattern@,
        ),
{
    let ghost all = views(entries@);
    let mut out = Expansion { paths: Vec::new(), diagnostics: Vec::new() };
    let mut i: usize = 0;
    let mut more: bool = true;
    proof {
        assert(out@.paths =~= Seq::<Seq<char>>::empty());
        assert(out@.diagnostics =~= unreadable_reports(0, filename@, pattern@));
    }
    while more && i < entries.len()
        invariant
            i <= entries.len(),
            all == views(entries@),
            out@ == expansion_of(filename@, pattern@, all.take(i as int)),
            more == !tally(all.take(i as int)).cut,
        decreases entries.len() - i,
    {
        more = record_entry(&mut out, &entries[i], filename, pattern, Ghost(all.take(i as int)));
        proof {
            assert(all.take(i as int).push(entries[i as int]@) =~= all.take(i + 1));
        }
        i += 1;
    }
    proof {
        if more {
            assert(all.take(i as int) =~= all);
        } else {
            lemma_cut_is_final(all, i as int);
        }
        lemma_expansion_is_capped(all);
        lemma_unreadable_entries_are_reported(all);
    }
    out
}

/// `glob::Paths`: a running expansion, the iterator that `glob::glob` hands
/// back. Nothing is known of what is inside it.
#[verifier::external_type_specification]
#[verifier::external_body]
pub struct ExPaths(glob::Paths);

/// `glob::GlobError`: the error that a running expansion hands out for what
/// it could not read. It is named by the items of `glob::Paths` and never
/// looked into.
#[verifier::external_type_specification]
#[verifier::external_body]
pub struct ExGlobError(glob::GlobError);

/// `std::path::PathBuf`: the path that a running expansion hands out for a
/// match. It is named by the items of `glob::Paths`; the library takes its
/// text and nothing else.
#[verifier::external_type_specification]
#[verifier::external_body]
pub struct ExPathBuf(std::path::PathBuf);

/// Whether `glob::glob` takes a pattern. It refuses what `glob::Pattern::new`
/// refuses, of the whole pattern or of one of its segments: three or more `*`
/// in a row, a `**` that is not a segment of its own, a `[` that is not
/// closed.
pub uninterp spec fn glob_accepts(pattern: Seq<char>) -> bool;

/// `glob::glob`: starts the expansion of a pattern, or hands back nothing
/// where the pattern is refused. Nothing is read from the filesystem to tell
/// the one from the other, and nothing is said here of what the expansion
/// will find.
#[verifier::external_body]
fn start_expansion(pattern: &str) -> (paths: Option<glob::Paths>)
    ensures
        paths.is_some() == glob_accepts(pattern@),
{
    glob::glob(pattern).ok()
}

/// `Iterator::next` of `glob::Paths`: the next entry of a running expansion,
/// or nothing when it has come to its end. What comes is for the filesystem
/// to say, so nothing is claimed of it. A path comes as text; bytes that are
/// no UTF-8 come as U+FFFD.
#[verifier::external_body]
fn next_entry(paths: &mut glob::Paths) -> (entry: Option<GlobEntry>) {
    match paths.next() {
        Some(Ok(path)) => Some(GlobEntry::Found(path.to_string_lossy().into_owned())),
        Some(Err(_)) => Some(GlobEntry::Unreadable),
        None => None,
    }
}

/// What the entries that a running expansion hands out come to. The
/// expansion is asked for no entry once it is cut short, and for no more than
/// `usize::MAX` entries in all, which bounds the loop.
fn collect_paths(filename: &str, pattern: &str, paths: glob::Paths) -> (out: Expansion)
    ensures
        exists|entries: Entries| out@ == #[trigger] expansion_of(filename@, pattern@, entries),
{
    let ghost mut seen = Entries::empty();
    let mut paths = paths;
    let mut out = Expansion { paths: Vec::new(), diagnostics: Vec::new() };
    let mut more: bool = true;
    let mut budget: usize = usize::MAX;
    proof {
        assert(out@.paths =~= Seq::<Seq<char>>::empty());
        assert(out@.diagnostics =~= unreadable_reports(0, filename@, pattern@));
    }
    while more && budget > 0
        invariant
            out@ == expansion_of(filename@, pattern@, seen),
            more ==> !tally(seen).cut,
        decreases budget,
    {
        budget -= 1;
        match next_entry(&mut paths) {
            Some(entry) => {
                more = record_entry(&mut out, &entry, filename, pattern, Ghost(seen));
                proof {
                    seen = seen.push(entry@);
                }
            },
            None => {
                more = false;
            },
        }
    }
    out
}

/// What a pattern comes to, given the entries that its expansion hands out:
/// their expansion, or the report that the pattern is refused.
pub open spec fn pattern_outcome(
    filename: Seq<char>,
    pattern: Seq<char>,
    entries: Entries,
) -> ExpansionView {
    if glob_accepts(pattern) {
        expansion_of(filename, pattern, entries)
    } else {
        ExpansionView::only(DiagnosticView::InvalidPattern { pattern, filename })
    }
}

/// Expands `pattern`, a line of `filename`, against the filesystem. What the
/// pattern matches is for the filesystem to say; whatever it says, the result
/// is what those entries come to, and holds no more paths than the limit.
pub fn expand_pattern(filename: &str, pattern: &str) -> (out: Expansion)
    ensures
        exists|entries: Entries|
            out@ == #[trigger] pattern_outcome(filename@, pattern@, entries),
        out.paths@.len() <= MAX_GLOB_EXPANSION,
{
    match start_expansion(pattern) {
        Some(paths) => {
            let out = collect_paths(filename, pattern, paths);
            proof {
                let entries = choose|entries: Entries|
                    out@ == #[trigger] expansion_of(filename@, pattern@, entries);
                lemma_expansion_is_capped(entries);
                assert(out@ == pattern_outcome(filename@, pattern@, entries));
            }
            out
        },
        None => {
            let out = Expansion::only(
                Diagnostic::InvalidPattern {
                    pattern: String::from_str(pattern),
                    filename: String::from_str(filename),
                },
            );
            proof {
                assert(out@ == pattern_outcome(filename@, pattern@, Seq::empty()));
                assert(out@.paths.len() == out.paths@.len());
            }
            out
        },
    }
}

} // verus!
