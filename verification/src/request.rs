//! A deletion request, screened: the configuration is read, the arguments
//! are filtered against what it protects, and what is left is what the real
//! command is to be called with.

use crate::config::{read_config_files, sources_outcome, ConfigSource};
use crate::expansion::{Entries, ExpansionView};
use crate::filter::{
    filter_arguments, filtered_of, is_protected, lemma_positions, positions_of, Argument,
    ArgumentView, Filtered, FilteredView,
};
use crate::model::{lemma_views_add, views};
use crate::normalize::normalized;
use crate::protected::{default_paths, protected_set};
use vstd::prelude::*;

verus! {

/// What screening leaves of a request, given what the configuration comes
/// to: the arguments filtered against the paths found and the built-in ones,
/// with the reports of the configuration before those of the filter.
pub open spec fn screened_of(arguments: Seq<ArgumentView>, all: ExpansionView) -> FilteredView {
    let left = filtered_of(arguments, protected_set(all.paths));
    FilteredView {
        forwarded: left.forwarded,
        positions: left.positions,
        diagnostics: all.diagnostics + left.diagnostics,
    }
}

/// An argument whose normal form is a built-in path is never handed on,
/// whatever the configuration comes to.
pub proof fn lemma_defaults_are_never_forwarded(
    arguments: Seq<ArgumentView>,
    all: ExpansionView,
    i: int,
)
    requires
        0 <= i < arguments.len(),
        default_paths().contains(normalized(arguments[i].text, arguments[i].status)),
    ensures
        !screened_of(arguments, all).positions.contains(i),
{
    let protected = protected_set(all.paths);
    let places = positions_of(arguments, protected, false);
    lemma_positions(arguments, protected, false);
    assert(is_protected(arguments[i], protected));
    if places.contains(i) {
        let k = choose|k: int| 0 <= k < places.len() && places[k] == i;
        assert(!is_protected(arguments[places[k]], protected));
    }
}

/// Screens a request: reads the configuration from what was found in each
/// place, and filters the arguments against what it protects. What the
/// patterns of the configuration match is for the filesystem to say;
/// whatever it says, an argument whose normal form is a built-in path is not
/// handed on.
pub fn screen_request(arguments: &Vec<Argument>, sources: &Vec<ConfigSource>) -> (out: Filtered)
    ensures
        exists|found: Seq<Seq<Entries>>|
            found.len() == sources.len() && out@ == screened_of(
                views(arguments@),
                #[trigger] sources_outcome(views(sources@), found),
            ),
        forall|i: int|
            0 <= i < arguments.len() && default_paths().contains(
                normalized(arguments[i]@.text, arguments[i]@.status),
            ) ==> !out@.positions.contains(i),
{
    let loaded = read_config_files(sources);
    let ghost found = choose|found: Seq<Seq<Entries>>|
        found.len() == sources.len() && loaded@ == crate::config::gathered(
            #[trigger] sources_outcome(views(sources@), found),
        );
    let ghost all = sources_outcome(views(sources@), found);
    let left = filter_arguments(arguments, &loaded.protected);
    let mut diagnostics = loaded.diagnostics;
    let mut reports = left.diagnostics;
    proof {
        lemma_views_add(diagnostics@, reports@);
    }
    diagnostics.append(&mut reports);
    let out = Filtered { forwarded: left.forwarded, positions: left.positions, diagnostics };
    proof {
        assert(out@ == screened_of(views(arguments@), all));
        assert forall|i: int|
            0 <= i < arguments.len() && default_paths().contains(
                normalized(arguments[i]@.text, arguments[i]@.status),
            ) implies !out@.positions.contains(i) by {
            lemma_defaults_are_never_forwarded(views(arguments@), all, i);
        }
    }
    out
}

} // verus!
