//! Filtering the arguments of a deletion request: an argument whose normal
//! form is protected is dropped and reported, every other argument is handed
//! on as it was written, in its place among the others.

use crate::diagnostic::{Diagnostic, DiagnosticView};
use crate::model::{lemma_views_push, views};
use crate::normalize::{normalize_path, normalized, PathStatus, PathStatusView};
use crate::protected::ProtectedPaths;
use vstd::prelude::*;
use vstd::string::*;

verus! {

/// One argument of the request: its text, and what the filesystem says of
/// the path that the text names.
#[derive(Debug, Clone, PartialEq, Eq)]
pub struct Argument {
    pub text: String,
    pub status: PathStatus,
}

/// An `Argument` with its texts as sequences of characters.
pub struct ArgumentView {
    pub text: Seq<char>,
    pub status: PathStatusView,
}

impl View for Argument {
    type V = ArgumentView;

    open spec fn view(&self) -> ArgumentView {
        ArgumentView { text: self.text@, status: self.status@ }
    }
}

/// What is left of a request: the texts to hand on, the place that each of
/// them had in the request, and a report for each argument that was dropped.
#[derive(Debug, Clone, PartialEq, Eq)]
pub struct Filtered {
    pub forwarded: Vec<String>,
    pub positions: Vec<usize>,
    pub diagnostics: Vec<Diagnostic>,
}

/// A `Filtered` with its texts as sequences of characters.
pub struct FilteredView {
    pub forwarded: Seq<Seq<char>>,
    pub positions: Seq<int>,
    pub diagnostics: Seq<DiagnosticView>,
}

impl View for Filtered {
    type V = FilteredView;

    open spec fn view(&self) -> FilteredView {
        FilteredView {
            forwarded: views(self.forwarded@),
            positions: self.positions@.map_values(|position: usize| position as int),
            diagnostics: views(self.diagnostics@),
        }
    }
}

/// An argument is protected when its normal form is a protected path.
pub open spec fn is_protected(argument: ArgumentView, protected: Set<Seq<char>>) -> bool {
    protected.contains(normalized(argument.text, argument.status))
}

/// The places of the arguments that are protected (`guarded`) or that are
/// not (`!guarded`), in rising order.
pub open spec fn positions_of(
    arguments: Seq<ArgumentView>,
    protected: Set<Seq<char>>,
    guarded: bool,
) -> Seq<int>
    decreases arguments.len(),
{
    if arguments.len() == 0 {
        Seq::empty()
    } else {
        let before = positions_of(arguments.drop_last(), protected, guarded);
        if is_protected(arguments.last(), protected) == guarded {
            before.push(arguments.len() - 1)
        } else {
            before
        }
    }
}

/// The texts of the arguments that are not protected, in order.
pub open spec fn forwarded_of(arguments: Seq<ArgumentView>, protected: Set<Seq<char>>) -> Seq<
    Seq<char>,
>
    decreases arguments.len(),
{
    if arguments.len() == 0 {
        Seq::empty()
    } else {
        let before = forwarded_of(arguments.drop_last(), protected);
        if is_protected(arguments.last(), protected) {
            before
        } else {
            before.push(arguments.last().text)
        }
    }
}

/// One report for each argument that is protected, in order, with the text
/// of the argument as it was written.
pub open spec fn skipped_of(arguments: Seq<ArgumentView>, protected: Set<Seq<char>>) -> Seq<
    DiagnosticView,
>
    decreases arguments.len(),
{
    if arguments.len() == 0 {
        Seq::empty()
    } else {
        let before = skipped_of(arguments.drop_last(), protected);
        if is_protected(arguments.last(), protected) {
            before.push(DiagnosticView::Skipped { argument: arguments.last().text })
        } else {
            before
        }
    }
}

/// What filtering leaves of a request.
pub open spec fn filtered_of(
    arguments: Seq<ArgumentView>,
    protected: Set<Seq<char>>,
) -> FilteredView {
    FilteredView {
        forwarded: forwarded_of(arguments, protected),
        positions: positions_of(arguments, protected, false),
        diagnostics: skipped_of(arguments, protected),
    }
}

/// The places of the arguments of one kind are places of the request, rise
/// strictly, hold arguments of that kind only, and leave none of them out.
pub proof fn lemma_positions(
    arguments: Seq<ArgumentView>,
    protected: Set<Seq<char>>,
    guarded: bool,
)
    ensures
        forall|k: int|
            0 <= k < positions_of(arguments, protected, guarded).len() ==> {
                let at = #[trigger] positions_of(arguments, protected, guarded)[k];
                0 <= at < arguments.len() && is_protected(arguments[at], protected) == guarded
            },
        forall|j: int, k: int|
            0 <= j < k < positions_of(arguments, protected, guarded).len() ==> positions_of(
                arguments,
                protected,
                guarded,
            )[j] < positions_of(arguments, protected, guarded)[k],
        forall|i: int|
            0 <= i < arguments.len() && is_protected(#[trigger] arguments[i], protected)
                == guarded ==> positions_of(arguments, protected, guarded).contains(i),
    decreases arguments.len(),
{
    if arguments.len() > 0 {
        let shorter = arguments.drop_last();
        let before = positions_of(shorter, protected, guarded);
        let all = positions_of(arguments, protected, guarded);
        lemma_positions(shorter, protected, guarded);
        assert forall|i: int|
            0 <= i < arguments.len() && is_protected(#[trigger] arguments[i], protected)
                == guarded implies all.contains(i) by {
            if i < shorter.len() {
                assert(shorter[i] == arguments[i]);
                let k = choose|k: int| 0 <= k < before.len() && before[k] == i;
                assert(all[k] == i);
            } else {
                assert(all[all.len() - 1] == i);
            }
        }
        assert forall|k: int| 0 <= k < all.len() implies {
            let at = #[trigger] all[k];
            0 <= at < arguments.len() && is_protected(arguments[at], protected) == guarded
        } by {
            if k < before.len() {
                assert(all[k] == before[k]);
                assert(shorter[before[k]] == arguments[before[k]]);
            }
        }
        assert forall|j: int, k: int| 0 <= j < k < all.len() implies all[j] < all[k] by {
            assert(all[j] == before[j]);
            if k < before.len() {
                assert(all[k] == before[k]);
            }
        }
    }
}

/// An argument that is not protected is handed on as it was written: the
/// texts handed on are the texts at the places of the unprotected arguments,
/// in the order of the request.
pub proof fn lemma_unprotected_are_forwarded(
    arguments: Seq<ArgumentView>,
    protected: Set<Seq<char>>,
)
    ensures
        forwarded_of(arguments, protected).len() == positions_of(arguments, protected, false).len(),
        forall|k: int|
            0 <= k < forwarded_of(arguments, protected).len() ==> #[trigger] forwarded_of(
                arguments,
                protected,
            )[k] == arguments[positions_of(arguments, protected, false)[k]].text,
    decreases arguments.len(),
{
    if arguments.len() > 0 {
        let shorter = arguments.drop_last();
        lemma_unprotected_are_forwarded(shorter, protected);
        lemma_positions(shorter, protected, false);
        assert forall|k: int| 0 <= k < forwarded_of(arguments, protected).len() implies
            #[trigger] forwarded_of(arguments, protected)[k] == arguments[positions_of(
            arguments,
            protected,
            false,
        )[k]].text by {
            if k < forwarded_of(shorter, protected).len() {
                let at = positions_of(shorter, protected, false)[k];
                assert(shorter[at] == arguments[at]);
            }
        }
    }
}

/// An argument that is protected is dropped and reported once: the reports
/// name the texts at the places of the protected arguments, in the order of
/// the request, and every argument is either handed on or reported.
pub proof fn lemma_protected_are_skipped(arguments: Seq<ArgumentView>, protected: Set<Seq<char>>)
    ensures
        skipped_of(arguments, protected).len() == positions_of(arguments, protected, true).len(),
        skipped_of(arguments, protected).len() + forwarded_of(arguments, protected).len()
            == arguments.len(),
        forall|k: int|
            0 <= k < skipped_of(arguments, protected).len() ==> #[trigger] skipped_of(
                arguments,
                protected,
            )[k] == (DiagnosticView::Skipped {
                argument: arguments[positions_of(arguments, protected, true)[k]].text,
            }),
    decreases arguments.len(),
{
    if arguments.len() > 0 {
        let shorter = arguments.drop_last();
        lemma_protected_are_skipped(shorter, protected);
        lemma_positions(shorter, protected, true);
        assert forall|k: int| 0 <= k < skipped_of(arguments, protected).len() implies
            #[trigger] skipped_of(arguments, protected)[k] == (DiagnosticView::Skipped {
            argument: arguments[positions_of(arguments, protected, true)[k]].text,
        }) by {
            if k < skipped_of(shorter, protected).len() {
                let at = positions_of(shorter, protected, true)[k];
                assert(shorter[at] == arguments[at]);
            }
        }
    }
}

/// Drops the arguments that name a protected path and reports each of them;
/// hands on the others as they were written, in their order.
pub fn filter_arguments(arguments: &Vec<Argument>, protected: &ProtectedPaths) -> (out: Filtered)
    ensures
        out@ == filtered_of(views(arguments@), protected@),
{
    let ghost all = views(arguments@);
    let mut out = Filtered {
        forwarded: Vec::new(),
        positions: Vec::new(),
        diagnostics: Vec::new(),
    };
    let mut i: usize = 0;
    proof {
        assert(out@.forwarded =~= Seq::<Seq<char>>::empty());
        assert(out@.positions =~= Seq::<int>::empty());
        assert(out@.diagnostics =~= Seq::<DiagnosticView>::empty());
    }
    while i < arguments.len()
        invariant
            i <= arguments.len(),
            all == views(arguments@),
            out@ == filtered_of(all.take(i as int), protected@),
        decreases arguments.len() - i,
    {
        let argument: &Argument = &arguments[i];
        let normal: String = normalize_path(argument.text.as_str(), &argument.status);
        let text: String = argument.text.clone();
        proof {
            assert(all.take(i + 1).drop_last() =~= all.take(i as int));
            assert(all.take(i + 1).last() == argument@);
        }
        if protected.contains(normal.as_str()) {
            let report = Diagnostic::Skipped { argument: text };
            proof {
                lemma_views_push(out.diagnostics@, report);
            }
            out.diagnostics.push(report);
        } else {
            proof {
                lemma_views_push(out.forwarded@, text);
                assert(out.positions@.push(i).map_values(|position: usize| position as int)
                    =~= out.positions@.map_values(|position: usize| position as int).push(
                    i as int,
                ));
            }
            out.forwarded.push(text);
            out.positions.push(i);
        }
        i += 1;
    }
    proof {
        assert(all.take(i as int) =~= all);
    }
    out
}

} // verus!
