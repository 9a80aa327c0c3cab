//! The protected paths: the built-in ones, which are always there, and the
//! ones that the configuration adds. A path is protected when its text is
//! that of a member; no member is held twice.

use crate::model::{lemma_push_to_set, lemma_views_push, views};
use vstd::prelude::*;
use vstd::seq_lib::*;
use vstd::string::*;

verus! {

/// The built-in protected paths, in their fixed order.
pub open spec fn default_paths() -> Seq<Seq<char>> {
    seq![
        "/bin"@,
        "/boot"@,
        "/dev"@,
        "/etc"@,
        "/home"@,
        "/initrd"@,
        "/lib"@,
        "/lib32"@,
        "/lib64"@,
        "/proc"@,
        "/root"@,
        "/sbin"@,
        "/sys"@,
        "/usr"@,
        "/usr/bin"@,
        "/usr/include"@,
        "/usr/lib"@,
        "/usr/local"@,
        "/usr/local/bin"@,
        "/usr/local/include"@,
        "/usr/local/sbin"@,
        "/usr/local/share"@,
        "/usr/sbin"@,
        "/usr/share"@,
        "/usr/src"@,
        "/var"@,
    ]
}

/// The paths that are protected when the configuration names `found`: those,
/// and the built-in ones.
pub open spec fn protected_set(found: Seq<Seq<char>>) -> Set<Seq<char>> {
    found.to_set().union(default_paths().to_set())
}

/// A listing with more paths taken in, in order: each path that the listing
/// does not hold yet goes behind it.
pub open spec fn taken_in(listing: Seq<Seq<char>>, paths: Seq<Seq<char>>) -> Seq<Seq<char>>
    decreases paths.len(),
{
    if paths.len() == 0 {
        listing
    } else {
        let before = taken_in(listing, paths.drop_last());
        if before.contains(paths.last()) {
            before
        } else {
            before.push(paths.last())
        }
    }
}

/// The built-in paths are protected whatever the configuration names.
pub proof fn lemma_defaults_always_protected(found: Seq<Seq<char>>, i: int)
    requires
        0 <= i < default_paths().len(),
    ensures
        protected_set(found).contains(default_paths()[i]),
{
    assert(default_paths().contains(default_paths()[i]));
}

/// Every path that the configuration names is protected.
pub proof fn lemma_found_is_protected(found: Seq<Seq<char>>, i: int)
    requires
        0 <= i < found.len(),
    ensures
        protected_set(found).contains(found[i]),
{
    assert(found.contains(found[i]));
}

/// Which paths are protected depends on which paths the configuration names,
/// not on how often or in which order it names them.
pub proof fn lemma_protection_ignores_order_and_repeats(
    first: Seq<Seq<char>>,
    second: Seq<Seq<char>>,
)
    requires
        forall|path: Seq<char>| first.contains(path) <==> second.contains(path),
    ensures
        protected_set(first) == protected_set(second),
{
    assert(first.to_set() =~= second.to_set());
}

/// Naming the same paths twice protects what naming them once protects.
pub proof fn lemma_protection_is_idempotent(found: Seq<Seq<char>>)
    ensures
        protected_set(found + found) == protected_set(found),
{
    assert forall|path: Seq<char>| (found + found).contains(path) <==> found.contains(path) by {
        if (found + found).contains(path) {
            let i = choose|i: int| 0 <= i < (found + found).len() && (found + found)[i] == path;
            if i < found.len() {
                assert(found[i] == path);
            } else {
                assert(found[i - found.len()] == path);
            }
        }
        if found.contains(path) {
            let i = choose|i: int| 0 <= i < found.len() && found[i] == path;
            assert((found + found)[i] == path);
        }
    }
    lemma_protection_ignores_order_and_repeats(found + found, found);
}

/// Naming two lists of paths protects the same in either order.
pub proof fn lemma_protection_is_order_independent(
    first: Seq<Seq<char>>,
    second: Seq<Seq<char>>,
)
    ensures
        protected_set(first + second) == protected_set(second + first),
{
    assert forall|path: Seq<char>|
        (first + second).contains(path) <==> (second + first).contains(path) by {
        if (first + second).contains(path) {
            let i = choose|i: int|
                0 <= i < (first + second).len() && (first + second)[i] == path;
            if i < first.len() {
                assert((second + first)[second.len() + i] == path);
            } else {
                assert((second + first)[i - first.len()] == path);
            }
        }
        if (second + first).contains(path) {
            let i = choose|i: int|
                0 <= i < (second + first).len() && (second + first)[i] == path;
            if i < second.len() {
                assert((first + second)[first.len() + i] == path);
            } else {
                assert((first + second)[i - second.len()] == path);
            }
        }
    }
    lemma_protection_ignores_order_and_repeats(first + second, second + first);
}

/// The built-in protected paths.
pub fn builtin_paths() -> (paths: Vec<String>)
    ensures
        views(paths@) == default_paths(),
{
    let mut paths: Vec<String> = Vec::new();
    paths.push(String::from_str("/bin"));
    paths.push(String::from_str("/boot"));
    paths.push(String::from_str("/dev"));
    paths.push(String::from_str("/etc"));
    paths.push(String::from_str("/home"));
    paths.push(String::from_str("/initrd"));
    paths.push(String::from_str("/lib"));
    paths.push(String::from_str("/lib32"));
    paths.push(String::from_str("/lib64"));
    paths.push(String::from_str("/proc"));
    paths.push(String::from_str("/root"));
    paths.push(String::from_str("/sbin"));
    paths.push(String::from_str("/sys"));
    paths.push(String::from_str("/usr"));
    paths.push(String::from_str("/usr/bin"));
    paths.push(String::from_str("/usr/include"));
    paths.push(String::from_str("/usr/lib"));
    paths.push(String::from_str("/usr/local"));
    paths.push(String::from_str("/usr/local/bin"));
    paths.push(String::from_str("/usr/local/include"));
    paths.push(String::from_str("/usr/local/sbin"));
    paths.push(String::from_str("/usr/local/share"));
    paths.push(String::from_str("/usr/sbin"));
    paths.push(String::from_str("/usr/share"));
    paths.push(String::from_str("/usr/src"));
    paths.push(String::from_str("/var"));
    assert(views(paths@) =~= default_paths());
    paths
}

/// A set of protected paths, each held once, in the order in which they came
/// in.
#[derive(Debug)]
pub struct ProtectedPaths {
    paths: Vec<String>,
}

impl View for ProtectedPaths {
    type V = Set<Seq<char>>;

    open spec fn view(&self) -> Set<Seq<char>> {
        self.listing().to_set()
    }
}

impl ProtectedPaths {
    /// No path is held twice. Every set that this module hands out is well
    /// formed, and no other module can make one.
    pub closed spec fn wf(self) -> bool {
        views(self.paths@).no_duplicates()
    }

    /// The members in the order in which they came in.
    pub closed spec fn listing(self) -> Seq<Seq<char>> {
        views(self.paths@)
    }

    /// The set that protects nothing.
    pub fn new() -> (protected: ProtectedPaths)
        ensures
            protected.wf(),
            protected.listing() == Seq::<Seq<char>>::empty(),
            protected@ == Set::<Seq<char>>::empty(),
    {
        let protected = ProtectedPaths { paths: Vec::new() };
        assert(protected.listing() =~= Seq::<Seq<char>>::empty());
        assert(protected@ =~= Set::<Seq<char>>::empty());
        protected
    }

    /// How many paths are protected.
    pub fn len(&self) -> (count: usize)
        requires
            self.wf(),
        ensures
            count == self.listing().len(),
            count == self@.len(),
            self.listing().no_duplicates(),
    {
        proof {
            self.listing().unique_seq_to_set();
        }
        self.paths.len()
    }

    /// Whether `path` is protected: whether a member has its text.
    pub fn contains(&self, path: &str) -> (found: bool)
        ensures
            found == self@.contains(path@),
    {
        let wanted: String = String::from_str(path);
        let mut i: usize = 0;
        while i < self.paths.len()
            invariant
                i <= self.paths.len(),
                wanted@ == path@,
                forall|j: int| 0 <= j < i ==> views(self.paths@)[j] != path@,
            decreases self.paths.len() - i,
        {
            if self.paths[i] == wanted {
                assert(views(self.paths@)[i as int] == path@);
                return true;
            }
            i += 1;
        }
        false
    }

    /// Protects `path`. A path that is protected already is not held again.
    pub fn insert(&mut self, path: String) -> (added: bool)
        requires
            old(self).wf(),
        ensures
            final(self).wf(),
            added == !old(self)@.contains(path@),
            final(self)@ == old(self)@.insert(path@),
            final(self).listing() == if added {
                old(self).listing().push(path@)
            } else {
                old(self).listing()
            },
    {
        if self.contains(path.as_str()) {
            assert(self@.insert(path@) =~= self@);
            false
        } else {
            proof {
                lemma_views_push(self.paths@, path);
                lemma_push_to_set(views(self.paths@), path@);
            }
            self.paths.push(path);
            true
        }
    }

    /// Protects each of `paths`.
    pub fn insert_all(&mut self, paths: &Vec<String>)
        requires
            old(self).wf(),
        ensures
            final(self).wf(),
            final(self)@ == old(self)@.union(views(paths@).to_set()),
            final(self).listing() == taken_in(old(self).listing(), views(paths@)),
    {
        let mut i: usize = 0;
        assert(self@.union(views(paths@).take(0).to_set()) =~= self@);
        while i < paths.len()
            invariant
                i <= paths.len(),
                self.wf(),
                self@ == old(self)@.union(views(paths@).take(i as int).to_set()),
                self.listing() == taken_in(old(self).listing(), views(paths@).take(i as int)),
            decreases paths.len() - i,
        {
            let ghost before = views(paths@).take(i as int);
            let path: String = paths[i].clone();
            self.insert(path);
            proof {
                assert(views(paths@).take(i + 1) =~= before.push(path@));
                assert(before.push(path@).drop_last() =~= before);
                lemma_push_to_set(before, path@);
                assert(old(self)@.union(before.to_set()).insert(path@) =~= old(self)@.union(
                    before.push(path@).to_set(),
                ));
            }
            i += 1;
        }
        assert(views(paths@).take(paths.len() as int) =~= views(paths@));
    }

    /// The members as a list, in the order in which they came in.
    pub fn to_vec(&self) -> (paths: Vec<String>)
        requires
            self.wf(),
        ensures
            views(paths@) == self.listing(),
            views(paths@).no_duplicates(),
            views(paths@).to_set() == self@,
    {
        let mut paths: Vec<String> = Vec::new();
        let mut i: usize = 0;
        while i < self.paths.len()
            invariant
                i <= self.paths.len(),
                views(paths@) == views(self.paths@).take(i as int),
            decreases self.paths.len() - i,
        {
            let path: String = self.paths[i].clone();
            proof {
                lemma_views_push(paths@, path);
                assert(views(self.paths@).take(i as int).push(path@) =~= views(self.paths@).take(
                    i + 1,
                ));
            }
            paths.push(path);
            i += 1;
        }
        assert(views(self.paths@).take(self.paths.len() as int) =~= views(self.paths@));
        paths
    }
}

/// The protected paths for a configuration that names `found`: those and the
/// built-in ones. They are listed as they come, the paths found first, each
/// at its first naming.
pub fn protect(found: &Vec<String>) -> (protected: ProtectedPaths)
    ensures
        protected.wf(),
        protected@ == protected_set(views(found@)),
        protected.listing() == taken_in(
            taken_in(Seq::empty(), views(found@)),
            default_paths(),
        ),
        forall|i: int| 0 <= i < default_paths().len() ==> protected@.contains(default_paths()[i]),
        forall|i: int| 0 <= i < found.len() ==> protected@.contains(found[i]@),
{
    let mut protected = ProtectedPaths::new();
    protected.insert_all(found);
    let defaults: Vec<String> = builtin_paths();
    protected.insert_all(&defaults);
    proof {
        assert(protected@ =~= protected_set(views(found@)));
        assert forall|i: int| 0 <= i < default_paths().len() implies protected@.contains(
            default_paths()[i],
        ) by {
            lemma_defaults_always_protected(views(found@), i);
        }
        assert forall|i: int| 0 <= i < found.len() implies protected@.contains(found[i]@) by {
            lemma_found_is_protected(views(found@), i);
        }
    }
    protected
}

} // verus!
