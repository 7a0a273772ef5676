//! The resolved build graph and the duplicate detector on it.
use crate::names::{names_in, NameSet};
use vstd::prelude::*;

verus! {

/// A package of the build graph, reduced to what the detector reads: its name
/// and the names of the dependencies that it declares, in manifest order.
pub struct PackageInfo {
    pub name: String,
    pub dependencies: Vec<String>,
}

/// A resolved build graph: the name of the root package, if the metadata named
/// one, and every package of the graph, the root included.
pub struct BuildGraph {
    pub root: Option<String>,
    pub packages: Vec<PackageInfo>,
}

/// The detector's fatal error.
#[derive(Debug, Clone, Copy, PartialEq, Eq, Structural)]
pub enum GraphError {
    /// No root is named, or no package of the graph carries the root's name.
    MissingRoot,
}

/// The three name sets that the detector derives from a graph.
pub struct DuplicateReport {
    /// The names that the root package declares directly.
    pub root_deps: NameSet,
    /// The names that some package other than the root declares.
    pub other_deps: NameSet,
    /// The names in both sets: the duplicate candidates.
    pub duplicates: NameSet,
}

/// Package `i` is the one that the graph names as its root.
pub open spec fn is_root_at(g: BuildGraph, i: int) -> bool {
    &&& g.root is Some
    &&& 0 <= i < g.packages@.len()
    &&& g.packages@[i].name@ == g.root->Some_0@
}

/// The graph has a root package.
pub open spec fn has_root(g: BuildGraph) -> bool {
    exists|i: int| is_root_at(g, i)
}

/// Package `i` is the first that carries the root's name.
pub open spec fn is_first_root(g: BuildGraph, i: int) -> bool {
    &&& is_root_at(g, i)
    &&& forall|k: int| 0 <= k < i ==> !is_root_at(g, k)
}

/// The root package's name.
pub open spec fn root_name(g: BuildGraph) -> Seq<char> {
    g.root->Some_0@
}

/// The names that the root package declares: those of the first package that
/// carries the root's name.
pub open spec fn root_deps_of(g: BuildGraph) -> Set<Seq<char>> {
    names_in(g.packages@[choose|i: int| is_first_root(g, i)].dependencies@)
}

/// The names that some package declares whose name is not the root's.
pub open spec fn other_deps_of(g: BuildGraph) -> Set<Seq<char>> {
    Set::new(
        |n: Seq<char>|
            exists|p: int|
                0 <= p < g.packages@.len() && g.packages@[p].name@ != root_name(g)
                    && #[trigger] names_in(g.packages@[p].dependencies@).contains(n),
    )
}

/// The duplicate candidates: names that the root declares and some other
/// package declares too.
pub open spec fn duplicates_of(g: BuildGraph) -> Set<Seq<char>> {
    root_deps_of(g).intersect(other_deps_of(g))
}

/// The names that some package among the first `k` declares whose name is not
/// the root's.
spec fn other_deps_upto(g: BuildGraph, k: int) -> Set<Seq<char>> {
    Set::new(
        |n: Seq<char>|
            exists|p: int|
                0 <= p < k && g.packages@[p].name@ != root_name(g)
                    && #[trigger] names_in(g.packages@[p].dependencies@).contains(n),
    )
}

proof fn lemma_first_root_unique(g: BuildGraph, i: int, j: int)
    requires
        is_first_root(g, i),
        is_first_root(g, j),
    ensures
        i == j,
{
    if i < j {
        assert(!is_root_at(g, i));
    } else if j < i {
        assert(!is_root_at(g, j));
    }
}

/// The index of the root package, or `MissingRoot` where the graph has none.
pub fn find_root(g: &BuildGraph) -> (r: Result<usize, GraphError>)
    ensures
        match r {
            Ok(i) => is_first_root(*g, i as int),
            Err(e) => e == GraphError::MissingRoot && !has_root(*g),
        },
{
    let root = match &g.root {
        Some(name) => name,
        None => {
            return Err(GraphError::MissingRoot);
        },
    };
    let mut i: usize = 0;
    while i < g.packages.len()
        invariant
            0 <= i <= g.packages@.len(),
            g.root == Some(*root),
            forall|k: int| 0 <= k < i ==> !is_root_at(*g, k),
        decreases g.packages@.len() - i,
    {
        if g.packages[i].name == *root {
            return Ok(i);
        }
        i += 1;
    }
    Err(GraphError::MissingRoot)
}

/// Adds each of `names` to `set`.
fn insert_all(set: &mut NameSet, names: &Vec<String>)
    requires
        old(set).wf(),
    ensures
        final(set).wf(),
        final(set)@ == old(set)@.union(names_in(names@)),
{
    let mut i: usize = 0;
    while i < names.len()
        invariant
            0 <= i <= names@.len(),
            set.wf(),
            set@ == old(set)@.union(names_in(names@.take(i as int))),
        decreases names@.len() - i,
    {
        let ghost prefix = names@.take(i as int);
        set.insert(names[i].clone());
        proof {
            let next = names@.take(i + 1);
            assert(next == prefix.push(names@[i as int]));
            assert forall|n: Seq<char>| #[trigger] names_in(next).contains(n) <==> names_in(prefix).insert(names@[i as int]@).contains(n) by {
                if names_in(next).contains(n) {
                    let k = choose|k: int| 0 <= k < next.len() && #[trigger] next[k]@ == n;
                    if k < prefix.len() {
                        assert(prefix[k]@ == n);
                    }
                }
                if names_in(prefix).contains(n) {
                    let k = choose|k: int| 0 <= k < prefix.len() && #[trigger] prefix[k]@ == n;
                    assert(next[k]@ == n);
                }
                if n == names@[i as int]@ {
                    assert(next[i as int]@ == n);
                }
            }
            assert(names_in(next) =~= names_in(prefix).insert(names@[i as int]@));
            assert(set@ =~= old(set)@.union(names_in(next)));
        }
        i += 1;
    }
    assert(names@.take(names@.len() as int) == names@);
}

/// The names that the root package declares directly.
pub fn root_deps(g: &BuildGraph, root: usize) -> (r: NameSet)
    requires
        is_first_root(*g, root as int),
    ensures
        r.wf(),
        r@ == root_deps_of(*g),
{
    proof {
        lemma_first_root_unique(*g, root as int, choose|i: int| is_first_root(*g, i));
    }
    let mut r = NameSet::new();
    insert_all(&mut r, &g.packages[root].dependencies);
    assert(r@ =~= root_deps_of(*g));
    r
}

/// The names that some package other than the root declares. A package is
/// passed over where its name is the root's.
pub fn other_deps(g: &BuildGraph, root: usize) -> (r: NameSet)
    requires
        is_first_root(*g, root as int),
    ensures
        r.wf(),
        r@ == other_deps_of(*g),
{
    let own = &g.packages[root].name;
    let mut r = NameSet::new();
    let mut i: usize = 0;
    assert(r@ =~= other_deps_upto(*g, 0));
    while i < g.packages.len()
        invariant
            0 <= i <= g.packages@.len(),
            own@ == root_name(*g),
            r.wf(),
            r@ == other_deps_upto(*g, i as int),
        decreases g.packages@.len() - i,
    {
        let pkg = &g.packages[i];
        let ghost deps = names_in(g.packages@[i as int].dependencies@);
        if pkg.name != *own {
            insert_all(&mut r, &pkg.dependencies);
        }
        assert forall|n: Seq<char>| #[trigger] other_deps_upto(*g, i + 1).contains(n) implies r@.contains(n) by {
            let p = choose|p: int|
                0 <= p < i + 1 && g.packages@[p].name@ != root_name(*g)
                    && #[trigger] names_in(g.packages@[p].dependencies@).contains(n);
            if p < i {
                assert(other_deps_upto(*g, i as int).contains(n));
            }
        }
        assert forall|n: Seq<char>| #[trigger] r@.contains(n) implies other_deps_upto(*g, i + 1).contains(n) by {
            if other_deps_upto(*g, i as int).contains(n) {
                let p = choose|p: int|
                    0 <= p < i && g.packages@[p].name@ != root_name(*g)
                        && #[trigger] names_in(g.packages@[p].dependencies@).contains(n);
                assert(names_in(g.packages@[p].dependencies@).contains(n));
            } else {
                assert(deps.contains(n));
            }
        }
        assert(r@ =~= other_deps_upto(*g, i + 1));
        i += 1;
    }
    assert(r@ =~= other_deps_of(*g));
    r
}

/// Derives the three name sets from a graph: what the root declares, what the
/// other packages declare, and the names in both. Fails, before any set is
/// built, where the graph has no root package.
pub fn detect_duplicates(g: &BuildGraph) -> (r: Result<DuplicateReport, GraphError>)
    ensures
        r is Err <==> !has_root(*g),
        r matches Err(e) ==> e == GraphError::MissingRoot,
        r matches Ok(rep) ==> {
            &&& rep.root_deps.wf() && rep.other_deps.wf() && rep.duplicates.wf()
            &&& rep.root_deps@ == root_deps_of(*g)
            &&& rep.other_deps@ == other_deps_of(*g)
            &&& rep.duplicates@ == duplicates_of(*g)
            &&& rep.duplicates@ == rep.root_deps@.intersect(rep.other_deps@)
        },
{
    let root = match find_root(g) {
        Ok(i) => i,
        Err(e) => {
            return Err(e);
        },
    };
    let root_deps = root_deps(g, root);
    let other_deps = other_deps(g, root);
    let duplicates = root_deps.intersection(&other_deps);
    Ok(DuplicateReport { root_deps, other_deps, duplicates })
}

/// A name that no package other than the root declares is never among the
/// other packages' names, nor a duplicate candidate, whatever the root itself
/// declares.
pub proof fn lemma_root_only_names_excluded(g: BuildGraph, n: Seq<char>)
    requires
        forall|p: int|
            0 <= p < g.packages@.len() && g.packages@[p].name@ != root_name(g)
                ==> !#[trigger] names_in(g.packages@[p].dependencies@).contains(n),
    ensures
        !other_deps_of(g).contains(n),
        !duplicates_of(g).contains(n),
{
}

} // verus!
