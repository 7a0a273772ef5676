//! Sets of package names.
use vstd::prelude::*;

verus! {

/// The names of a list of strings, as a set.
pub open spec fn names_in(v: Seq<String>) -> Set<Seq<char>> {
    Set::new(|n: Seq<char>| exists|i: int| 0 <= i < v.len() && #[trigger] v[i]@ == n)
}

/// A set of package names, held as a vector without repeats in the order in
/// which the names were first inserted.
pub struct NameSet {
    names: Vec<String>,
}

impl NameSet {
    /// No name occurs twice.
    pub closed spec fn wf(&self) -> bool {
        forall|i: int, j: int|
            0 <= i < j < self.names@.len() ==> #[trigger] self.names@[i]@ != #[trigger] self.names@[j]@
    }

    /// The names that the set holds.
    pub closed spec fn set_view(&self) -> Set<Seq<char>> {
        names_in(self.names@)
    }

    /// The empty set.
    pub fn new() -> (r: NameSet)
        ensures
            r@ == Set::<Seq<char>>::empty(),
            r.wf(),
    {
        let r = NameSet { names: Vec::new() };
        assert(r@ =~= Set::<Seq<char>>::empty());
        r
    }

    /// Whether `name` is in the set.
    pub fn contains(&self, name: &String) -> (r: bool)
        ensures
            r == self@.contains(name@),
    {
        let mut i: usize = 0;
        while i < self.names.len()
            invariant
                0 <= i <= self.names@.len(),
                forall|k: int| 0 <= k < i ==> #[trigger] self.names@[k]@ != name@,
            decreases self.names@.len() - i,
        {
            if self.names[i] == *name {
                assert(self.names@[i as int]@ == name@);
                return true;
            }
            i += 1;
        }
        false
    }

    /// Adds `name`; a name already present is not added again.
    pub fn insert(&mut self, name: String)
        requires
            old(self).wf(),
        ensures
            final(self).wf(),
            final(self)@ == old(self)@.insert(name@),
    {
        if !self.contains(&name) {
            let ghost before = self.names@;
            self.names.push(name);
            assert(self.names@ == before.push(name));
            assert forall|i: int, j: int| 0 <= i < j < self.names@.len() implies #[trigger] self.names@[i]@ != #[trigger] self.names@[j]@ by {
                if j == before.len() {
                    assert(before[i]@ != name@);
                } else {
                    assert(before[i]@ != before[j]@);
                }
            }
            assert(self@ =~= old(self)@.insert(name@)) by {
                assert forall|n: Seq<char>| #[trigger] self@.contains(n) implies old(self)@.insert(name@).contains(n) by {
                    let i = choose|i: int| 0 <= i < self.names@.len() && #[trigger] self.names@[i]@ == n;
                    if i < before.len() {
                        assert(before[i]@ == n);
                    }
                }
                assert forall|n: Seq<char>| #[trigger] old(self)@.insert(name@).contains(n) implies self@.contains(n) by {
                    if n == name@ {
                        assert(self.names@[before.len() as int]@ == n);
                    } else {
                        let i = choose|i: int| 0 <= i < before.len() && #[trigger] before[i]@ == n;
                        assert(self.names@[i]@ == n);
                    }
                }
            }
        } else {
            assert(old(self)@.insert(name@) =~= old(self)@);
        }
    }

    /// The names that both sets hold.
    pub fn intersection(&self, other: &NameSet) -> (r: NameSet)
        ensures
            r@ == self@.intersect(other@),
            r.wf(),
    {
        let mut r = NameSet::new();
        let mut i: usize = 0;
        while i < self.names.len()
            invariant
                0 <= i <= self.names@.len(),
                r@ == names_in(self.names@.take(i as int)).intersect(other@),
                r.wf(),
            decreases self.names@.len() - i,
        {
            let ghost prefix = self.names@.take(i as int);
            if other.contains(&self.names[i]) {
                r.insert(self.names[i].clone());
            }
            proof {
                let next = self.names@.take(i + 1);
                assert(next == prefix.push(self.names@[i as int]));
                assert(names_in(next) =~= names_in(prefix).insert(self.names@[i as int]@)) by {
                    assert forall|n: Seq<char>| #[trigger] names_in(next).contains(n) implies names_in(prefix).insert(self.names@[i as int]@).contains(n) by {
                        let k = choose|k: int| 0 <= k < next.len() && #[trigger] next[k]@ == n;
                        if k < prefix.len() {
                            assert(prefix[k]@ == n);
                        }
                    }
                    assert forall|n: Seq<char>| #[trigger] names_in(prefix).insert(self.names@[i as int]@).contains(n) implies names_in(next).contains(n) by {
                        if n == self.names@[i as int]@ {
                            assert(next[i as int]@ == n);
                        } else {
                            let k = choose|k: int| 0 <= k < prefix.len() && #[trigger] prefix[k]@ == n;
                            assert(next[k]@ == n);
                        }
                    }
                }
                assert(r@ =~= names_in(next).intersect(other@));
            }
            i += 1;
        }
        assert(self.names@.take(self.names@.len() as int) == self.names@);
        r
    }

    /// The names of the set, each once, in the order of first insertion.
    pub fn to_vec(&self) -> (r: Vec<String>)
        requires
            self.wf(),
        ensures
            names_in(r@) == self@,
            forall|i: int, j: int| 0 <= i < j < r@.len() ==> #[trigger] r@[i]@ != #[trigger] r@[j]@,
    {
        self.names.clone()
    }
}

impl View for NameSet {
    type V = Set<Seq<char>>;

    open spec fn view(&self) -> Set<Seq<char>> {
        self.set_view()
    }
}

} // verus!
