//! The registry: an insertion-ordered mapping from metric name to metric.

use vstd::prelude::*;

verus! {

/// Why a lookup in the registry failed.
pub enum RegistryError {
    /// No metric is registered under the requested name.
    NotFound,
}

/// The names of a sequence of entries, in order.
pub open spec fn names_of<M>(es: Seq<(Seq<char>, M)>) -> Seq<Seq<char>> {
    es.map_values(|e: (Seq<char>, M)| e.0)
}

/// Entries after registering `m` under `n`: an existing entry of that name is
/// overwritten in place, otherwise the entry is appended.
pub open spec fn inserted<M>(es: Seq<(Seq<char>, M)>, n: Seq<char>, m: M) -> Seq<(Seq<char>, M)> {
    if names_of(es).contains(n) {
        es.map_values(|e: (Seq<char>, M)| if e.0 == n { (n, m) } else { e })
    } else {
        es.push((n, m))
    }
}

/// Entries after registering each `ms[i]` under `ns[i]`, in order, starting from `es`.
pub open spec fn inserted_all<M>(es: Seq<(Seq<char>, M)>, ns: Seq<Seq<char>>, ms: Seq<M>) -> Seq<(Seq<char>, M)>
    decreases ns.len(),
{
    if ns.len() == 0 || ms.len() == 0 {
        es
    } else {
        inserted(inserted_all(es, ns.drop_last(), ms.drop_last()), ns.last(), ms.last())
    }
}

/// Insertion-ordered registry of named metrics. Names are unique.
pub struct StdRegistry<M> {
    names: Vec<String>,
    metrics: Vec<M>,
}

impl<M> StdRegistry<M> {
    /// The registered entries, in insertion order.
    pub closed spec fn entries(&self) -> Seq<(Seq<char>, M)> {
        Seq::new(self.names@.len(), |i: int| (self.names@[i]@, self.metrics@[i]))
    }

    /// Parallel storage of names and metrics, with no name twice.
    pub closed spec fn wf(&self) -> bool {
        &&& self.names@.len() == self.metrics@.len()
        &&& forall|i: int, j: int|
            0 <= i < j < self.names@.len() ==> self.names@[i]@ != self.names@[j]@
    }

    /// An empty registry.
    pub fn new() -> (r: Self)
        ensures
            r.wf(),
            r.entries() == Seq::<(Seq<char>, M)>::empty(),
    {
        let r = StdRegistry { names: Vec::new(), metrics: Vec::new() };
        assert(r.entries() =~= Seq::<(Seq<char>, M)>::empty());
        r
    }

    fn position(&self, name: &String) -> (r: Option<usize>)
        requires
            self.wf(),
        ensures
            match r {
                Some(i) => i < self.names@.len() && self.names@[i as int]@ == name@,
                None => !names_of(self.entries()).contains(name@),
            },
    {
        let mut i: usize = 0;
        while i < self.names.len()
            invariant
                self.wf(),
                i <= self.names@.len(),
                forall|k: int| 0 <= k < i ==> self.names@[k]@ != name@,
            decreases self.names@.len() - i,
        {
            if self.names[i] == *name {
                return Some(i);
            }
            i = i + 1;
        }
        proof {
            if names_of(self.entries()).contains(name@) {
                let k = choose|k: int| 0 <= k < names_of(self.entries()).len() && names_of(self.entries())[k] == name@;
                assert(self.names@[k]@ == name@);
            }
        }
        None
    }

    /// Registers `metric` under `name`. A metric already registered under that
    /// name is replaced, keeping its place in the order.
    pub fn insert(&mut self, name: String, metric: M)
        requires
            old(self).wf(),
        ensures
            final(self).wf(),
            final(self).entries() == inserted(old(self).entries(), name@, metric),
            names_of(final(self).entries()).contains(name@),
    {
        match self.position(&name) {
            Some(i) => {
                self.metrics.set(i, metric);
                assert(self.entries() =~= inserted(old(self).entries(), name@, metric)) by {
                    assert(names_of(old(self).entries())[i as int] == name@);
                };
                assert(names_of(self.entries())[i as int] == name@);
            },
            None => {
                self.names.push(name);
                self.metrics.push(metric);
                proof {
                    assert forall|i: int, j: int| 0 <= i < j < self.names@.len()
                        implies self.names@[i]@ != self.names@[j]@ by {
                        if j == self.names@.len() - 1 {
                            assert(names_of(old(self).entries())[i] == self.names@[i]@);
                        }
                    }
                }
                assert(self.entries() =~= inserted(old(self).entries(), name@, metric));
                assert(names_of(self.entries())[self.names@.len() - 1] == name@);
            },
        }
    }

    /// The metric registered under `name`, or `NotFound` when there is none.
    pub fn get(&self, name: &String) -> (r: Result<&M, RegistryError>)
        requires
            self.wf(),
        ensures
            r is Err <==> !names_of(self.entries()).contains(name@),
            r matches Ok(m) ==> forall|i: int|
                0 <= i < self.entries().len() && self.entries()[i].0 == name@
                    ==> self.entries()[i].1 == *m,
    {
        match self.position(name) {
            Some(i) => {
                assert(self.entries()[i as int] == (name@, self.metrics@[i as int]));
                assert(names_of(self.entries())[i as int] == name@);
                assert forall|k: int|
                    0 <= k < self.entries().len() && self.entries()[k].0 == name@
                        implies self.entries()[k].1 == self.metrics@[i as int] by {
                    assert(self.names@[k]@ == name@);
                }
                Ok(&self.metrics[i])
            },
            None => Err(RegistryError::NotFound),
        }
    }

    /// The registered names, in insertion order.
    pub fn list_names(&self) -> (r: Vec<String>)
        requires
            self.wf(),
        ensures
            r@.len() == self.entries().len(),
            r@.map_values(|s: String| s@) == names_of(self.entries()),
    {
        let mut r: Vec<String> = Vec::new();
        let mut i: usize = 0;
        while i < self.names.len()
            invariant
                self.wf(),
                i <= self.names@.len(),
                r@.len() == i,
                forall|k: int| 0 <= k < i ==> r@[k]@ == self.names@[k]@,
            decreases self.names@.len() - i,
        {
            r.push(self.names[i].clone());
            i = i + 1;
        }
        assert(r@.map_values(|s: String| s@) =~= names_of(self.entries()));
        r
    }

    /// The number of registered metrics.
    pub fn len(&self) -> (r: usize)
        requires
            self.wf(),
        ensures
            r == self.entries().len(),
    {
        self.names.len()
    }
}

/// Registering metrics under pairwise distinct names lists exactly those
/// names, in the order in which they were registered.
pub proof fn lemma_distinct_inserts_keep_order<M>(ns: Seq<Seq<char>>, ms: Seq<M>)
    requires
        ns.len() == ms.len(),
        ns.no_duplicates(),
    ensures
        names_of(inserted_all(Seq::<(Seq<char>, M)>::empty(), ns, ms)) == ns,
    decreases ns.len(),
{
    if ns.len() > 0 {
        let prev = inserted_all(Seq::<(Seq<char>, M)>::empty(), ns.drop_last(), ms.drop_last());
        assert(ns.drop_last().no_duplicates());
        lemma_distinct_inserts_keep_order(ns.drop_last(), ms.drop_last());
        assert(!names_of(prev).contains(ns.last())) by {
            if names_of(prev).contains(ns.last()) {
                let k = choose|k: int| 0 <= k < names_of(prev).len() && names_of(prev)[k] == ns.last();
                assert(ns[k] == ns[ns.len() - 1]);
            }
        }
        let next = prev.push((ns.last(), ms.last()));
        assert(names_of(prev) == ns.drop_last());
        assert(prev.len() == ns.len() - 1);
        assert forall|i: int| 0 <= i < ns.len() implies names_of(next)[i] == ns[i] by {
            if i < ns.len() - 1 {
                assert(next[i] == prev[i]);
                assert(names_of(prev)[i] == ns.drop_last()[i]);
            }
        }
        assert(names_of(next) =~= ns);
    } else {
        assert(names_of(Seq::<(Seq<char>, M)>::empty()) =~= ns);
    }
}

/// Registering a second metric under a name already present replaces the first:
/// the names and their order stay as they were, and every entry of that name
/// holds the second metric.
pub proof fn lemma_reinsert_overwrites<M>(es: Seq<(Seq<char>, M)>, n: Seq<char>, first: M, second: M)
    ensures
        names_of(inserted(inserted(es, n, first), n, second)) == names_of(inserted(es, n, first)),
        names_of(inserted(inserted(es, n, first), n, second)).contains(n),
        forall|i: int|
            0 <= i < inserted(inserted(es, n, first), n, second).len()
                && #[trigger] inserted(inserted(es, n, first), n, second)[i].0 == n
                ==> inserted(inserted(es, n, first), n, second)[i].1 == second,
{
    let once = inserted(es, n, first);
    let twice = inserted(once, n, second);
    if names_of(es).contains(n) {
        let k = choose|k: int| 0 <= k < names_of(es).len() && names_of(es)[k] == n;
        assert(names_of(once)[k] == n);
    } else {
        assert(names_of(once)[es.len() as int] == n);
    }
    assert(names_of(once).contains(n));
    assert(names_of(twice) =~= names_of(once));
}

} // verus!
