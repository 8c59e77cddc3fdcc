//! The list of the repositories that a scan has discovered.
use vstd::prelude::*;
use vstd::string::*;

verus! {

/// The handles that a sequence of probes discovers, in the order of their
/// first discovery. A probe of a node that lies in no repository yields
/// nothing; one of a node in a repository yields the repository's handle, the
/// canonical path of its metadata directory. A handle that was discovered
/// before is not taken again.
pub open spec fn discovered(probes: Seq<Option<Seq<char>>>) -> Seq<Seq<char>>
    decreases probes.len(),
{
    if probes.len() == 0 {
        Seq::empty()
    } else {
        with_probe(discovered(probes.drop_last()), probes.last())
    }
}

/// A list of handles after one more probe.
pub open spec fn with_probe(handles: Seq<Seq<char>>, probe: Option<Seq<char>>) -> Seq<Seq<char>> {
    match probe {
        Some(handle) => if handles.contains(handle) {
            handles
        } else {
            handles.push(handle)
        },
        None => handles,
    }
}

/// The views of a sequence of probes.
pub open spec fn probe_views(probes: Seq<Option<String>>) -> Seq<Option<Seq<char>>> {
    Seq::new(
        probes.len(),
        |i: int|
            match probes[i] {
                Some(handle) => Some(handle@),
                None => None,
            },
    )
}

/// The repositories discovered so far, each once, in the order of discovery.
pub struct RepoList {
    handles: Vec<String>,
}

impl View for RepoList {
    type V = Seq<Seq<char>>;

    closed spec fn view(&self) -> Seq<Seq<char>> {
        Seq::new(self.handles@.len(), |i: int| self.handles@[i]@)
    }
}

impl RepoList {
    #[verifier::type_invariant]
    spec fn unique(&self) -> bool {
        self@.no_duplicates()
    }

    /// The empty list.
    pub fn new() -> (list: RepoList)
        ensures
            list@ == Seq::<Seq<char>>::empty(),
    {
        let list = RepoList { handles: Vec::new() };
        assert(list@ =~= Seq::<Seq<char>>::empty());
        list
    }

    /// The number of repositories in the list. No handle stands twice in
    /// it.
    pub fn len(&self) -> (len: usize)
        ensures
            len == self@.len(),
            self@.no_duplicates(),
    {
        proof {
            use_type_invariant(self);
        }
        self.handles.len()
    }

    /// The handle at a place of the list, if the list is that long.
    pub fn get(&self, index: usize) -> (handle: Option<&String>)
        ensures
            index < self@.len() ==> handle.is_some() && handle.unwrap()@ == self@[index as int],
            index >= self@.len() ==> handle.is_none(),
    {
        if index < self.handles.len() {
            Some(&self.handles[index])
        } else {
            None
        }
    }

    /// Tells whether a handle is in the list.
    pub fn contains(&self, handle: &String) -> (found: bool)
        ensures
            found == self@.contains(handle@),
    {
        let mut i: usize = 0;
        while i < self.handles.len()
            invariant
                i <= self.handles.len(),
                forall|k: int| 0 <= k < i ==> self@[k] != handle@,
            decreases self.handles.len() - i,
        {
            if self.handles[i] == *handle {
                assert(self@[i as int] == handle@);
                return true;
            }
            i += 1;
        }
        false
    }

    /// Takes the handle that a probe yielded into the list, unless it is
    /// there already, and tells whether it was new.
    pub fn record(&mut self, handle: String) -> (added: bool)
        ensures
            added == !old(self)@.contains(handle@),
            final(self)@ == with_probe(old(self)@, Some(handle@)),
            final(self)@.no_duplicates(),
    {
        proof {
            use_type_invariant(&*self);
        }
        if self.contains(&handle) {
            false
        } else {
            let ghost before = self@;
            let mut handles: Vec<String> = Vec::new();
            std::mem::swap(&mut handles, &mut self.handles);
            assert(self@ =~= Seq::<Seq<char>>::empty());
            handles.push(handle);
            proof {
                let grown = Seq::new(handles@.len(), |i: int| handles@[i]@);
                assert(grown =~= before.push(handle@));
                assert(grown.no_duplicates());
            }
            std::mem::swap(&mut handles, &mut self.handles);
            assert(self@ =~= before.push(handle@));
            true
        }
    }
}

/// Collects the repositories that the probes of a scan discovered. The
/// probes stand in the order in which the nodes were visited; the list
/// holds each handle once, at the place of its first discovery.
pub fn scan(probes: &[Option<String>]) -> (list: RepoList)
    ensures
        list@ == discovered(probe_views(probes@)),
        list@.no_duplicates(),
{
    let ghost views = probe_views(probes@);
    let mut list = RepoList::new();
    let mut i: usize = 0;
    assert(views.take(0) =~= Seq::<Option<Seq<char>>>::empty());
    while i < probes.len()
        invariant
            i <= probes.len(),
            views == probe_views(probes@),
            list@ == discovered(views.take(i as int)),
        decreases probes.len() - i,
    {
        assert(views.take(i + 1).drop_last() =~= views.take(i as int));
        match &probes[i] {
            Some(handle) => {
                list.record(handle.clone());
            },
            None => {},
        }
        i += 1;
    }
    proof {
        assert(views.take(i as int) =~= views);
        lemma_discovered_once(views);
    }
    list
}

/// No handle is discovered twice.
pub proof fn lemma_discovered_once(probes: Seq<Option<Seq<char>>>)
    ensures
        discovered(probes).no_duplicates(),
    decreases probes.len(),
{
    if probes.len() > 0 {
        lemma_discovered_once(probes.drop_last());
    }
}

/// The handles discovered are those that some probe yielded.
pub proof fn lemma_discovered_members(probes: Seq<Option<Seq<char>>>, handle: Seq<char>)
    ensures
        discovered(probes).contains(handle) <==> probes.contains(Some(handle)),
    decreases probes.len(),
{
    if probes.len() > 0 {
        let earlier = probes.drop_last();
        let before = discovered(earlier);
        let after = discovered(probes);
        lemma_discovered_members(earlier, handle);
        if after.contains(handle) {
            let at = choose|at: int| 0 <= at < after.len() && after[at] == handle;
            if at < before.len() {
                assert(before[at] == handle);
                let i = choose|i: int| 0 <= i < earlier.len() && earlier[i] == Some(handle);
                assert(probes[i] == Some(handle));
            } else {
                assert(probes[probes.len() - 1] == Some(handle));
            }
        }
        if probes.contains(Some(handle)) {
            let i = choose|i: int| 0 <= i < probes.len() && probes[i] == Some(handle);
            if i < earlier.len() {
                assert(earlier[i] == Some(handle));
                let at = choose|at: int| 0 <= at < before.len() && before[at] == handle;
                assert(after[at] == handle);
            } else if before.contains(handle) {
                assert(after == before);
            } else {
                assert(after[before.len() as int] == handle);
            }
        }
    }
}

/// Later probes leave the handles discovered before at their places: the
/// list is in the order of first discovery.
pub proof fn lemma_discovery_order(
    earlier: Seq<Option<Seq<char>>>,
    later: Seq<Option<Seq<char>>>,
)
    ensures
        discovered(earlier).is_prefix_of(discovered(earlier + later)),
    decreases later.len(),
{
    if later.len() == 0 {
        assert(earlier + later =~= earlier);
    } else {
        lemma_discovery_order(earlier, later.drop_last());
        assert((earlier + later).drop_last() =~= earlier + later.drop_last());
    }
}

/// Two nodes that lie in the same repository give one entry: the handle
/// that both probes yield stands in the list at exactly one place.
pub proof fn lemma_same_repository_once(
    probes: Seq<Option<Seq<char>>>,
    first: int,
    second: int,
    handle: Seq<char>,
)
    requires
        0 <= first < second < probes.len(),
        probes[first] == Some(handle),
        probes[second] == Some(handle),
    ensures
        exists|at: int|
            {
                &&& 0 <= at < discovered(probes).len()
                &&& #[trigger] discovered(probes)[at] == handle
                &&& forall|other: int|
                    0 <= other < discovered(probes).len() && #[trigger] discovered(probes)[other]
                        == handle ==> other == at
            },
{
    lemma_discovered_once(probes);
    lemma_discovered_members(probes, handle);
    let found = discovered(probes);
    let at = choose|at: int| 0 <= at < found.len() && found[at] == handle;
    assert(found[at] == handle);
}

/// A repository inside the working tree of another is discovered as an
/// entry of its own: where two probes yield different handles, both are in
/// the list, at different places.
pub proof fn lemma_nested_repository_found(
    probes: Seq<Option<Seq<char>>>,
    outer: Seq<char>,
    inner: Seq<char>,
)
    requires
        probes.contains(Some(outer)),
        probes.contains(Some(inner)),
        outer != inner,
    ensures
        exists|i: int, j: int|
            {
                &&& 0 <= i < discovered(probes).len()
                &&& 0 <= j < discovered(probes).len()
                &&& i != j
                &&& #[trigger] discovered(probes)[i] == outer
                &&& #[trigger] discovered(probes)[j] == inner
            },
{
    lemma_discovered_members(probes, outer);
    lemma_discovered_members(probes, inner);
    let found = discovered(probes);
    let i = choose|i: int| 0 <= i < found.len() && found[i] == outer;
    let j = choose|j: int| 0 <= j < found.len() && found[j] == inner;
    assert(found[i] == outer && found[j] == inner);
}

} // verus!
