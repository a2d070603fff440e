//! Where an operator runs, and how many instances run there.

use vstd::prelude::*;

verus! {

/// A place in the location hierarchy of a Hydro program. Processes and clusters
/// are its roots; atomic regions and ticks are virtual locations within them.
#[derive(Debug)]
pub enum LocationId {
    /// A single node, by its key.
    Process(u64),
    /// A group of nodes, by its key.
    Cluster(u64),
    /// An atomic region within a tick.
    Atomic(Box<LocationId>),
    /// A tick of the given clock within a location.
    Tick(usize, Box<LocationId>),
}

impl LocationId {
    /// The process or cluster that a location lies in.
    pub open spec fn spec_root(self) -> LocationId
        decreases self,
    {
        match self {
            LocationId::Process(_) => self,
            LocationId::Cluster(_) => self,
            LocationId::Atomic(tick) => tick.spec_root(),
            LocationId::Tick(_, id) => id.spec_root(),
        }
    }

    /// The process or cluster that this location lies in.
    pub fn root(&self) -> (root: &LocationId)
        ensures
            *root == self.spec_root(),
        decreases self,
    {
        match self {
            LocationId::Process(_) => self,
            LocationId::Cluster(_) => self,
            LocationId::Atomic(tick) => tick.root(),
            LocationId::Tick(_, id) => id.root(),
        }
    }

    /// Whether two locations are the same, level by level.
    fn same_as(&self, other: &LocationId) -> (same: bool)
        ensures
            same == (*self == *other),
        decreases self,
    {
        match (self, other) {
            (LocationId::Process(a), LocationId::Process(b)) => *a == *b,
            (LocationId::Cluster(a), LocationId::Cluster(b)) => *a == *b,
            (LocationId::Atomic(a), LocationId::Atomic(b)) => a.same_as(b),
            (LocationId::Tick(s, a), LocationId::Tick(t, b)) => *s == *t && a.same_as(b),
            _ => false,
        }
    }
}

impl Clone for LocationId {
    fn clone(&self) -> (copy: Self)
        ensures
            copy == *self,
        decreases self,
    {
        match self {
            LocationId::Process(key) => LocationId::Process(*key),
            LocationId::Cluster(key) => LocationId::Cluster(*key),
            LocationId::Atomic(tick) => LocationId::Atomic(Box::new((&**tick).clone())),
            LocationId::Tick(clock, id) => LocationId::Tick(*clock, Box::new((&**id).clone())),
        }
    }
}

impl PartialEq for LocationId {
    fn eq(&self, other: &Self) -> (same: bool) {
        self.same_as(other)
    }
}

impl vstd::std_specs::cmp::PartialEqSpecImpl for LocationId {
    open spec fn obeys_eq_spec() -> bool {
        true
    }

    open spec fn eq_spec(&self, other: &Self) -> bool {
        *self == *other
    }
}

impl Eq for LocationId {

}

/// What is known of a root location: its name and the number of instances.
pub type LocationEntry = (String, usize);

/// The name and the size of an entry.
pub open spec fn entry_view(entry: LocationEntry) -> (Seq<char>, usize) {
    (entry.0@, entry.1)
}

/// What is known after `answers` are entered one by one: each that names a
/// cluster is entered for the root of its location, the others change nothing.
pub open spec fn answers_map(answers: Seq<(LocationId, Option<LocationEntry>)>) -> Map<
    LocationId,
    (Seq<char>, usize),
>
    decreases answers.len(),
{
    if answers.len() == 0 {
        Map::empty()
    } else {
        let earlier = answers_map(answers.drop_last());
        match answers.last().1 {
            Some(entry) => earlier.insert(answers.last().0.spec_root(), entry_view(entry)),
            None => earlier,
        }
    }
}

/// The position at which `root` stands among `entries`.
spec fn stands_at(entries: Seq<(LocationId, LocationEntry)>, root: LocationId, i: int) -> bool {
    0 <= i < entries.len() && entries[i].0 == root
}

/// Name and parallelism of each root location.
///
/// Build it with [`LocationInfo::from_clusters`], or from an empty one with
/// [`LocationInfo::insert`] or [`LocationInfo::with`].
#[derive(Debug)]
pub struct LocationInfo {
    entries: Vec<(LocationId, LocationEntry)>,
}

impl View for LocationInfo {
    type V = Map<LocationId, (Seq<char>, usize)>;

    /// The name and the size that each known root location has.
    closed spec fn view(&self) -> Map<LocationId, (Seq<char>, usize)> {
        Map::new(
            |root: LocationId| exists|i: int| stands_at(self.entries@, root, i),
            |root: LocationId|
                entry_view(self.entries@[choose|i: int| stands_at(self.entries@, root, i)].1),
        )
    }
}

impl LocationInfo {
    /// Only root locations are entered, and each at most once.
    #[verifier::type_invariant]
    spec fn well_formed(self) -> bool {
        &&& forall|i: int|
            0 <= i < self.entries@.len() ==> (#[trigger] self.entries@[i]).0.spec_root()
                == self.entries@[i].0
        &&& forall|i: int, j: int|
            0 <= i < j < self.entries@.len() ==> (#[trigger] self.entries@[i]).0
                != (#[trigger] self.entries@[j]).0
    }

    /// No location is known.
    pub fn new() -> (info: Self)
        ensures
            info@ == Map::<LocationId, (Seq<char>, usize)>::empty(),
    {
        let info = LocationInfo { entries: Vec::new() };
        assert(info@ =~= Map::empty());
        info
    }

    /// The known root locations, each once, with what is known of them.
    pub fn entries(&self) -> (listed: &Vec<(LocationId, LocationEntry)>)
        ensures
            forall|i: int|
                0 <= i < listed@.len() ==> {
                    &&& (#[trigger] listed@[i]).0.spec_root() == listed@[i].0
                    &&& self@.contains_key(listed@[i].0)
                    &&& self@[listed@[i].0] == entry_view(listed@[i].1)
                },
            forall|i: int, j: int|
                0 <= i < j < listed@.len() ==> (#[trigger] listed@[i]).0 != (
                #[trigger] listed@[j]).0,
            forall|root: LocationId| #[trigger]
                self@.contains_key(root) ==> exists|i: int|
                    0 <= i < listed@.len() && (#[trigger] listed@[i]).0 == root,
    {
        proof {
            use_type_invariant(self);
            let listed = self.entries@;
            assert forall|i: int| 0 <= i < listed.len() implies self@.contains_key(
                (#[trigger] listed[i]).0,
            ) && self@[listed[i].0] == entry_view(listed[i].1) by {
                let root = listed[i].0;
                assert(stands_at(listed, root, i));
                let k = choose|k: int| stands_at(listed, root, k);
                assert(k == i);
            }
            assert forall|root: LocationId| #[trigger] self@.contains_key(root) implies exists|i: int|
                0 <= i < listed.len() && (#[trigger] listed[i]).0 == root by {
                let k = choose|k: int| stands_at(listed, root, k);
                assert(listed[k].0 == root);
            }
        }
        &self.entries
    }

    /// The position of a root location among the entries.
    fn position(&self, root: &LocationId) -> (found: Option<usize>)
        ensures
            match found {
                Some(i) => stands_at(self.entries@, *root, i as int),
                None => forall|i: int| !stands_at(self.entries@, *root, i),
            },
    {
        for i in 0..self.entries.len()
            invariant
                forall|k: int| 0 <= k < i ==> !stands_at(self.entries@, *root, k),
        {
            if self.entries[i].0 == *root {
                return Some(i);
            }
        }
        None
    }

    /// Enters the name and the size of the root that `location` lies in, in
    /// place of what was known of it.
    pub fn insert(&mut self, location: LocationId, name: &str, size: usize)
        ensures
            final(self)@ == old(self)@.insert(location.spec_root(), (name@, size)),
    {
        let root: LocationId = location.root().clone();
        let found: Option<usize> = self.position(&root);
        proof {
            use_type_invariant(&*self);
            lemma_root_is_root(location);
        }
        let ghost before = self.entries@;
        let mut entries: Vec<(LocationId, LocationEntry)> = Vec::new();
        std::mem::swap(&mut entries, &mut self.entries);
        match found {
            Some(i) => {
                entries[i] = (root, (name.to_owned(), size));
            },
            None => {
                entries.push((root, (name.to_owned(), size)));
            },
        }
        assert forall|i: int, j: int| 0 <= i < j < entries@.len() implies (#[trigger] entries@[i]).0
            != (#[trigger] entries@[j]).0 by {
            if found is None {
                assert(!stands_at(before, root, i));
            } else {
                assert(before[i].0 != before[j].0);
            }
        }
        assert forall|i: int| 0 <= i < entries@.len() implies (#[trigger] entries@[i]).0.spec_root()
            == entries@[i].0 by {
            if i < before.len() {
                assert(before[i].0.spec_root() == before[i].0);
            }
        }
        self.entries = entries;
        proof {
            let key = location.spec_root();
            let after = self.entries@;
            let wanted = old(self)@.insert(key, (name@, size));
            let at = match found {
                Some(i) => i as int,
                None => before.len() as int,
            };
            assert(stands_at(after, key, at));
            assert forall|k: LocationId| #[trigger] self@.contains_key(k) <==> wanted.contains_key(k) by {
                if self@.contains_key(k) && k != key {
                    let i = choose|i: int| stands_at(after, k, i);
                    assert(stands_at(before, k, i));
                }
                if wanted.contains_key(k) && k != key {
                    let i = choose|i: int| stands_at(before, k, i);
                    assert(stands_at(after, k, i));
                }
            }
            assert forall|k: LocationId| #[trigger] self@.contains_key(k) implies self@[k] == wanted[k] by {
                let i = choose|i: int| stands_at(after, k, i);
                if k != key {
                    assert(stands_at(before, k, i));
                    let j = choose|j: int| stands_at(before, k, j);
                    assert(i == j);
                } else {
                    assert(i == at);
                }
            }
            assert(self@ =~= wanted);
        }
    }

    /// [`LocationInfo::insert`] on a value that is handed on.
    pub fn with(self, location: LocationId, name: &str, size: usize) -> (info: Self)
        ensures
            info@ == self@.insert(location.spec_root(), (name@, size)),
    {
        let mut info = self;
        info.insert(location, name, size);
        info
    }

    /// Enters what the known clusters answer for each of the given locations:
    /// a cluster's name and its number of instances, or nothing.
    pub fn from_clusters(answers: &Vec<(LocationId, Option<LocationEntry>)>) -> (info: Self)
        ensures
            info@ == answers_map(answers@),
    {
        let mut info = LocationInfo::new();
        for i in 0..answers.len()
            invariant
                info@ == answers_map(answers@.take(i as int)),
        {
            proof {
                assert(answers@.take(i + 1).drop_last() =~= answers@.take(i as int));
            }
            if let Some(entry) = &answers[i].1 {
                info.insert(answers[i].0.clone(), entry.0.as_str(), entry.1);
            }
        }
        assert(answers@.take(answers@.len() as int) =~= answers@);
        info
    }

    /// What is known of the root that `location` lies in.
    pub fn lookup(&self, location: &LocationId) -> (found: Option<&LocationEntry>)
        ensures
            match found {
                Some(entry) => self@.contains_key(location.spec_root())
                    && self@[location.spec_root()] == entry_view(*entry),
                None => !self@.contains_key(location.spec_root()),
            },
    {
        proof {
            use_type_invariant(self);
        }
        match self.position(location.root()) {
            Some(i) => {
                let ghost j = choose|j: int| stands_at(self.entries@, location.spec_root(), j);
                assert(i == j);
                Some(&self.entries[i].1)
            },
            None => None,
        }
    }
}

impl Default for LocationInfo {
    /// No location is known.
    fn default() -> (info: Self)
        ensures
            info@ == Map::<LocationId, (Seq<char>, usize)>::empty(),
    {
        LocationInfo::new()
    }
}

impl Clone for LocationInfo {
    fn clone(&self) -> (copy: Self)
        ensures
            copy@ == self@,
    {
        proof {
            use_type_invariant(self);
        }
        let mut entries: Vec<(LocationId, LocationEntry)> = Vec::new();
        for i in 0..self.entries.len()
            invariant
                entries@ =~= self.entries@.take(i as int),
        {
            let entry: &(LocationId, LocationEntry) = &self.entries[i];
            entries.push((entry.0.clone(), (entry.1.0.clone(), entry.1.1)));
        }
        assert(entries@ =~= self.entries@);
        LocationInfo { entries }
    }
}

/// A root location is its own root.
pub proof fn lemma_root_is_root(location: LocationId)
    ensures
        location.spec_root().spec_root() == location.spec_root(),
    decreases location,
{
    match location {
        LocationId::Process(_) => {},
        LocationId::Cluster(_) => {},
        LocationId::Atomic(tick) => lemma_root_is_root(*tick),
        LocationId::Tick(_, id) => lemma_root_is_root(*id),
    }
}

} // verus!
