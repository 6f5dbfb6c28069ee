//! The registry of indices by name.

use crate::errors::LittIndexTrackerError;
use crate::text_map::TextMap;
use vstd::prelude::*;

verus! {

/// The registry of indices: for every name of an index, the documents root of that
/// index.
pub struct IndexTracker {
    indices: TextMap<String>,
}

impl View for IndexTracker {
    type V = Map<Seq<char>, Seq<char>>;

    closed spec fn view(&self) -> Map<Seq<char>, Seq<char>> {
        self.indices@.map_values(|path: String| path@)
    }
}

/// Whether the name at place `k` is the first that stands for the documents root `path`.
pub open spec fn is_first_name_of(
    names: Seq<Seq<char>>,
    indices: Map<Seq<char>, Seq<char>>,
    path: Seq<char>,
    k: int,
) -> bool {
    &&& 0 <= k < names.len()
    &&& indices[names[k]] == path
    &&& forall|j: int| 0 <= j < k ==> indices[#[trigger] names[j]] != path
}

/// Whether some name stands for the documents root `path`.
pub open spec fn has_root(indices: Map<Seq<char>, Seq<char>>, path: Seq<char>) -> bool {
    exists|name: Seq<char>| indices.dom().contains(name) && #[trigger] indices[name] == path
}

impl IndexTracker {
    /// The names of the indices, in the order in which they were first registered.
    pub closed spec fn names(self) -> Seq<Seq<char>> {
        self.indices.keys()
    }

    /// A registry without indices.
    pub fn new() -> (tracker: IndexTracker)
        ensures
            tracker@ == Map::<Seq<char>, Seq<char>>::empty(),
    {
        let tracker = IndexTracker { indices: TextMap::new() };
        assert(tracker@ =~= Map::<Seq<char>, Seq<char>>::empty());
        tracker
    }

    /// Whether an index is registered under `name`.
    pub fn name_exists(&self, name: &str) -> (b: bool)
        ensures
            b == self@.dom().contains(name@),
    {
        self.indices.contains_key(name)
    }

    /// Says whether an index is registered for the documents root `path`: `Some(true)`
    /// where one is, nothing where none is.
    pub fn path_exists(&self, path: &String) -> (found: Option<bool>)
        ensures
            has_root(self@, path@) ==> found == Some(true),
            !has_root(self@, path@) ==> found is None,
    {
        match self.get_name(path) {
            Some(_) => Some(true),
            None => None,
        }
    }

    /// Registers the index `name` for the documents root `path`, in place of what was
    /// registered under that name before.
    pub fn add(&mut self, name: String, path: String)
        ensures
            final(self)@ == old(self)@.insert(name@, path@),
    {
        self.indices.insert(name, path);
        assert(self@ =~= old(self)@.insert(name@, path@));
    }

    /// Takes the index `name` out of the registry.
    pub fn remove(&mut self, name: &str)
        ensures
            final(self)@ == old(self)@.remove(name@),
    {
        self.indices.remove(name);
        assert(self@ =~= old(self)@.remove(name@));
    }

    /// The documents root of the index `name`.
    pub fn get_path(&self, name: &str) -> (result: Result<String, LittIndexTrackerError>)
        ensures
            self@.dom().contains(name@) ==> (result matches Ok(path) && path@ == self@[name@]),
            !self@.dom().contains(name@) ==> (result matches Err(LittIndexTrackerError::NotFound(n))
                && n@ == name@),
    {
        match self.indices.get(name) {
            Some(path) => Ok(path.clone()),
            None => Err(LittIndexTrackerError::NotFound(name.to_owned())),
        }
    }

    /// The name of the index that is registered for the documents root `path`; of several
    /// such names the one that comes first.
    pub fn get_name(&self, path: &String) -> (found: Option<String>)
        ensures
            found matches Some(name) ==> self@.dom().contains(name@) && self@[name@] == path@
                && exists|k: int|
                is_first_name_of(self.names(), self@, path@, k) && self.names()[k] == name@,
            found is Some == has_root(self@, path@),
    {
        let n = self.indices.len();
        let mut i: usize = 0;
        while i < n
            invariant
                i <= n,
                n == self.indices.keys().len(),
                forall|key: Seq<char>|
                    self.indices@.dom().contains(key) <==> self.indices.keys().contains(key),
                forall|k: int|
                    0 <= k < i ==> self@[#[trigger] self.indices.keys()[k]] != path@,
            decreases n - i,
        {
            let entry = self.indices.entry(i);
            if entry.value == *path {
                assert(self@[entry.key@] == path@);
                assert(is_first_name_of(self.names(), self@, path@, i as int));
                return Some(entry.key.clone());
            }
            i += 1;
        }
        proof {
            if has_root(self@, path@) {
                let name = choose|name: Seq<char>|
                    self@.dom().contains(name) && #[trigger] self@[name] == path@;
                assert(self.indices.keys().contains(name));
                let k = choose|k: int|
                    0 <= k < self.indices.keys().len() && self.indices.keys()[k] == name;
                assert(self@[self.indices.keys()[k]] != path@);
            }
        }
        None
    }

    /// All indices: every name with its documents root, each name once, in the order in
    /// which the names were first registered.
    pub fn all(&self) -> (result: Result<Vec<(String, String)>, LittIndexTrackerError>)
        ensures
            result matches Ok(pairs) && pairs@.len() == self@.len() && pairs@.len()
                == self.names().len() && (forall|k: int|
                0 <= k < pairs@.len() ==> (#[trigger] pairs@[k]).0@ == self.names()[k]
                    && self@.dom().contains(pairs@[k].0@) && self@[pairs@[k].0@] == pairs@[k].1@)
                && (forall|k: int, m: int|
                0 <= k < m < pairs@.len() ==> (#[trigger] pairs@[k]).0@ != (#[trigger] pairs@[m]).0@),
    {
        let n = self.indices.len();
        let mut pairs: Vec<(String, String)> = Vec::new();
        let mut i: usize = 0;
        assert(self@.dom() =~= self.indices@.dom());
        while i < n
            invariant
                i <= n,
                n == self.indices.keys().len(),
                n == self@.len(),
                self.indices.keys().no_duplicates(),
                pairs@.len() == i,
                forall|k: int| 0 <= k < i ==> (#[trigger] pairs@[k]).0@ == self.indices.keys()[k],
                forall|k: int|
                    0 <= k < i ==> self@.dom().contains((#[trigger] pairs@[k]).0@)
                        && self@[pairs@[k].0@] == pairs@[k].1@,
            decreases n - i,
        {
            let entry = self.indices.entry(i);
            pairs.push((entry.key.clone(), entry.value.clone()));
            i += 1;
        }
        Ok(pairs)
    }
}

} // verus!
