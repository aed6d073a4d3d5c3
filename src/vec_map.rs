//! A map from string keys that keeps its entries in insertion order.
use vstd::prelude::*;

verus! {

/// Index of the first entry among the first `n` whose key is `k`.
pub open spec fn first_index_before<T>(s: Seq<(Seq<char>, T)>, k: Seq<char>, n: int) -> Option<int>
    decreases n,
{
    if n <= 0 {
        None
    } else {
        match first_index_before(s, k, n - 1) {
            Some(i) => Some(i),
            None => if s[n - 1].0 == k {
                Some(n - 1)
            } else {
                None
            },
        }
    }
}

/// Index of the first entry whose key is `k`: the entry a lookup of `k` finds.
pub open spec fn first_index<T>(s: Seq<(Seq<char>, T)>, k: Seq<char>) -> Option<int> {
    first_index_before(s, k, s.len() as int)
}

pub open spec fn has_key<T>(s: Seq<(Seq<char>, T)>, k: Seq<char>) -> bool {
    exists|i: int| 0 <= i < s.len() && #[trigger] s[i].0 == k
}

/// The first match is a match, within bounds, with no match before it.
pub proof fn lemma_first_index_before<T>(s: Seq<(Seq<char>, T)>, k: Seq<char>, n: int)
    requires
        0 <= n <= s.len(),
    ensures
        match first_index_before(s, k, n) {
            None => forall|j: int| 0 <= j < n ==> #[trigger] s[j].0 != k,
            Some(i) => 0 <= i < n && s[i].0 == k && forall|j: int| 0 <= j < i ==> #[trigger] s[j].0 != k,
        },
    decreases n,
{
    if n > 0 {
        lemma_first_index_before(s, k, n - 1);
    }
}

/// Once a match is found among the first `m` entries, later entries do not change it.
pub proof fn lemma_first_index_stable<T>(s: Seq<(Seq<char>, T)>, k: Seq<char>, m: int, n: int)
    requires
        0 <= m <= n,
        first_index_before(s, k, m) is Some,
    ensures
        first_index_before(s, k, n) == first_index_before(s, k, m),
    decreases n - m,
{
    if n > m {
        lemma_first_index_stable(s, k, m, n - 1);
    }
}

/// A lookup in a map that grew at its end finds what it found before, if anything.
pub proof fn lemma_first_index_push<T>(s: Seq<(Seq<char>, T)>, e: (Seq<char>, T), k: Seq<char>)
    ensures
        first_index(s, k) is Some ==> first_index(s.push(e), k) == first_index(s, k),
        first_index(s, k) is None ==> first_index(s.push(e), k) == (if e.0 == k {
            Some(s.len() as int)
        } else {
            None
        }),
{
    let t = s.push(e);
    assert forall|n: int| 0 <= n <= s.len() implies first_index_before(t, k, n)
        == first_index_before(s, k, n) by {
        lemma_first_index_prefix(s, t, k, n);
    }
}

proof fn lemma_first_index_prefix<T>(s: Seq<(Seq<char>, T)>, t: Seq<(Seq<char>, T)>, k: Seq<char>, n: int)
    requires
        0 <= n <= s.len(),
        n <= t.len(),
        forall|j: int| 0 <= j < n ==> s[j] == t[j],
    ensures
        first_index_before(t, k, n) == first_index_before(s, k, n),
    decreases n,
{
    if n > 0 {
        lemma_first_index_prefix(s, t, k, n - 1);
    }
}

/// Two maps with the same keys at the same places find the same index for any key.
pub proof fn lemma_first_index_keys<T, U>(s: Seq<(Seq<char>, T)>, t: Seq<(Seq<char>, U)>, k: Seq<char>, n: int)
    requires
        0 <= n <= s.len(),
        s.len() == t.len(),
        forall|i: int| 0 <= i < s.len() ==> #[trigger] s[i].0 == t[i].0,
    ensures
        first_index_before(s, k, n) == first_index_before(t, k, n),
    decreases n,
{
    if n > 0 {
        lemma_first_index_keys(s, t, k, n - 1);
    }
}

/// Entries keyed by strings, in the order they were inserted. A lookup finds the
/// first entry with the key.
#[derive(Debug, Clone)]
pub struct VecMap<T> {
    entries: Vec<(String, T)>,
}

impl<T> View for VecMap<T> {
    type V = Seq<(Seq<char>, T)>;

    closed spec fn view(&self) -> Seq<(Seq<char>, T)> {
        self.entries@.map_values(|e: (String, T)| (e.0@, e.1))
    }
}

impl<T> VecMap<T> {
    /// An empty map.
    pub fn new() -> (r: VecMap<T>)
        ensures
            r@ == Seq::<(Seq<char>, T)>::empty(),
    {
        let r = VecMap { entries: Vec::new() };
        assert(r@ =~= Seq::<(Seq<char>, T)>::empty());
        r
    }

    /// A map holding `entries` in their order.
    pub fn from_entries(entries: Vec<(String, T)>) -> (r: VecMap<T>)
        ensures
            r@.len() == entries@.len(),
            forall|i: int| 0 <= i < entries@.len() ==> #[trigger] r@[i] == (entries@[i].0@, entries@[i].1),
    {
        VecMap { entries }
    }

    pub fn len(&self) -> (r: usize)
        ensures
            r == self@.len(),
    {
        self.entries.len()
    }

    /// Index of the first entry with key `key`.
    pub fn get_index(&self, key: &str) -> (r: Option<usize>)
        ensures
            r is None ==> first_index(self@, key@) is None,
            r matches Some(i) ==> first_index(self@, key@) == Some(i as int) && i < self@.len(),
    {
        proof {
            lemma_first_index_before(self@, key@, self@.len() as int);
        }
        let wanted = key.to_owned();
        let n = self.entries.len();
        let mut i: usize = 0;
        while i < n
            invariant
                i <= n,
                n == self@.len(),
                wanted@ == key@,
                first_index_before(self@, key@, i as int) is None,
            decreases n - i,
        {
            if self.entries[i].0 == wanted {
                proof {
                    assert(self@[i as int].0 == key@);
                    assert(first_index_before(self@, key@, i as int + 1) == Some(i as int));
                    lemma_first_index_stable(self@, key@, i as int + 1, n as int);
                }
                return Some(i);
            }
            assert(self@[i as int].0 != key@);
            i = i + 1;
        }
        None
    }

    /// Value of the first entry with key `key`.
    pub fn get(&self, key: &str) -> (r: Option<&T>)
        ensures
            match first_index(self@, key@) {
                None => r is None,
                Some(i) => r == Some(&self@[i].1),
            },
    {
        match self.get_index(key) {
            None => None,
            Some(i) => Some(&self.entries[i].1),
        }
    }

    /// Value of the entry at `index`.
    pub fn get_by_index(&self, index: usize) -> (r: Option<&T>)
        ensures
            index < self@.len() ==> r == Some(&self@[index as int].1),
            index >= self@.len() ==> r is None,
    {
        if index < self.entries.len() {
            Some(&self.entries[index].1)
        } else {
            None
        }
    }

    /// Key of the entry at `index`.
    pub fn key_by_index(&self, index: usize) -> (r: &str)
        requires
            index < self@.len(),
        ensures
            r@ == self@[index as int].0,
    {
        self.entries[index].0.as_str()
    }

    /// Appends an entry and hands back its value.
    pub fn insert(&mut self, key: String, value: T) -> (r: &mut T)
        ensures
            *r == value,
            final(self)@ == old(self)@.push((key@, *final(r))),
    {
        self.entries.push((key, value));
        let last = self.entries.last_mut().unwrap();
        &mut last.1
    }

    /// The entries, in insertion order.
    pub fn iter(&self) -> (r: &[(String, T)])
        ensures
            r@.len() == self@.len(),
            forall|i: int| 0 <= i < self@.len() ==> (#[trigger] r@[i]).0@ == self@[i].0 && r@[i].1 == self@[i].1,
    {
        self.entries.as_slice()
    }
}

impl<T> Default for VecMap<T> {
    fn default() -> (r: VecMap<T>)
        ensures
            r@ == Seq::<(Seq<char>, T)>::empty(),
    {
        VecMap::new()
    }
}

} // verus!
