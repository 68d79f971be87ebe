use vstd::prelude::*;

verus! {

/// A map stored as two parallel vectors, keys and values, as the binary
/// package index lays maps out. Lookups go by key position.
#[derive(Debug)]
pub struct FbsMap<V> {
    keys: Vec<String>,
    values: Vec<V>,
    len: usize,
}

impl<V> View for FbsMap<V> {
    type V = (Seq<String>, Seq<V>);

    closed spec fn view(&self) -> (Seq<String>, Seq<V>) {
        (self.keys@, self.values@)
    }
}

/// The first position, from `start` on, at which a key occurs.
pub open spec fn key_index(keys: Seq<String>, key: Seq<char>, start: int) -> Option<int>
    decreases keys.len() - start,
{
    if 0 <= start < keys.len() {
        if keys[start]@ == key {
            Some(start)
        } else {
            key_index(keys, key, start + 1)
        }
    } else {
        None
    }
}

/// The value a map gives for a key: the value at the first position of the key.
pub open spec fn map_get<V>(m: (Seq<String>, Seq<V>), key: Seq<char>) -> Option<V> {
    match key_index(m.0, key, 0) {
        Some(i) => Some(m.1[i]),
        None => None,
    }
}

/// What `key_index` finds: a position holding the key with none before it
/// from `start` on, or no position holding the key at all.
pub proof fn lemma_key_index(keys: Seq<String>, key: Seq<char>, start: int)
    requires
        0 <= start,
    ensures
        match key_index(keys, key, start) {
            Some(i) => start <= i < keys.len() && keys[i]@ == key && forall|j: int|
                start <= j < i ==> keys[j]@ != key,
            None => forall|j: int| start <= j < keys.len() ==> keys[j]@ != key,
        },
    decreases keys.len() - start,
{
    if start < keys.len() && keys[start]@ != key {
        lemma_key_index(keys, key, start + 1);
    }
}

impl<V> FbsMap<V> {
    #[verifier::type_invariant]
    spec fn len_matches(&self) -> bool {
        self.len == self.keys.len()
    }

    /// A map over the given keys and values; its length is the number of keys.
    pub fn new(keys: Vec<String>, values: Vec<V>) -> (r: FbsMap<V>)
        ensures
            r@ == (keys@, values@),
    {
        let len = keys.len();
        FbsMap { keys, values, len }
    }

    /// The number of entries: the number of keys.
    pub fn len(&self) -> (r: usize)
        ensures
            r == self@.0.len(),
    {
        proof {
            use_type_invariant(self);
        }
        self.len
    }

    /// The entries, keys paired with values position by position, as far as
    /// both vectors reach.
    pub fn iter(&self) -> (r: Vec<(&String, &V)>)
        ensures
            r@.len() == if self@.0.len() <= self@.1.len() {
                self@.0.len()
            } else {
                self@.1.len()
            },
            forall|i: int| 0 <= i < r@.len() ==> #[trigger] r@[i] == (&self@.0[i], &self@.1[i]),
    {
        let mut out: Vec<(&String, &V)> = Vec::new();
        let mut i: usize = 0;
        while i < self.keys.len() && i < self.values.len()
            invariant
                0 <= i <= self.keys.len(),
                i <= self.values.len(),
                out@.len() == i,
                forall|j: int| 0 <= j < i ==> #[trigger] out@[j] == (&self.keys@[j], &self.values@[j]),
            decreases self.keys.len() - i,
        {
            out.push((&self.keys[i], &self.values[i]));
            i = i + 1;
        }
        out
    }

    /// The value of the first entry whose key is `key`.
    pub fn get(&self, key: &String) -> (r: Option<&V>)
        requires
            self@.0.len() <= self@.1.len(),
        ensures
            match r {
                Some(v) => map_get(self@, key@) == Some(*v),
                None => map_get(self@, key@) is None,
            },
    {
        let mut i: usize = 0;
        while i < self.keys.len()
            invariant
                0 <= i <= self.keys.len(),
                self.keys.len() <= self.values.len(),
                key_index(self.keys@, key@, 0) == key_index(self.keys@, key@, i as int),
            decreases self.keys.len() - i,
        {
            if self.keys[i].eq(key) {
                return Some(&self.values[i]);
            }
            i = i + 1;
        }
        None
    }

    /// All keys, in order.
    pub fn keys(&self) -> (r: Vec<&String>)
        ensures
            r@.len() == self@.0.len(),
            forall|i: int| 0 <= i < r@.len() ==> #[trigger] r@[i] == &self@.0[i],
    {
        let mut out: Vec<&String> = Vec::new();
        let mut i: usize = 0;
        while i < self.keys.len()
            invariant
                0 <= i <= self.keys.len(),
                out@.len() == i,
                forall|j: int| 0 <= j < i ==> #[trigger] out@[j] == &self.keys@[j],
            decreases self.keys.len() - i,
        {
            out.push(&self.keys[i]);
            i = i + 1;
        }
        out
    }

    /// The key at a position, or `None` past the end.
    pub fn key(&self, index: usize) -> (r: Option<&String>)
        ensures
            r == if index < self@.0.len() {
                Some(&self@.0[index as int])
            } else {
                None
            },
    {
        proof {
            use_type_invariant(self);
        }
        if index >= self.len {
            None
        } else {
            Some(&self.keys[index])
        }
    }

    /// The value at a position, or `None` past the number of keys.
    pub fn value(&self, index: usize) -> (r: Option<&V>)
        requires
            self@.0.len() <= self@.1.len(),
        ensures
            r == if index < self@.0.len() {
                Some(&self@.1[index as int])
            } else {
                None
            },
    {
        proof {
            use_type_invariant(self);
        }
        if index >= self.len {
            None
        } else {
            Some(&self.values[index])
        }
    }
}

} // verus!
