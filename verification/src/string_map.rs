use vstd::prelude::*;

verus! {

/// Where a key stands in a sequence of pairs, if it does: the index of its first
/// occurrence among the first `n` pairs.
pub open spec fn position(pairs: Seq<(Seq<char>, Seq<char>)>, key: Seq<char>, n: int) -> Option<
    int,
>
    decreases n,
{
    if n <= 0 {
        None
    } else {
        match position(pairs, key, n - 1) {
            Some(i) => Some(i),
            None => if pairs[n - 1].0 == key {
                Some(n - 1)
            } else {
                None
            },
        }
    }
}

/// No key stands at two places.
pub open spec fn keys_distinct(pairs: Seq<(Seq<char>, Seq<char>)>) -> bool {
    forall|i: int, j: int|
        0 <= i < j < pairs.len() ==> (#[trigger] pairs[i]).0 != (#[trigger] pairs[j]).0
}

/// The pairs after `key` was given `value`: a key that is there keeps its place and gets
/// the new value, a new key goes to the end.
pub open spec fn inserted(
    pairs: Seq<(Seq<char>, Seq<char>)>,
    key: Seq<char>,
    value: Seq<char>,
) -> Seq<(Seq<char>, Seq<char>)> {
    match position(pairs, key, pairs.len() as int) {
        Some(i) => pairs.update(i, (key, value)),
        None => pairs.push((key, value)),
    }
}

/// The pairs after the first `n` of `more` were inserted one after the other.
pub open spec fn extended(
    pairs: Seq<(Seq<char>, Seq<char>)>,
    more: Seq<(Seq<char>, Seq<char>)>,
    n: int,
) -> Seq<(Seq<char>, Seq<char>)>
    decreases n,
{
    if n <= 0 {
        pairs
    } else {
        inserted(extended(pairs, more, n - 1), more[n - 1].0, more[n - 1].1)
    }
}

/// What `position` finds is the first place of the key, and it finds nothing only where
/// the key stands nowhere.
pub proof fn lemma_position(pairs: Seq<(Seq<char>, Seq<char>)>, key: Seq<char>, n: int)
    requires
        0 <= n <= pairs.len(),
    ensures
        match position(pairs, key, n) {
            Some(i) => 0 <= i < n && pairs[i].0 == key && forall|j: int|
                0 <= j < i ==> (#[trigger] pairs[j]).0 != key,
            None => forall|j: int| 0 <= j < n ==> (#[trigger] pairs[j]).0 != key,
        },
    decreases n,
{
    if n > 0 {
        lemma_position(pairs, key, n - 1);
    }
}

/// Inserting keeps keys distinct.
pub proof fn lemma_inserted_distinct(
    pairs: Seq<(Seq<char>, Seq<char>)>,
    key: Seq<char>,
    value: Seq<char>,
)
    requires
        keys_distinct(pairs),
    ensures
        keys_distinct(inserted(pairs, key, value)),
{
    lemma_position(pairs, key, pairs.len() as int);
}

/// The pairs of texts that a vector of strings holds.
pub open spec fn pairs_of(entries: Seq<(String, String)>) -> Seq<(Seq<char>, Seq<char>)> {
    Seq::new(entries.len(), |i: int| (entries[i].0@, entries[i].1@))
}

/// A map from texts to texts that remembers the order in which its keys came.
///
/// It is kept as a vector of pairs. The order of the keys is part of what a request is,
/// for the query and the headers are written in that order, and a hash map walks its
/// keys in no fixed order; and vstd's model of a hash map holds for keys whose hashing it
/// knows, which are numbers and not texts.
#[derive(Debug, PartialEq, Eq)]
pub struct StringMap {
    entries: Vec<(String, String)>,
}

impl View for StringMap {
    type V = Seq<(Seq<char>, Seq<char>)>;

    closed spec fn view(&self) -> Seq<(Seq<char>, Seq<char>)> {
        pairs_of(self.entries@)
    }
}

impl StringMap {
    #[verifier::type_invariant]
    spec fn distinct(&self) -> bool {
        keys_distinct(self@)
    }

    /// A map without keys.
    pub fn new() -> (map: StringMap)
        ensures
            map@ == Seq::<(Seq<char>, Seq<char>)>::empty(),
    {
        let map = StringMap { entries: Vec::new() };
        assert(map@ =~= Seq::<(Seq<char>, Seq<char>)>::empty());
        map
    }

    /// The number of keys. No key is counted twice, for none stands twice.
    pub fn len(&self) -> (n: usize)
        ensures
            n == self@.len(),
            keys_distinct(self@),
    {
        proof {
            use_type_invariant(self);
        }
        self.entries.len()
    }

    /// Whether the map has no key.
    pub fn is_empty(&self) -> (empty: bool)
        ensures
            empty == (self@.len() == 0),
    {
        self.entries.len() == 0
    }

    /// The key at a place.
    pub fn key_at(&self, i: usize) -> (key: &String)
        requires
            i < self@.len(),
        ensures
            key@ == self@[i as int].0,
    {
        &self.entries[i].0
    }

    /// The value at a place.
    pub fn value_at(&self, i: usize) -> (value: &String)
        requires
            i < self@.len(),
        ensures
            value@ == self@[i as int].1,
    {
        &self.entries[i].1
    }

    /// The place of a key, if the map has it.
    pub fn find(&self, key: &String) -> (place: Option<usize>)
        ensures
            match place {
                Some(i) => position(self@, key@, self@.len() as int) == Some(i as int),
                None => position(self@, key@, self@.len() as int) is None,
            },
    {
        let mut i: usize = 0;
        while i < self.entries.len()
            invariant
                i <= self.entries@.len(),
                self@.len() == self.entries@.len(),
                position(self@, key@, i as int) is None,
            decreases self.entries@.len() - i,
        {
            if self.entries[i].0 == *key {
                proof {
                    lemma_position_found(self@, key@, i as int, self@.len() as int);
                }
                return Some(i);
            }
            i = i + 1;
        }
        None
    }

    /// The value of a key, if the map has it.
    pub fn get(&self, key: &String) -> (value: Option<&String>)
        ensures
            match value {
                Some(text) => position(self@, key@, self@.len() as int) matches Some(i)
                    && text@ == self@[i].1,
                None => position(self@, key@, self@.len() as int) is None,
            },
    {
        match self.find(key) {
            Some(i) => {
                proof {
                    lemma_position(self@, key@, self@.len() as int);
                }
                Some(&self.entries[i].1)
            },
            None => None,
        }
    }

    /// Gives a key a value. A key that is there keeps its place; a new key goes to the end.
    pub fn insert(&mut self, key: String, value: String)
        ensures
            final(self)@ == inserted(old(self)@, key@, value@),
    {
        proof {
            use_type_invariant(&*self);
            lemma_inserted_distinct(self@, key@, value@);
        }
        let ghost before = self@;
        match self.find(&key) {
            Some(i) => {
                proof {
                    lemma_position(before, key@, before.len() as int);
                }
                let mut entries: Vec<(String, String)> = Vec::new();
                std::mem::swap(&mut entries, &mut self.entries);
                entries.set(i, (key, value));
                assert(pairs_of(entries@) =~= inserted(before, key@, value@));
                *self = StringMap { entries };
            },
            None => {
                let mut entries: Vec<(String, String)> = Vec::new();
                std::mem::swap(&mut entries, &mut self.entries);
                entries.push((key, value));
                assert(pairs_of(entries@) =~= inserted(before, key@, value@));
                *self = StringMap { entries };
            },
        }
    }

    /// Gives every key of `more` its value there, in the order of `more`.
    pub fn extend(&mut self, more: &StringMap)
        ensures
            final(self)@ == extended(old(self)@, more@, more@.len() as int),
    {
        let mut i: usize = 0;
        while i < more.len()
            invariant
                i <= more@.len(),
                self@ == extended(old(self)@, more@, i as int),
            decreases more@.len() - i,
        {
            self.insert(more.key_at(i).clone(), more.value_at(i).clone());
            i = i + 1;
        }
    }
}

/// A key that stands at `i`, and nowhere before, is found at `i`.
proof fn lemma_position_found(pairs: Seq<(Seq<char>, Seq<char>)>, key: Seq<char>, i: int, n: int)
    requires
        0 <= i < n <= pairs.len(),
        position(pairs, key, i) is None,
        pairs[i].0 == key,
    ensures
        position(pairs, key, n) == Some(i),
    decreases n - i,
{
    if n > i + 1 {
        lemma_position_found(pairs, key, i, n - 1);
    }
}

/// Pairs whose keys are distinct all arrive, in their order, when they are inserted into
/// an empty map one after the other.
pub proof fn lemma_extended_distinct(pairs: Seq<(Seq<char>, Seq<char>)>, n: int)
    requires
        keys_distinct(pairs),
        0 <= n <= pairs.len(),
    ensures
        extended(Seq::empty(), pairs, n) == pairs.subrange(0, n),
    decreases n,
{
    if n > 0 {
        lemma_extended_distinct(pairs, n - 1);
        let sofar = pairs.subrange(0, n - 1);
        lemma_position(sofar, pairs[n - 1].0, sofar.len() as int);
        assert(forall|j: int| 0 <= j < n - 1 ==> (#[trigger] sofar[j]) == pairs[j]);
        assert(position(sofar, pairs[n - 1].0, sofar.len() as int) is None);
        assert(sofar.push(pairs[n - 1]) =~= pairs.subrange(0, n));
    } else {
        assert(pairs.subrange(0, 0) =~= Seq::<(Seq<char>, Seq<char>)>::empty());
    }
}

} // verus!
