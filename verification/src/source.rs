//! The source map: the key/value pairs that a record is decoded from,
//! indexed by normalised key.

use vstd::prelude::*;
use crate::key::{find_last, last_match, lowercase, normalize};
use crate::sequence::strings_view;

verus! {

/// The mathematical value of a list of pairs: each key and value as a
/// sequence of characters, in the order given.
pub open spec fn pairs_view(pairs: Seq<(String, String)>) -> Seq<(Seq<char>, Seq<char>)> {
    pairs.map_values(|p: (String, String)| (p.0@, p.1@))
}

/// The normalised keys of the pairs, in order.
pub open spec fn keys_of(pairs: Seq<(Seq<char>, Seq<char>)>) -> Seq<Seq<char>> {
    pairs.map_values(|p: (Seq<char>, Seq<char>)| lowercase(p.0))
}

/// The pair that a normalised key resolves to: the last pair whose key has
/// `key` as its lowercase form, as the key was supplied, with its value.
/// Later pairs replace earlier ones, as inserting into a map would.
pub open spec fn resolve(pairs: Seq<(Seq<char>, Seq<char>)>, key: Seq<char>) -> Option<
    (Seq<char>, Seq<char>),
> {
    match last_match(keys_of(pairs), key) {
        Some(index) => Some(pairs[index as int]),
        None => None,
    }
}

/// The pairs with each key replaced by its normalised form.
pub open spec fn normalized(pairs: Seq<(Seq<char>, Seq<char>)>) -> Seq<(Seq<char>, Seq<char>)> {
    pairs.map_values(|p: (Seq<char>, Seq<char>)| (lowercase(p.0), p.1))
}

/// Key/value pairs ready for lookup. Each pair is kept as supplied, next to
/// the normalised form of its key. Built once per decode and not changed
/// afterwards.
pub struct SourceMap {
    keys: Vec<String>,
    pairs: Vec<(String, String)>,
}

impl View for SourceMap {
    type V = Seq<(Seq<char>, Seq<char>)>;

    /// The pairs as supplied, in order.
    closed spec fn view(&self) -> Seq<(Seq<char>, Seq<char>)> {
        pairs_view(self.pairs@)
    }
}

impl SourceMap {
    #[verifier::type_invariant]
    spec fn keys_normalized(self) -> bool {
        strings_view(self.keys@) == keys_of(pairs_view(self.pairs@))
    }

    /// Builds the source map of the given pairs.
    pub fn from_pairs(pairs: &Vec<(String, String)>) -> (source: SourceMap)
        ensures
            source@ == pairs_view(pairs@),
    {
        let mut keys: Vec<String> = Vec::new();
        let mut copies: Vec<(String, String)> = Vec::new();
        let n = pairs.len();
        let mut i: usize = 0;
        while i < n
            invariant
                n == pairs@.len(),
                i <= n,
                keys@.len() == i,
                copies@.len() == i,
                forall|j: int| 0 <= j < i ==> (#[trigger] keys@[j])@ == lowercase(pairs@[j].0@),
                forall|j: int|
                    0 <= j < i ==> (#[trigger] copies@[j]).0@ == pairs@[j].0@ && copies@[j].1@
                        == pairs@[j].1@,
            decreases n - i,
        {
            let pair = &pairs[i];
            keys.push(normalize(pair.0.as_str()));
            copies.push((pair.0.clone(), pair.1.clone()));
            i += 1;
        }
        assert(pairs_view(copies@) =~= pairs_view(pairs@));
        assert(strings_view(keys@) =~= keys_of(pairs_view(copies@)));
        SourceMap { keys, pairs: copies }
    }

    /// The number of pairs.
    pub fn len(&self) -> (n: usize)
        ensures
            n == self@.len(),
    {
        self.pairs.len()
    }

    /// Looks up a normalised key. Returns the key as it was supplied and
    /// its value, or `None` where no pair has that key.
    pub fn get(&self, key: &String) -> (found: Option<(&String, &String)>)
        ensures
            match found {
                Some((name, value)) => resolve(self@, key@) == Some((name@, value@)),
                None => resolve(self@, key@) is None,
            },
    {
        proof {
            use_type_invariant(self);
            crate::key::lemma_last_match(strings_view(self.keys@), key@);
        }
        match find_last(&self.keys, key) {
            Some(index) => {
                let pair = &self.pairs[index];
                Some((&pair.0, &pair.1))
            },
            None => None,
        }
    }

    /// The pairs with normalised keys, in the order supplied.
    pub fn to_pairs(&self) -> (pairs: Vec<(String, String)>)
        ensures
            pairs_view(pairs@) == normalized(self@),
    {
        proof {
            use_type_invariant(self);
        }
        let mut pairs: Vec<(String, String)> = Vec::new();
        let n = self.pairs.len();
        let mut i: usize = 0;
        assert(strings_view(self.keys@).len() == self.keys@.len());
        assert(keys_of(pairs_view(self.pairs@)).len() == self.pairs@.len());
        while i < n
            invariant
                n == self.pairs@.len(),
                n == self.keys@.len(),
                i <= n,
                self.keys_normalized(),
                pairs@.len() == i,
                forall|j: int|
                    0 <= j < i ==> (#[trigger] pairs@[j]).0@ == self.keys@[j]@ && pairs@[j].1@
                        == self.pairs@[j].1@,
            decreases n - i,
        {
            pairs.push((self.keys[i].clone(), self.pairs[i].1.clone()));
            i += 1;
        }
        proof {
            let keys = strings_view(self.keys@);
            assert forall|j: int| 0 <= j < n implies (#[trigger] pairs@[j]).0@ == lowercase(
                self.pairs@[j].0@,
            ) by {
                assert(keys[j] == self.keys@[j]@);
                assert(keys_of(pairs_view(self.pairs@))[j] == lowercase(self.pairs@[j].0@));
            }
            assert(pairs_view(pairs@) =~= normalized(self@));
        }
        pairs
    }
}

} // verus!
