//! The prefix filter: a pass over the pairs that keeps the keys starting
//! with a configured prefix and removes the prefix from them.

use vstd::prelude::*;
use vstd::string::*;
use crate::decode::{decode, decoded};
use crate::error::{result_view, Error};
use crate::key::{strip_prefix, stripped};
use crate::schema::{fields_view, FieldDescriptor};
use crate::source::{pairs_view, SourceMap};
use crate::value::Record;

verus! {

/// What the prefix filter makes of one pair: nothing if its key does not
/// start with the prefix, otherwise the pair with the prefix removed from
/// its key. The value is not touched.
pub open spec fn strip_pair(pair: (Seq<char>, Seq<char>), prefix: Seq<char>) -> Option<
    (Seq<char>, Seq<char>),
> {
    match stripped(pair.0, prefix) {
        Some(name) => Some((name, pair.1)),
        None => None,
    }
}

/// The pairs that pass the prefix filter, in the order given, each
/// with the prefix removed from its key.
pub open spec fn filtered(pairs: Seq<(Seq<char>, Seq<char>)>, prefix: Seq<char>) -> Seq<
    (Seq<char>, Seq<char>),
> {
    pairs.filter_map(|pair: (Seq<char>, Seq<char>)| strip_pair(pair, prefix))
}

/// A decoder that sees only the pairs whose key starts with a prefix.
/// Made by [`prefixed`].
pub struct Prefixed {
    prefix: String,
}

impl View for Prefixed {
    type V = Seq<char>;

    /// The configured prefix.
    closed spec fn view(&self) -> Seq<char> {
        self.prefix@
    }
}

/// A decoder for keys that carry `prefix`, such as `APP_` for `APP_FOO`.
pub fn prefixed(prefix: &str) -> (decoder: Prefixed)
    ensures
        decoder@ == prefix@,
{
    Prefixed { prefix: String::from_str(prefix) }
}

impl Prefixed {
    /// The configured prefix.
    pub fn prefix(&self) -> (prefix: &String)
        ensures
            prefix@ == self@,
    {
        &self.prefix
    }

    /// Applies the prefix filter: keeps the pairs whose key starts with the
    /// prefix, in order, and removes the prefix from each retained key.
    pub fn filter(&self, pairs: &Vec<(String, String)>) -> (kept: Vec<(String, String)>)
        ensures
            pairs_view(kept@) == filtered(pairs_view(pairs@), self@),
    {
        let mut kept: Vec<(String, String)> = Vec::new();
        let n = pairs.len();
        let mut i: usize = 0;
        while i < n
            invariant
                n == pairs@.len(),
                i <= n,
                pairs_view(kept@) == filtered(pairs_view(pairs@).take(i as int), self@),
            decreases n - i,
        {
            let pair = &pairs[i];
            let ghost before = kept@;
            proof {
                let all = pairs_view(pairs@);
                let f = |pair: (Seq<char>, Seq<char>)| strip_pair(pair, self@);
                all.lemma_filter_map_take_succ(f, i as int);
                assert(all[i as int] == (pair.0@, pair.1@));
            }
            match strip_prefix(pair.0.as_str(), self.prefix.as_str()) {
                Some(name) => {
                    kept.push((name, pair.1.clone()));
                    assert(pairs_view(kept@) =~= pairs_view(before) + seq![(name@, pair.1@)]);
                },
                None => {},
            }
            i += 1;
        }
        assert(pairs_view(pairs@).take(n as int) =~= pairs_view(pairs@));
        kept
    }

    /// Decodes a record from the pairs that pass the prefix filter, under
    /// the keys that are left once the prefix is removed.
    pub fn from_iter(&self, fields: &Vec<FieldDescriptor>, iter: Vec<(String, String)>) -> (r:
        Result<Record, Error>)
        ensures
            result_view(r) == decoded(fields_view(fields@), filtered(pairs_view(iter@), self@)),
    {
        let source = self.source_map(&iter);
        decode(fields, &source)
    }

    /// The source map of the pairs that pass the prefix filter.
    pub fn source_map(&self, pairs: &Vec<(String, String)>) -> (source: SourceMap)
        ensures
            source@ == filtered(pairs_view(pairs@), self@),
    {
        let kept = self.filter(pairs);
        SourceMap::from_pairs(&kept)
    }
}

} // verus!
