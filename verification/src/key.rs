//! Key normalisation: the canonical case in which keys are compared, and
//! the removal of a configured prefix from a key.

use vstd::prelude::*;
use vstd::string::*;
use crate::sequence::strings_view;

verus! {

/// The lowercase form of a text, as `str::to_lowercase` of the standard
/// library computes it from the text alone.
pub uninterp spec fn lowercase(s: Seq<char>) -> Seq<char>;

/// The field name that a source key stands for under a configured prefix:
/// nothing if the key does not start with the prefix, otherwise the key
/// without the prefix at its front. The prefix is removed once; what
/// follows it is kept as it stands.
pub open spec fn stripped(key: Seq<char>, prefix: Seq<char>) -> Option<Seq<char>> {
    if prefix.is_prefix_of(key) {
        Some(key.skip(prefix.len() as int))
    } else {
        None
    }
}

/// The texts with each put in lowercase.
pub open spec fn lowercased(texts: Seq<Seq<char>>) -> Seq<Seq<char>> {
    texts.map_values(|text: Seq<char>| lowercase(text))
}

/// The position of the first key from `start` on that equals `key`.
pub open spec fn first_match_from(keys: Seq<Seq<char>>, key: Seq<char>, start: nat) -> Option<nat>
    decreases keys.len() - start,
{
    if start >= keys.len() {
        None
    } else if keys[start as int] == key {
        Some(start)
    } else {
        first_match_from(keys, key, start + 1)
    }
}

/// The position of the first key that equals `key`.
pub open spec fn first_match(keys: Seq<Seq<char>>, key: Seq<char>) -> Option<nat> {
    first_match_from(keys, key, 0)
}

/// The position of the last key that equals `key`.
pub open spec fn last_match(keys: Seq<Seq<char>>, key: Seq<char>) -> Option<nat>
    decreases keys.len(),
{
    if keys.len() == 0 {
        None
    } else if keys.last() == key {
        Some((keys.len() - 1) as nat)
    } else {
        last_match(keys.drop_last(), key)
    }
}

/// Calls `str::to_lowercase`. Trusted: the result is the lowercase form of
/// the argument, which depends on the argument's characters alone.
#[verifier::external_body]
fn to_lowercase(s: &str) -> (lower: String)
    ensures
        lower@ == lowercase(s@),
{
    s.to_lowercase()
}

/// Calls `str::starts_with` with a string pattern. Trusted: the result says
/// whether the characters of `prefix` are the first characters of `s`.
#[verifier::external_body]
fn starts_with(s: &str, prefix: &str) -> (found: bool)
    ensures
        found == prefix@.is_prefix_of(s@),
{
    s.starts_with(prefix)
}

/// Converts a name to the canonical case in which keys are compared.
pub fn normalize(name: &str) -> (key: String)
    ensures
        key@ == lowercase(name@),
{
    to_lowercase(name)
}

/// Converts each name to the canonical case.
pub fn normalize_all(names: &Vec<String>) -> (keys: Vec<String>)
    ensures
        strings_view(keys@) == lowercased(strings_view(names@)),
{
    let mut keys: Vec<String> = Vec::new();
    let n = names.len();
    let mut i: usize = 0;
    while i < n
        invariant
            n == names@.len(),
            i <= n,
            keys@.len() == i,
            forall|j: int| 0 <= j < i ==> (#[trigger] keys@[j])@ == lowercase(names@[j]@),
        decreases n - i,
    {
        keys.push(normalize(names[i].as_str()));
        i += 1;
    }
    assert(strings_view(keys@) =~= lowercased(strings_view(names@)));
    keys
}

/// Finds the first of the keys that equals `key`.
pub fn find_first(keys: &Vec<String>, key: &String) -> (found: Option<usize>)
    ensures
        match found {
            Some(index) => first_match(strings_view(keys@), key@) == Some(index as nat),
            None => first_match(strings_view(keys@), key@) is None,
        },
{
    let n = keys.len();
    let mut i: usize = 0;
    while i < n
        invariant
            n == keys@.len(),
            i <= n,
            first_match(strings_view(keys@), key@) == first_match_from(
                strings_view(keys@),
                key@,
                i as nat,
            ),
        decreases n - i,
    {
        if keys[i] == *key {
            return Some(i);
        }
        i += 1;
    }
    None
}

/// Finds the last of the keys that equals `key`.
pub fn find_last(keys: &Vec<String>, key: &String) -> (found: Option<usize>)
    ensures
        match found {
            Some(index) => last_match(strings_view(keys@), key@) == Some(index as nat),
            None => last_match(strings_view(keys@), key@) is None,
        },
{
    let ghost texts = strings_view(keys@);
    let mut i: usize = keys.len();
    assert(texts.take(i as int) =~= texts);
    while i > 0
        invariant
            i <= keys@.len(),
            texts == strings_view(keys@),
            last_match(texts, key@) == last_match(texts.take(i as int), key@),
        decreases i,
    {
        proof {
            assert(texts.take(i as int).last() == keys@[i - 1]@);
            assert(texts.take(i as int).drop_last() =~= texts.take(i - 1));
        }
        if keys[i - 1] == *key {
            return Some(i - 1);
        }
        i -= 1;
    }
    assert(texts.take(0).len() == 0);
    None
}

/// Removes a configured prefix from the front of a source key, once. Keys
/// that do not start with the prefix yield `None`: they are invisible to
/// decoding.
pub fn strip_prefix(key: &str, prefix: &str) -> (name: Option<String>)
    ensures
        match name {
            Some(n) => stripped(key@, prefix@) == Some(n@),
            None => stripped(key@, prefix@) is None,
        },
{
    if starts_with(key, prefix) {
        let from = prefix.unicode_len();
        let to = key.unicode_len();
        let rest = key.substring_char(from, to);
        assert(rest@ =~= key@.skip(from as int));
        Some(rest.to_owned())
    } else {
        None
    }
}

/// What the search for the first match returns: a position from `start`
/// on that holds the key and that no such position precedes, or nothing
/// where no position from `start` on holds it.
pub proof fn lemma_first_match_from(keys: Seq<Seq<char>>, key: Seq<char>, start: nat)
    ensures
        match first_match_from(keys, key, start) {
            Some(index) => {
                &&& start <= index < keys.len()
                &&& keys[index as int] == key
                &&& forall|j: int| start <= j < index ==> keys[j] != key
            },
            None => forall|j: int| start <= j < keys.len() ==> keys[j] != key,
        },
    decreases keys.len() - start,
{
    if start < keys.len() && keys[start as int] != key {
        lemma_first_match_from(keys, key, start + 1);
    }
}

/// What the search for the last match returns: a position that holds the
/// key and that no such position follows, or nothing where no position
/// holds it.
pub proof fn lemma_last_match(keys: Seq<Seq<char>>, key: Seq<char>)
    ensures
        match last_match(keys, key) {
            Some(index) => {
                &&& index < keys.len()
                &&& keys[index as int] == key
                &&& forall|j: int| index < j < keys.len() ==> keys[j] != key
            },
            None => forall|j: int| 0 <= j < keys.len() ==> keys[j] != key,
        },
    decreases keys.len(),
{
    if keys.len() > 0 && keys.last() != key {
        lemma_last_match(keys.drop_last(), key);
        assert forall|j: int| 0 <= j < keys.len() - 1 implies keys[j] == keys.drop_last()[j] by {}
    }
}

/// A key made of the prefix and a rest is kept, and the rest is what is
/// left of it, whether or not the rest starts with the prefix again.
pub proof fn lemma_stripped_rest(rest: Seq<char>, prefix: Seq<char>)
    ensures
        stripped(prefix + rest, prefix) == Some(rest),
{
    let key = prefix + rest;
    assert(key.subrange(0, prefix.len() as int) =~= prefix);
    assert(key.skip(prefix.len() as int) =~= rest);
}

/// A key that is kept is the prefix followed by what is left of it.
pub proof fn lemma_stripped_key(key: Seq<char>, prefix: Seq<char>)
    ensures
        stripped(key, prefix) matches Some(name) ==> key == prefix + name,
{
    if prefix.is_prefix_of(key) {
        assert(key =~= prefix + key.skip(prefix.len() as int));
    }
}

} // verus!
